//! Staging for the natural-logarithm approximation: the exact point at one
//! and the exponent extraction that feeds the range reduction.

use super::repr;
use super::F32;
use vstd::arithmetic::power2::pow2;
use vstd::prelude::*;

verus! {

impl F32 {
    /// True for an argument within one mantissa step of `1.0`, where the
    /// logarithm is returned as exactly `0.0`: the pattern of `1.0` itself
    /// and the pattern one step below it, the only two finite values whose
    /// distance to one is under a mantissa unit.
    pub fn near_one(self) -> (r: bool)
        ensures
            r == (self.bits == repr::ONE_BITS || self.bits == 0x3F7F_FFFF),
    {
        self.bits == repr::ONE_BITS || self.bits == 0x3F7F_FFFF
    }

    /// Splits a value of at least one into its base-two exponent and the
    /// power of two carrying that exponent, so that dividing by the power
    /// normalizes the value into `[1, 2)`.  The power is the exponent field
    /// alone: a clear sign, the same exponent and a zero mantissa, hence
    /// exactly `2^n` on the `2^150` scale.
    pub fn ln_split(self) -> (r: (u32, F32))
        requires
            127 <= repr::exp_of(self.bits) < 255,
        ensures
            r.0 == repr::exp_of(self.bits) - 127,
            r.1.bits == (self.bits & repr::EXPONENT_MASK),
            repr::sign_of(r.1.bits) == 0,
            repr::exp_of(r.1.bits) == repr::exp_of(self.bits),
            repr::frac_of(r.1.bits) == 0,
            repr::mag150(r.1.bits) == pow2((r.0 + 150) as nat),
    {
        let e: i32 = self.exponent_value();
        let n: u32 = e as u32;
        let divisor = F32 { bits: self.bits & repr::EXPONENT_MASK };
        proof {
            let b = self.bits;
            assert((b & 0x7F80_0000) >> 31 == 0 && ((b & 0x7F80_0000) >> 23) & 0xFF == (b >> 23)
                & 0xFF && (b & 0x7F80_0000) & 0x007F_FFFF == 0) by (bit_vector);
            vstd::arithmetic::power2::lemma_pow2_adds(23, repr::exp_of(b) as nat);
            vstd::arithmetic::power2::lemma2_to64();
        }
        (n, divisor)
    }
}

} // verus!
