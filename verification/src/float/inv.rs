//! Reciprocal approximation by subtracting the bit pattern from a constant.

use super::repr;
use super::F32;
use vstd::prelude::*;

verus! {

/// The pattern of the reciprocal approximation: subtracting the pattern
/// from `0x7F00_0000` (the pattern of `1.0` with the bias doubled) negates
/// the unbiased exponent.  When the subtraction would underflow — for every
/// pattern above the constant, which covers every negative value, both
/// infinities and every not-a-number — the approximation is out of its
/// domain: an infinity yields the zero of its sign, a not-a-number stays
/// not-a-number, and everything else yields `0.0`.
pub open spec fn inv_bits(b: u32) -> u32 {
    if b <= 0x7F00_0000 {
        (0x7F00_0000 - b) as u32
    } else if b == repr::INFINITY_BITS {
        repr::ZERO_BITS
    } else if b == repr::NEG_INFINITY_BITS {
        repr::NEG_ZERO_BITS
    } else if repr::is_nan_bits(b) {
        repr::NAN_BITS
    } else {
        repr::ZERO_BITS
    }
}

/// On its domain the reciprocal approximation is an involution: applying
/// the pattern subtraction twice gives the pattern back.
pub proof fn lemma_inv_involution(b: u32)
    requires
        b <= 0x7F00_0000,
    ensures
        inv_bits(inv_bits(b)) == b,
{
}

impl F32 {
    /// Approximates `1 / x` by the pattern subtraction in [`inv_bits`]; the
    /// deviation from the true reciprocal is around eight percent on the
    /// domain of the method, positive finite values below the constant's
    /// magnitude.
    pub fn inv(self) -> (r: F32)
        ensures
            r.bits == inv_bits(self.bits),
    {
        let b = self.bits;
        proof {
            assert((0x7F80_0000u32 >> 23) & 0xFF == 255 && 0x7F80_0000u32 & 0x007F_FFFF == 0 && (
            0xFF80_0000u32 >> 23) & 0xFF == 255 && 0xFF80_0000u32 & 0x007F_FFFF == 0 && (((b >> 23)
                & 0xFF == 255 && b & 0x007F_FFFF == 0) ==> ((b == 0x7F80_0000u32 && b >> 31 == 0)
                || (b == 0xFF80_0000u32 && b >> 31 == 1)))) by (bit_vector);
        }
        if b <= 0x7F00_0000 {
            return F32 { bits: 0x7F00_0000 - b };
        }
        if self.is_infinite() {
            if self.is_sign_positive() {
                return F32 { bits: repr::ZERO_BITS };
            }
            return F32 { bits: repr::NEG_ZERO_BITS };
        }
        if self.is_nan() {
            return F32 { bits: repr::NAN_BITS };
        }
        F32 { bits: repr::ZERO_BITS }
    }
}

} // verus!
