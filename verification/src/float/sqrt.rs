//! Square-root approximation by averaging the bit pattern with the bias.

use super::repr;
use super::F32;
use vstd::prelude::*;

verus! {

impl F32 {
    /// Approximates the square root by adding the bit pattern of `1.0` to
    /// the pattern and halving the sum, which halves the unbiased exponent;
    /// the deviation from the true root is around five percent.  The
    /// pattern arithmetic is exact for a clear sign bit; a set sign bit is
    /// outside the method's domain and the sum wraps.
    pub fn sqrt(self) -> (r: F32)
        ensures
            self.bits + 0x3F80_0000 <= 0xFFFF_FFFF ==> r.bits == (self.bits + 0x3F80_0000) / 2,
            self.bits + 0x3F80_0000 > 0xFFFF_FFFF ==> r.bits == (self.bits + 0x3F80_0000
                - 0x1_0000_0000) / 2,
            repr::sign_of(self.bits) == 0 ==> repr::sign_of(r.bits) == 0,
            repr::sign_of(self.bits) == 0 && repr::frac_of(self.bits) == 0 && repr::exp_of(
                self.bits,
            ) % 2 == 1 ==> repr::frac_of(r.bits) == 0 && repr::exp_of(r.bits) == (repr::exp_of(
                self.bits,
            ) + 127) / 2,
    {
        let r = F32 { bits: self.bits.wrapping_add(0x3F80_0000) >> 1 };
        proof {
            let b = self.bits;
            let w: u32 = b.wrapping_add(0x3F80_0000);
            assert(w >> 1 == w / 2) by (bit_vector);
            assert(b >> 31 == 0 ==> b + 0x3F80_0000 < 0x1_0000_0000 && ((b + 0x3F80_0000) as u32)
                / 2 < 0x8000_0000) by (bit_vector);
            let rb = r.bits;
            assert(rb < 0x8000_0000 ==> rb >> 31 == 0) by (bit_vector);
            assert(b >> 31 == 0 && b & 0x007F_FFFF == 0 && ((b >> 23) & 0xFF) % 2 == 1 ==> {
                let s = ((b + 0x3F80_0000) as u32) / 2;
                s & 0x007F_FFFF == 0 && s >> 31 == 0 && (s >> 23) & 0xFF == (((b >> 23) & 0xFF)
                    + 127) / 2
            }) by (bit_vector);
        }
        r
    }
}

} // verus!
