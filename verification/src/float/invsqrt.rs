//! Inverse-square-root approximation by the magic-constant bit trick.

use super::repr;
use super::F32;
use vstd::prelude::*;

verus! {

impl F32 {
    /// Approximates `1 / sqrt(x)` by subtracting half the bit pattern from
    /// the constant `0x5F37_5A86`, which negates and halves the unbiased
    /// exponent; the deviation from the true value is around five percent.
    /// The pattern arithmetic is exact for a clear sign bit; a set sign bit
    /// is outside the method's domain and the difference wraps.
    pub fn invsqrt(self) -> (r: F32)
        ensures
            (self.bits as int) / 2 <= 0x5F37_5A86 ==> r.bits == 0x5F37_5A86 - (self.bits as int)
                / 2,
            (self.bits as int) / 2 > 0x5F37_5A86 ==> r.bits == 0x1_0000_0000 + 0x5F37_5A86 - (
            self.bits as int) / 2,
            repr::sign_of(self.bits) == 0 ==> repr::sign_of(r.bits) == 0,
    {
        let r = F32 { bits: 0x5F37_5A86u32.wrapping_sub(self.bits >> 1) };
        proof {
            let b = self.bits;
            let rb = r.bits;
            assert(b >> 1 == b / 2 && (b >> 31 == 0 ==> b / 2 <= 0x3FFF_FFFF)) by (bit_vector);
            assert(rb < 0x8000_0000 ==> rb >> 31 == 0) by (bit_vector);
        }
        r
    }
}

} // verus!
