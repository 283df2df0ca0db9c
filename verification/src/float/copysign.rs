//! Copy the sign of one value onto the magnitude of another.

use super::repr;
use super::F32;
use vstd::prelude::*;

verus! {

impl F32 {
    /// Combines the magnitude of `self` with the sign bit of `sign`; exact.
    pub fn copysign(self, sign: F32) -> (r: F32)
        ensures
            r.bits == (self.bits & 0x7FFF_FFFF) | (sign.bits & 0x8000_0000),
            repr::sign_of(r.bits) == repr::sign_of(sign.bits),
            repr::exp_of(r.bits) == repr::exp_of(self.bits),
            repr::frac_of(r.bits) == repr::frac_of(self.bits),
            repr::mag150(r.bits) == repr::mag150(self.bits),
    {
        let source_sign: u32 = sign.bits & repr::SIGN_MASK;
        let magnitude: u32 = self.bits & 0x7FFF_FFFF;
        let r = F32 { bits: magnitude | source_sign };
        proof {
            let b = self.bits;
            let s = sign.bits;
            assert(((b & 0x7FFF_FFFF) | (s & 0x8000_0000)) >> 31 == s >> 31 && (((b
                & 0x7FFF_FFFF) | (s & 0x8000_0000)) >> 23) & 0xFF == (b >> 23) & 0xFF && ((b
                & 0x7FFF_FFFF) | (s & 0x8000_0000)) & 0x007F_FFFF == b & 0x007F_FFFF)
                by (bit_vector);
        }
        r
    }
}

} // verus!
