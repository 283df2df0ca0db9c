//! Absolute value: clear the sign bit.

use super::repr;
use super::F32;
use vstd::prelude::*;

verus! {

impl F32 {
    /// Clears the sign bit and keeps the magnitude; constant time, exact.
    /// A not-a-number pattern keeps its payload.
    pub fn abs(self) -> (r: F32)
        ensures
            r.bits == (self.bits & 0x7FFF_FFFF),
            repr::sign_of(r.bits) == 0,
            repr::exp_of(r.bits) == repr::exp_of(self.bits),
            repr::frac_of(r.bits) == repr::frac_of(self.bits),
            repr::mag150(r.bits) == repr::mag150(self.bits),
            repr::is_finite_bits(self.bits) ==> repr::val150(r.bits) == repr::mag150(self.bits),
    {
        let r = F32 { bits: self.bits & 0x7FFF_FFFF };
        proof {
            let b = self.bits;
            assert((b & 0x7FFF_FFFF) >> 31 == 0 && ((b & 0x7FFF_FFFF) >> 23) & 0xFF == (b >> 23)
                & 0xFF && (b & 0x7FFF_FFFF) & 0x007F_FFFF == b & 0x007F_FFFF) by (bit_vector);
        }
        r
    }
}

} // verus!
