//! The quadrant bookkeeping of the four-quadrant arctangent.

use super::repr;
use super::F32;
use vstd::prelude::*;

verus! {

impl F32 {
    /// The quadrant offset of `atan2(self, x)`, computed from the two sign
    /// bits alone: `0` with `x` not below zero and `self` not below zero,
    /// `4` with only `self` below zero, and `2` whenever `x` is below zero.
    /// Added to the signed first-quadrant result it normalizes the angle
    /// into `[0, 4)` quarter turns.
    pub fn atan2_quadrant(self, x: F32) -> (q: u32)
        ensures
            repr::sign_of(x.bits) == 0 && repr::sign_of(self.bits) == 0 ==> q == 0,
            repr::sign_of(x.bits) == 0 && repr::sign_of(self.bits) == 1 ==> q == 4,
            repr::sign_of(x.bits) == 1 ==> q == 2,
    {
        let ux_s: u32 = x.bits & repr::SIGN_MASK;
        let uy_s: u32 = self.bits & repr::SIGN_MASK;
        let q: u32 = (!ux_s & uy_s) >> 29 | ux_s >> 30;
        proof {
            let xb = x.bits;
            let yb = self.bits;
            assert({
                let qq = (!(xb & 0x8000_0000) & (yb & 0x8000_0000)) >> 29 | (xb & 0x8000_0000)
                    >> 30;
                &&& (xb >> 31 == 0 && yb >> 31 == 0 ==> qq == 0)
                &&& (xb >> 31 == 0 && yb >> 31 == 1 ==> qq == 4)
                &&& (xb >> 31 == 1 ==> qq == 2)
            }) by (bit_vector);
        }
        q
    }

    /// Combines the signs of `self` and `x` onto the first-quadrant ratio:
    /// the exclusive-or of the two sign bits is laid over the ratio's
    /// pattern, which carries a clear sign out of the approximation.
    pub fn atan2_combine(self, x: F32, first_quadrant: F32) -> (r: F32)
        ensures
            r.bits == (((self.bits & 0x8000_0000) ^ (x.bits & 0x8000_0000))
                | first_quadrant.bits),
            repr::sign_of(first_quadrant.bits) == 0 ==> {
                &&& repr::exp_of(r.bits) == repr::exp_of(first_quadrant.bits)
                &&& repr::frac_of(r.bits) == repr::frac_of(first_quadrant.bits)
                &&& repr::mag150(r.bits) == repr::mag150(first_quadrant.bits)
                &&& (repr::sign_of(r.bits) == 1 <==> repr::sign_of(self.bits) != repr::sign_of(
                    x.bits,
                ))
            },
    {
        let ux_s: u32 = x.bits & repr::SIGN_MASK;
        let uy_s: u32 = self.bits & repr::SIGN_MASK;
        let r = F32 { bits: (uy_s ^ ux_s) | first_quadrant.bits };
        proof {
            let xb = x.bits;
            let yb = self.bits;
            let fb = first_quadrant.bits;
            assert(fb >> 31 == 0 ==> {
                let rr = ((yb & 0x8000_0000) ^ (xb & 0x8000_0000)) | fb;
                &&& (rr >> 23) & 0xFF == (fb >> 23) & 0xFF
                &&& rr & 0x007F_FFFF == fb & 0x007F_FFFF
                &&& (rr >> 31 == 1 <==> yb >> 31 != xb >> 31)
            }) by (bit_vector);
        }
        r
    }
}

} // verus!
