//! The sign of a value as a unit value.

use super::repr;
use super::F32;
use vstd::prelude::*;

verus! {

impl F32 {
    /// `1.0` for a clear sign bit, `-1.0` for a set one — zeros and
    /// infinities included — and not-a-number for a not-a-number.
    pub fn signum(self) -> (r: F32)
        ensures
            repr::is_nan_bits(self.bits) ==> r.bits == repr::NAN_BITS,
            !repr::is_nan_bits(self.bits) && repr::sign_of(self.bits) == 0 ==> r.bits
                == repr::ONE_BITS,
            !repr::is_nan_bits(self.bits) && repr::sign_of(self.bits) == 1 ==> r.bits
                == repr::NEG_ONE_BITS,
    {
        if self.is_nan() {
            return F32 { bits: repr::NAN_BITS };
        }
        let r = F32 { bits: repr::ONE_BITS }.copysign(self);
        proof {
            let b = self.bits;
            assert((b >> 31 == 0 ==> (0x3F80_0000u32 & 0x7FFF_FFFF) | (b & 0x8000_0000)
                == 0x3F80_0000u32) && (b >> 31 == 1 ==> (0x3F80_0000u32 & 0x7FFF_FFFF) | (b
                & 0x8000_0000) == 0xBF80_0000u32)) by (bit_vector);
            repr::lemma_fields(b);
        }
        r
    }
}

} // verus!
