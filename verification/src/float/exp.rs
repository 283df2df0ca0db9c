//! Staging for the exponential approximation: the exact special cases and
//! the exponent-field reconstruction that reinjects the whole part.

use super::repr;
use super::F32;
use vstd::prelude::*;

verus! {

/// Bit pattern of Euler's number, the value of `exp(1)`.
pub const E_BITS: u32 = 0x402D_F854;

/// Bit pattern of the reciprocal of Euler's number, the value of `exp(-1)`.
pub const E_RECIP_BITS: u32 = 0x3EBC_5AB2;

/// A sum clamped to the `i32` range, as a saturating addition computes it.
pub open spec fn saturated_add(a: int, b: int) -> int {
    if a + b > i32::MAX {
        i32::MAX as int
    } else if a + b < i32::MIN {
        i32::MIN as int
    } else {
        a + b
    }
}

impl F32 {
    /// The exactly-known points of the exponential: a zero argument yields
    /// `1.0` exactly, and an argument within one mantissa step below the
    /// magnitude of `1.0` — where subtracting one is exact and leaves less
    /// than one mantissa unit — yields `e` or its reciprocal.
    pub fn exp_special(self) -> (r: Option<F32>)
        ensures
            repr::is_zero_bits(self.bits) ==> r == Some((F32 { bits: repr::ONE_BITS })),
            self.bits == repr::ONE_BITS || self.bits == 0x3F7F_FFFF ==> r == Some(
                (F32 { bits: E_BITS }),
            ),
            self.bits == repr::NEG_ONE_BITS || self.bits == 0xBF7F_FFFF ==> r == Some(
                (F32 { bits: E_RECIP_BITS }),
            ),
            !(repr::is_zero_bits(self.bits) || self.bits == repr::ONE_BITS || self.bits
                == 0x3F7F_FFFF || self.bits == repr::NEG_ONE_BITS || self.bits == 0xBF7F_FFFF)
                ==> r is None,
    {
        let b = self.bits;
        if b == repr::ZERO_BITS || b == repr::NEG_ZERO_BITS {
            return Some(F32 { bits: repr::ONE_BITS });
        }
        if b == repr::ONE_BITS || b == 0x3F7F_FFFF {
            return Some(F32 { bits: E_BITS });
        }
        if b == repr::NEG_ONE_BITS || b == 0xBF7F_FFFF {
            return Some(F32 { bits: E_RECIP_BITS });
        }
        None
    }

    /// Reinjects the whole part of the reduced exponent: adds `whole` to
    /// the unbiased exponent of `self` (saturating, as the callers compute
    /// it), flushing to `0.0` below the representable range and to
    /// `+infinity` above it.  The shifted exponent `128` is stored as the
    /// field 255.
    pub fn exp_reconstruct(self, whole: i32) -> (r: F32)
        ensures
            saturated_add(repr::exp_of(self.bits) - 127, whole as int) < -127 ==> r.bits
                == repr::ZERO_BITS,
            saturated_add(repr::exp_of(self.bits) - 127, whole as int) > 128 ==> r.bits
                == repr::INFINITY_BITS,
            -127 <= saturated_add(repr::exp_of(self.bits) - 127, whole as int) <= 128 ==> {
                &&& repr::sign_of(r.bits) == repr::sign_of(self.bits)
                &&& repr::exp_of(r.bits) == saturated_add(
                    repr::exp_of(self.bits) - 127,
                    whole as int,
                ) + 127
                &&& repr::frac_of(r.bits) == repr::frac_of(self.bits)
            },
    {
        let ev: i32 = self.exponent_value();
        let t: i32 = if whole > 0 && ev > i32::MAX - whole {
            i32::MAX
        } else if whole < 0 && ev < i32::MIN - whole {
            i32::MIN
        } else {
            ev + whole
        };
        if t < -127 {
            return F32 { bits: repr::ZERO_BITS };
        }
        if t > 128 {
            return F32 { bits: repr::INFINITY_BITS };
        }
        self.set_exponent(t)
    }
}

} // verus!
