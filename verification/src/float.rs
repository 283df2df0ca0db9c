//! The single-precision value and its operations.

pub mod abs;
pub mod atan2;
pub mod ceil;
pub mod copysign;
pub mod encode;
pub mod exp;
pub mod floor;
pub mod fract;
pub mod inv;
pub mod invsqrt;
pub mod ln;
pub mod powf;
pub mod repr;
pub mod round;
pub mod signum;
pub mod sqrt;
pub mod trunc;
pub mod utils;

use vstd::prelude::*;

verus! {

/// A single-precision IEEE 754 value, carried as its 32-bit pattern.
///
/// Every operation of this library works directly on the bit pattern:
/// the approximations it implements are defined at the level of the
/// sign, exponent and mantissa fields, and their contracts are stated
/// over the integer model in [`repr`].  Equality of two `F32` values is
/// equality of their patterns, so `-0.0` and `+0.0` are distinct and a
/// not-a-number pattern is equal to itself.
#[derive(Clone, Copy, Debug, PartialEq, Eq, Structural)]
pub struct F32 {
    /// The IEEE 754 single-precision bit pattern.
    pub bits: u32,
}

impl F32 {
    /// Wraps a raw bit pattern.
    pub fn from_bits(bits: u32) -> (r: F32)
        ensures
            r.bits == bits,
    {
        F32 { bits }
    }

    /// Returns the raw bit pattern.
    pub fn to_bits(self) -> (r: u32)
        ensures
            r == self.bits,
    {
        self.bits
    }

    /// True for a not-a-number pattern: exponent field 255, mantissa non-zero.
    pub fn is_nan(self) -> (r: bool)
        ensures
            r == repr::is_nan_bits(self.bits),
    {
        let e: u32 = (self.bits >> 23) & 0xFF;
        let m: u32 = self.bits & repr::MANTISSA_MASK;
        e == 255 && m != 0
    }

    /// True for `+infinity` and `-infinity`.
    pub fn is_infinite(self) -> (r: bool)
        ensures
            r == repr::is_inf_bits(self.bits),
    {
        let e: u32 = (self.bits >> 23) & 0xFF;
        let m: u32 = self.bits & repr::MANTISSA_MASK;
        e == 255 && m == 0
    }

    /// True for every pattern whose exponent field is below 255.
    pub fn is_finite(self) -> (r: bool)
        ensures
            r == repr::is_finite_bits(self.bits),
    {
        let e: u32 = (self.bits >> 23) & 0xFF;
        e != 255
    }

    /// True when the sign bit is clear; not-a-number patterns included.
    pub fn is_sign_positive(self) -> (r: bool)
        ensures
            r == (repr::sign_of(self.bits) == 0),
    {
        self.bits >> 31 == 0
    }

    /// True when the sign bit is set; not-a-number patterns included.
    pub fn is_sign_negative(self) -> (r: bool)
        ensures
            r == (repr::sign_of(self.bits) == 1),
    {
        let s: u32 = self.bits >> 31;
        s == 1
    }
}

} // verus!
