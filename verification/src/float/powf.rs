//! The sign and parity decision of the power function.

use super::repr;
use super::utils::{is_even_bits, is_integer_bits};
use super::F32;
use vstd::prelude::*;

verus! {

/// How `powf` must treat its base, decided from the base's sign and the
/// exponent's integrality and parity before any approximation runs.
#[derive(Clone, Copy, Debug, PartialEq, Eq, Structural)]
pub enum PowfPlan {
    /// The base is not below zero: compute on the base as it is.
    Direct,
    /// Negative base, whole even exponent: compute on the magnitude of the
    /// base, the signs cancel.
    EvenMagnitude,
    /// Negative base, whole odd exponent: compute on the magnitude of the
    /// base and negate the result.
    OddMagnitude,
    /// Negative base, fractional exponent: the power is not a number.
    Undefined,
}

impl F32 {
    /// Decides how a power with this base and exponent `n` is computed: a
    /// base below zero admits only whole exponents — a fractional exponent
    /// yields not-a-number — and an odd whole exponent carries the base's
    /// sign onto the result.
    pub fn powf_plan(self, n: F32) -> (r: PowfPlan)
        ensures
            !(repr::sign_of(self.bits) == 1 && !repr::is_nan_bits(self.bits) && self.bits
                != repr::NEG_ZERO_BITS) ==> r == PowfPlan::Direct,
            repr::sign_of(self.bits) == 1 && !repr::is_nan_bits(self.bits) && self.bits
                != repr::NEG_ZERO_BITS && !is_integer_bits(n.bits) ==> r == PowfPlan::Undefined,
            repr::sign_of(self.bits) == 1 && !repr::is_nan_bits(self.bits) && self.bits
                != repr::NEG_ZERO_BITS && is_integer_bits(n.bits) && is_even_bits(n.bits) ==> r
                == PowfPlan::EvenMagnitude,
            repr::sign_of(self.bits) == 1 && !repr::is_nan_bits(self.bits) && self.bits
                != repr::NEG_ZERO_BITS && is_integer_bits(n.bits) && !is_even_bits(n.bits) ==> r
                == PowfPlan::OddMagnitude,
    {
        let negative: bool = self.is_sign_negative() && !self.is_nan() && self.bits
            != repr::NEG_ZERO_BITS;
        if !negative {
            return PowfPlan::Direct;
        }
        if !n.is_integer() {
            return PowfPlan::Undefined;
        }
        if n.is_even() {
            return PowfPlan::EvenMagnitude;
        }
        PowfPlan::OddMagnitude
    }
}

} // verus!
