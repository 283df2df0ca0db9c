//! Fast, deterministic approximations of single-precision floating-point
//! operations, built from bit-level manipulation of the IEEE 754
//! representation, together with small fixed-size vector algebra.
//!
//! Every operation works on the 32-bit pattern of a single-precision value
//! (the [`float::F32`] type carries it), and its contract is stated over an
//! exact integer model of that pattern: the sign, exponent and mantissa
//! fields, and the magnitude scaled by `2^150`, under which every finite
//! value is a mathematical integer.

pub mod float;
pub mod vector;

pub use float::F32;
pub use vector::{Component, Vector2d, Vector3d};
