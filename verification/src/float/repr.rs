//! The bit-level model of an IEEE 754 single-precision value.
//!
//! A single-precision value is one 32-bit word: 1 sign bit, 8 exponent bits
//! (bias 127) and 23 mantissa bits.  Every finite value is a dyadic rational
//! whose denominator divides `2^150` (the smallest subnormal is `2^-149`),
//! so scaling every magnitude by `2^150` turns the whole finite range into
//! mathematical integers.  The spec functions here decompose a word into its
//! fields and map it to that integer scale; the contracts of the operations
//! are stated over them.

use vstd::arithmetic::power2::pow2;
use vstd::prelude::*;

verus! {

/// Mask of the sign bit.
pub const SIGN_MASK: u32 = 0x8000_0000;

/// Mask of the 8 exponent bits.
pub const EXPONENT_MASK: u32 = 0x7F80_0000;

/// Mask of the 23 mantissa bits.
pub const MANTISSA_MASK: u32 = 0x007F_FFFF;

/// Offset added to the unbiased exponent when it is stored.
pub const EXPONENT_BIAS: u32 = 127;

/// Number of mantissa bits.
pub const MANTISSA_BITS: u32 = 23;

/// Bit pattern of `+0.0`.
pub const ZERO_BITS: u32 = 0x0000_0000;

/// Bit pattern of `-0.0`.
pub const NEG_ZERO_BITS: u32 = 0x8000_0000;

/// Bit pattern of `1.0`.
pub const ONE_BITS: u32 = 0x3F80_0000;

/// Bit pattern of `-1.0`.
pub const NEG_ONE_BITS: u32 = 0xBF80_0000;

/// Bit pattern of `+infinity`.
pub const INFINITY_BITS: u32 = 0x7F80_0000;

/// Bit pattern of `-infinity`.
pub const NEG_INFINITY_BITS: u32 = 0xFF80_0000;

/// Bit pattern of the canonical quiet not-a-number.
pub const NAN_BITS: u32 = 0x7FC0_0000;

/// The sign bit, `0` or `1`.
pub open spec fn sign_of(b: u32) -> u32 {
    b >> 31
}

/// The biased exponent field, `0` to `255`.
pub open spec fn exp_of(b: u32) -> u32 {
    (b >> 23) & 0xFF
}

/// The mantissa field, `0` to `2^23 - 1`.
pub open spec fn frac_of(b: u32) -> u32 {
    b & MANTISSA_MASK
}

/// A word with exponent field 255 and a non-zero mantissa is not a number.
pub open spec fn is_nan_bits(b: u32) -> bool {
    exp_of(b) == 255 && frac_of(b) != 0
}

/// A word with exponent field 255 and a zero mantissa is an infinity.
pub open spec fn is_inf_bits(b: u32) -> bool {
    exp_of(b) == 255 && frac_of(b) == 0
}

/// Every word whose exponent field is below 255 stands for a finite value.
pub open spec fn is_finite_bits(b: u32) -> bool {
    exp_of(b) != 255
}

/// `+0.0` or `-0.0`.
pub open spec fn is_zero_bits(b: u32) -> bool {
    b == ZERO_BITS || b == NEG_ZERO_BITS
}

/// The magnitude of a finite value, scaled by `2^150`: a normal word stands
/// for `(2^23 + mantissa) * 2^(exponent - 150)` and a subnormal word for
/// `mantissa * 2^(1 - 150)`, so the scaled magnitude is a natural number.
pub open spec fn mag150(b: u32) -> nat {
    if exp_of(b) == 0 {
        (2 * frac_of(b)) as nat
    } else {
        ((0x0080_0000 + frac_of(b)) as nat) * pow2(exp_of(b) as nat)
    }
}

/// The signed value of a finite word, scaled by `2^150`.
pub open spec fn val150(b: u32) -> int {
    if sign_of(b) == 1 {
        -(mag150(b) as int)
    } else {
        mag150(b) as int
    }
}

/// The three fields are bounded and recompose the word.
pub proof fn lemma_fields(b: u32)
    ensures
        sign_of(b) <= 1,
        exp_of(b) <= 255,
        frac_of(b) <= 0x007F_FFFF,
        b == sign_of(b) * 0x8000_0000 + exp_of(b) * 0x0080_0000 + frac_of(b),
{
    assert((b >> 31) <= 1 && ((b >> 23) & 0xFF) <= 255 && (b & 0x007F_FFFF) <= 0x007F_FFFF
        && b == (b >> 31) * 0x8000_0000 + ((b >> 23) & 0xFF) * 0x0080_0000 + (b & 0x007F_FFFF))
        by (bit_vector);
}

/// The scaled magnitude is below `2^(exponent field + 24)`.
pub proof fn lemma_mag150_bound(b: u32)
    ensures
        mag150(b) < pow2((exp_of(b) + 24) as nat),
{
    lemma_fields(b);
    let ee = exp_of(b) as nat;
    vstd::arithmetic::power2::lemma2_to64();
    if ee == 0 {
        assert(mag150(b) < pow2(24));
    } else {
        vstd::arithmetic::power2::lemma_pow2_adds(24, ee);
        vstd::arithmetic::power2::lemma_pow2_pos(ee);
        assert(((0x0080_0000 + frac_of(b)) as int) * (pow2(ee) as int) < (pow2(24) as int) * (pow2(
            ee,
        ) as int)) by {
            vstd::arithmetic::mul::lemma_mul_strict_inequality(
                (0x0080_0000 + frac_of(b)) as int,
                pow2(24) as int,
                pow2(ee) as int,
            );
        }
        vstd::arithmetic::mul::lemma_mul_is_commutative(pow2(24) as int, pow2(ee) as int);
    }
}

/// For an exponent field between 127 and 149 the scaled magnitude splits at
/// `2^150` along the mantissa: the remainder is the fractional mantissa bits
/// carried by the exponent's weight.
pub proof fn lemma_mag150_mod(b: u32)
    requires
        127 <= exp_of(b) < 150,
    ensures
        mag150(b) == pow2(exp_of(b) as nat) * (0x0080_0000 + frac_of(b) as int),
        mag150(b) % pow2(150) == pow2(exp_of(b) as nat) * (frac_of(b) as int % pow2(
            (150 - exp_of(b)) as nat,
        ) as int),
{
    let ee = exp_of(b) as nat;
    let m = frac_of(b) as int;
    let sig = 0x0080_0000 + m;
    let k = (150 - ee) as nat;
    lemma_fields(b);
    vstd::arithmetic::power2::lemma_pow2_adds(ee, k);
    vstd::arithmetic::power2::lemma_pow2_pos(k);
    vstd::arithmetic::power2::lemma_pow2_pos(ee);
    vstd::arithmetic::mul::lemma_mul_is_commutative(sig, pow2(ee) as int);
    vstd::arithmetic::div_mod::lemma_truncate_middle(sig, pow2(ee) as int, pow2(k) as int);
    // the implicit bit 2^23 is a multiple of 2^k, so it drops out of the
    // remainder and only the mantissa is left
    assert(sig % pow2(k) as int == m % pow2(k) as int) by {
        vstd::arithmetic::power2::lemma_pow2_adds(k, (23 - k) as nat);
        vstd::arithmetic::power2::lemma2_to64();
        assert(0x0080_0000 + m == pow2(k) as int * pow2((23 - k) as nat) as int + m);
        vstd::arithmetic::div_mod::lemma_mod_multiples_vanish(
            pow2((23 - k) as nat) as int,
            m,
            pow2(k) as int,
        );
    }
}

/// A smaller exponent field keeps the magnitude strictly below every
/// magnitude with a larger field: the magnitude ranges of the exponents do
/// not overlap.
proof fn lemma_mag150_ranges(b1: u32, b2: u32)
    requires
        is_finite_bits(b1),
        is_finite_bits(b2),
        exp_of(b1) < exp_of(b2),
    ensures
        mag150(b1) < mag150(b2),
{
    lemma_fields(b1);
    lemma_fields(b2);
    let e1 = exp_of(b1) as nat;
    let e2 = exp_of(b2) as nat;
    let sig2 = 0x0080_0000 + frac_of(b2) as int;
    vstd::arithmetic::power2::lemma_pow2_pos(e2);
    vstd::arithmetic::power2::lemma_pow2_adds(23, e2);
    vstd::arithmetic::power2::lemma2_to64();
    assert((pow2(23) as int) * (pow2(e2) as int) <= sig2 * (pow2(e2) as int)) by {
        vstd::arithmetic::mul::lemma_mul_inequality(pow2(23) as int, sig2, pow2(e2) as int);
    }
    assert(mag150(b2) == sig2 * (pow2(e2) as int));
    lemma_mag150_bound(b1);
    if e1 + 24 < 23 + e2 {
        vstd::arithmetic::power2::lemma_pow2_strictly_increases((e1 + 24) as nat, (23 + e2) as nat);
    }
}

/// A finite value determines its pattern: two finite words with the same
/// sign bit and the same scaled value are the same word.  Together with the
/// operations' contracts this pins each result down to its exact bits.
pub proof fn lemma_value_determines_pattern(b1: u32, b2: u32)
    requires
        is_finite_bits(b1),
        is_finite_bits(b2),
        sign_of(b1) == sign_of(b2),
        val150(b1) == val150(b2),
    ensures
        b1 == b2,
{
    lemma_fields(b1);
    lemma_fields(b2);
    assert(mag150(b1) == mag150(b2));
    if exp_of(b1) < exp_of(b2) {
        lemma_mag150_ranges(b1, b2);
    }
    if exp_of(b2) < exp_of(b1) {
        lemma_mag150_ranges(b2, b1);
    }
    if exp_of(b1) != 0 {
        let p = pow2(exp_of(b1) as nat) as int;
        vstd::arithmetic::power2::lemma_pow2_pos(exp_of(b1) as nat);
        vstd::arithmetic::mul::lemma_mul_is_commutative(0x0080_0000 + frac_of(b1) as int, p);
        vstd::arithmetic::mul::lemma_mul_is_commutative(0x0080_0000 + frac_of(b2) as int, p);
        vstd::arithmetic::mul::lemma_mul_equality_converse(
            p,
            0x0080_0000 + frac_of(b1) as int,
            0x0080_0000 + frac_of(b2) as int,
        );
    }
}

/// Keeping only the sign bit zeroes the exponent and mantissa fields.
pub proof fn lemma_sign_zero_fields(b: u32)
    ensures
        sign_of(b & 0x8000_0000) == sign_of(b),
        exp_of(b & 0x8000_0000) == 0,
        frac_of(b & 0x8000_0000) == 0,
        mag150(b & 0x8000_0000) == 0,
{
    assert((b & 0x8000_0000) >> 31 == b >> 31 && ((b & 0x8000_0000) >> 23) & 0xFF == 0 && (b
        & 0x8000_0000) & 0x007F_FFFF == 0) by (bit_vector);
}

/// A finite word has magnitude zero exactly when it is a signed zero.
pub proof fn lemma_mag150_zero(b: u32)
    ensures
        mag150(b) == 0 <==> exp_of(b) == 0 && frac_of(b) == 0,
        exp_of(b) == 0 && frac_of(b) == 0 <==> b == ZERO_BITS || b == NEG_ZERO_BITS,
{
    if exp_of(b) != 0 {
        vstd::arithmetic::power2::lemma_pow2_pos(exp_of(b) as nat);
        vstd::arithmetic::mul::lemma_mul_strictly_positive(
            (0x0080_0000 + frac_of(b)) as int,
            pow2(exp_of(b) as nat) as int,
        );
    }
    assert(((b >> 23) & 0xFF) == 0 && (b & 0x007F_FFFF) == 0 <==> b == 0 || b == 0x8000_0000u32)
        by (bit_vector);
}

} // verus!
