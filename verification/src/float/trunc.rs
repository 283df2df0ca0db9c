//! Whole-number part, by masking the fractional mantissa bits.

use super::repr;
use super::F32;
use vstd::arithmetic::div_mod::{lemma_basic_div, lemma_fundamental_div_mod};
use vstd::arithmetic::power2::{lemma2_to64, lemma_pow2_pos, lemma_pow2_strictly_increases, pow2};
use vstd::bits::{lemma_u32_pow2_no_overflow, lemma_u32_shl_is_mul, low_bits_mask};
use vstd::prelude::*;

verus! {

/// The pattern of the whole-number part of `b`: a magnitude below one
/// truncates to a signed zero, a pattern without fractional bits (unbiased
/// exponent 23 and up, infinities and not-a-numbers included) is kept, and
/// otherwise the fractional mantissa bits are cleared.
pub open spec fn trunc_bits(b: u32) -> u32 {
    if repr::exp_of(b) < 127 {
        b & 0x8000_0000
    } else if repr::exp_of(b) >= 150 {
        b
    } else {
        b & !(low_bits_mask((150 - repr::exp_of(b)) as nat) as u32)
    }
}

/// Truncation is exact on the `2^150` scale: the sign is kept and the
/// magnitude is rounded down to a multiple of `2^150`.
pub proof fn lemma_trunc_model(b: u32)
    ensures
        repr::sign_of(trunc_bits(b)) == repr::sign_of(b),
        repr::is_finite_bits(b) ==> repr::is_finite_bits(trunc_bits(b)),
        repr::is_finite_bits(b) ==> repr::mag150(trunc_bits(b)) == (repr::mag150(b) / pow2(150))
            * pow2(150),
        repr::exp_of(b) >= 150 ==> trunc_bits(b) == b,
{
    lemma_pow2_pos(150);
    let ee = repr::exp_of(b) as nat;
    if ee < 127 {
        repr::lemma_sign_zero_fields(b);
        repr::lemma_mag150_bound(b);
        if ee + 24 < 150 {
            lemma_pow2_strictly_increases((ee + 24) as nat, 150);
        }
        lemma_basic_div(repr::mag150(b) as int, pow2(150) as int);
        vstd::arithmetic::mul::lemma_mul_basics(pow2(150) as int);
        assert(repr::mag150(trunc_bits(b)) == 0);
    } else if ee >= 150 {
        if repr::is_finite_bits(b) {
            lemma_divisible_by_unit(b);
        }
    } else {
        let m = repr::frac_of(b) as int;
        let sig = 0x0080_0000 + m;
        let k = (150 - ee) as nat;
        lemma2_to64();
        lemma_u32_pow2_no_overflow(k);
        if k < 23 {
            lemma_pow2_strictly_increases(k, 23);
        }
        let mk: u32 = (low_bits_mask(k) as u32);
        let r = b & !mk;
        assert((b & !mk) >> 31 == b >> 31 && ((b & !mk) >> 23) & 0xFF == (b >> 23) & 0xFF)
            by (bit_vector)
            requires
                mk <= 0x007F_FFFF,
        ;
        assert((b & !mk) & 0x007F_FFFF == (b & 0x007F_FFFF) - ((b & 0x007F_FFFF) & mk))
            by (bit_vector);
        vstd::bits::lemma_u32_low_bits_mask_is_mod(b & 0x007F_FFFF, k);
        assert(repr::frac_of(r) == m - m % pow2(k) as int);
        repr::lemma_mag150_mod(b);
        lemma_fundamental_div_mod(repr::mag150(b) as int, pow2(150) as int);
        assert(repr::mag150(r) == pow2(ee) * (sig - m % pow2(k) as int)) by {
            vstd::arithmetic::mul::lemma_mul_is_commutative(
                sig - m % pow2(k) as int,
                pow2(ee) as int,
            );
        }
        assert(pow2(ee) * (sig - m % pow2(k) as int) == pow2(ee) * sig - pow2(ee) * (m % pow2(
            k,
        ) as int)) by {
            vstd::arithmetic::mul::lemma_mul_is_distributive_sub(
                pow2(ee) as int,
                sig,
                m % pow2(k) as int,
            );
        }
        assert(repr::mag150(r) == repr::mag150(b) - repr::mag150(b) % pow2(150));
        assert((repr::mag150(b) / pow2(150)) * pow2(150) == repr::mag150(b) - repr::mag150(b)
            % pow2(150)) by {
            vstd::arithmetic::mul::lemma_mul_is_commutative(
                pow2(150) as int,
                repr::mag150(b) as int / pow2(150) as int,
            );
        }
    }
}

/// Truncation is idempotent: a whole-number pattern truncates to itself.
pub proof fn lemma_trunc_idempotent(b: u32)
    ensures
        trunc_bits(trunc_bits(b)) == trunc_bits(b),
{
    let ee = repr::exp_of(b) as nat;
    if ee < 127 {
        repr::lemma_sign_zero_fields(b);
        assert((b & 0x8000_0000) & 0x8000_0000 == b & 0x8000_0000) by (bit_vector);
    } else if ee < 150 {
        let k = (150 - ee) as nat;
        lemma2_to64();
        lemma_u32_pow2_no_overflow(k);
        if k < 23 {
            lemma_pow2_strictly_increases(k, 23);
        }
        let mk: u32 = (low_bits_mask(k) as u32);
        assert(mk <= 0x007F_FFFF ==> (((b & !mk) >> 23) & 0xFF == (b >> 23) & 0xFF && ((b & !mk)
            & !mk) == (b & !mk))) by (bit_vector);
    }
}

/// For a finite pattern whose exponent field is at least 150 the scaled
/// magnitude is a multiple of `2^150`.
proof fn lemma_divisible_by_unit(b: u32)
    requires
        repr::is_finite_bits(b),
        repr::exp_of(b) >= 150,
    ensures
        (repr::mag150(b) / pow2(150)) * pow2(150) == repr::mag150(b),
{
    let ee = repr::exp_of(b) as nat;
    let sig = 0x0080_0000 + repr::frac_of(b) as int;
    vstd::arithmetic::power2::lemma_pow2_adds((ee - 150) as nat, 150);
    lemma_pow2_pos((ee - 150) as nat);
    lemma_pow2_pos(150);
    let p = pow2((ee - 150) as nat) as int;
    let q = pow2(150) as int;
    assert(sig * (p * q) == (sig * p) * q) by {
        vstd::arithmetic::mul::lemma_mul_is_associative(sig, p, q);
    }
    assert(repr::mag150(b) == (sig * p) * q);
    vstd::arithmetic::div_mod::lemma_div_by_multiple(sig * p, q);
    assert(repr::mag150(b) as int / q == sig * p);
}

impl F32 {
    /// The whole-number part of `self`, sign preserved; exact.  On the
    /// `2^150` scale the magnitude is rounded down to a multiple of `2^150`,
    /// which is truncation toward zero.
    pub fn trunc(self) -> (r: F32)
        ensures
            r.bits == trunc_bits(self.bits),
            repr::sign_of(r.bits) == repr::sign_of(self.bits),
            repr::is_finite_bits(self.bits) ==> repr::is_finite_bits(r.bits),
            repr::is_finite_bits(self.bits) ==> repr::mag150(r.bits) == (repr::mag150(self.bits)
                / pow2(150)) * pow2(150),
            repr::exp_of(self.bits) >= 150 ==> r.bits == self.bits,
    {
        proof {
            lemma_trunc_model(self.bits);
        }
        let e: i32 = self.exponent_value();
        if e < 0 {
            return F32 { bits: self.bits & repr::SIGN_MASK };
        }
        if e >= 23 {
            return self;
        }
        let shift: u32 = (23 - e) as u32;
        proof {
            lemma_u32_pow2_no_overflow(shift as nat);
            lemma_u32_shl_is_mul(1u32, shift);
        }
        let mask_low: u32 = (1u32 << shift) - 1;
        let r = F32 { bits: self.bits & !mask_low };
        proof {
            assert(mask_low == low_bits_mask((150 - repr::exp_of(self.bits)) as nat) as u32);
        }
        r
    }
}

} // verus!
