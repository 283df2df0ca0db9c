//! Largest whole value not above the argument.

use super::repr;
use super::trunc::lemma_trunc_model;
use super::F32;
use vstd::arithmetic::div_mod::{
    lemma_basic_div, lemma_div_by_multiple, lemma_div_multiples_vanish_quotient,
    lemma_fundamental_div_mod, lemma_fundamental_div_mod_converse,
};
use vstd::arithmetic::mul::{lemma_mul_is_commutative, lemma_mul_is_distributive_add_other_way};
use vstd::arithmetic::power2::{
    lemma2_to64, lemma_pow2_adds, lemma_pow2_pos, lemma_pow2_strictly_increases, pow2,
};
use vstd::bits::{lemma_u32_low_bits_mask_is_mod, lemma_u32_shl_is_mul, lemma_u32_shr_is_div,
    low_bits_mask};
use vstd::prelude::*;

verus! {

/// Rounding down to a multiple of `2^150` brackets the value: the result
/// is not above it and lies less than one whole unit below it.
pub proof fn lemma_floor_brackets(v: int)
    ensures
        (v / pow2(150) as int) * pow2(150) <= v,
        v < (v / pow2(150) as int) * pow2(150) + pow2(150),
{
    lemma_pow2_pos(150);
    let u = pow2(150) as int;
    lemma_fundamental_div_mod(v, u);
    vstd::arithmetic::div_mod::lemma_mod_bound(v, u);
    vstd::arithmetic::mul::lemma_mul_is_commutative(u, v / u);
}

impl F32 {
    /// The largest whole value not above `self`, sign preserved; exact.  On
    /// the `2^150` scale the signed value is rounded down to a multiple of
    /// `2^150`.  A non-finite pattern propagates.
    pub fn floor(self) -> (r: F32)
        ensures
            !repr::is_finite_bits(self.bits) ==> r == self,
            repr::sign_of(r.bits) == repr::sign_of(self.bits),
            repr::is_finite_bits(self.bits) ==> repr::is_finite_bits(r.bits),
            repr::is_finite_bits(self.bits) ==> repr::val150(r.bits) == (repr::val150(self.bits)
                / pow2(150) as int) * pow2(150),
    {
        let b = self.bits;
        proof {
            lemma_pow2_pos(150);
            repr::lemma_fields(b);
        }
        if !self.is_finite() {
            return self;
        }
        if self.sign_bit() == 0 {
            let t = self.trunc();
            proof {
                assert(repr::val150(t.bits) == repr::mag150(t.bits));
                assert(repr::val150(b) == repr::mag150(b));
            }
            return t;
        }
        let e: i32 = self.exponent_value();
        if e >= 23 {
            proof {
                lemma_trunc_model(b);
                lemma_fundamental_div_mod(repr::mag150(b) as int, pow2(150) as int);
                vstd::arithmetic::mul::lemma_mul_is_commutative(
                    pow2(150) as int,
                    repr::mag150(b) as int / pow2(150) as int,
                );
                self.lemma_floor_of_multiple();
            }
            return self;
        }
        let fraction_zero: bool = if e < 0 {
            (b & 0x7FFF_FFFF) == 0
        } else {
            ((b << (e as u32)) & repr::MANTISSA_MASK) == 0
        };
        proof {
            let ee = repr::exp_of(b) as nat;
            if e >= 0 {
                let k = (150 - ee) as nat;
                lemma2_to64();
                vstd::bits::lemma_u32_pow2_no_overflow(k);
                if k < 23 {
                    lemma_pow2_strictly_increases(k, 23);
                }
                let mk2: u32 = (low_bits_mask(k) as u32);
                let eu: u32 = e as u32;
                let sh2: u32 = (23 - eu) as u32;
                lemma_u32_low_bits_mask_is_mod(b & 0x007F_FFFF, k);
                lemma_u32_shl_is_mul(1u32, sh2);
                assert((((b << eu) & 0x007F_FFFF) == 0) == (((b & 0x007F_FFFF) & mk2) == 0))
                    by (bit_vector)
                    requires
                        mk2 + 1 == (1u32 << sh2),
                        eu <= 22,
                        sh2 == 23 - eu,
                ;
                repr::lemma_mag150_mod(b);
                if (b & 0x007F_FFFF) & mk2 == 0 {
                    vstd::arithmetic::mul::lemma_mul_basics(pow2(ee) as int);
                } else {
                    assert(repr::mag150(b) % pow2(150) > 0) by {
                        lemma_pow2_pos(k);
                        lemma_pow2_pos(ee);
                        vstd::arithmetic::div_mod::lemma_mod_pos_bound(
                            repr::frac_of(b) as int,
                            pow2(k) as int,
                        );
                        vstd::arithmetic::mul::lemma_mul_strictly_positive(
                            pow2(ee) as int,
                            repr::frac_of(b) as int % pow2(k) as int,
                        );
                    }
                }
            } else {
                repr::lemma_mag150_zero(b);
                assert(((b & 0x7FFF_FFFF) == 0) == (b == 0 || b == 0x8000_0000u32)) by (bit_vector);
                repr::lemma_mag150_bound(b);
                if repr::exp_of(b) + 24 < 150 {
                    lemma_pow2_strictly_increases((repr::exp_of(b) + 24) as nat, 150);
                }
            }
        }
        if fraction_zero {
            proof {
                self.lemma_floor_of_multiple();
            }
            return self;
        }
        let q: u32 = if e < 0 {
            0
        } else {
            let sig: u32 = 0x0080_0000 | (b & repr::MANTISSA_MASK);
            let sh: u32 = (23 - e) as u32;
            proof {
                let ee = repr::exp_of(b) as nat;
                let k = (150 - ee) as nat;
                assert((0x0080_0000u32 | (b & 0x007F_FFFF)) == 0x0080_0000 + (b & 0x007F_FFFF))
                    by (bit_vector);
                assert(1 <= sh <= 23 ==> ((0x0080_0000u32 | (b & 0x007F_FFFF)) >> sh)
                    <= 0x007F_FFFF) by (bit_vector);
                lemma_u32_shr_is_div(sig, sh);
                repr::lemma_mag150_mod(b);
                lemma_pow2_pos(ee);
                lemma_pow2_pos(k);
                lemma_div_multiples_vanish_quotient(
                    pow2(ee) as int,
                    0x0080_0000 + repr::frac_of(b) as int,
                    pow2(k) as int,
                );
                lemma_pow2_adds(ee, k);
                assert(repr::mag150(b) as int / pow2(150) as int == sig as int / pow2(k) as int);
            }
            sig >> sh
        };
        proof {
            if e < 0 {
                lemma_basic_div(repr::mag150(b) as int, pow2(150) as int);
                vstd::arithmetic::div_mod::lemma_small_mod(
                    repr::mag150(b),
                    pow2(150),
                );
                repr::lemma_mag150_zero(b);
            }
            assert(q == repr::mag150(b) as nat / pow2(150));
        }
        let rp = F32::from_small_int(q + 1);
        let r = F32 { bits: rp.bits | repr::SIGN_MASK };
        proof {
            let p = rp.bits;
            assert((p | 0x8000_0000) >> 31 == 1 && ((p | 0x8000_0000) >> 23) & 0xFF == (p >> 23)
                & 0xFF && (p | 0x8000_0000) & 0x007F_FFFF == p & 0x007F_FFFF) by (bit_vector)
                requires
                    p >> 31 == 0,
            ;
            assert(repr::mag150(r.bits) == (q + 1) * pow2(150));
            // the value sits strictly between two multiples of 2^150, so
            // flooring the negative value lands one whole step below
            let mag = repr::mag150(b) as int;
            let u = pow2(150) as int;
            lemma_fundamental_div_mod(mag, u);
            vstd::arithmetic::div_mod::lemma_mod_pos_bound(mag, u);
            let rem = mag % u;
            assert(rem > 0);
            assert(((q as int) + 1) * u == (q as int) * u + u) by {
                lemma_mul_is_distributive_add_other_way(u, q as int, 1);
                vstd::arithmetic::mul::lemma_mul_basics(u);
            }
            vstd::arithmetic::mul::lemma_mul_unary_negation((q as int) + 1, u);
            lemma_mul_is_commutative(u, q as int);
            assert(-mag == (-((q as int) + 1)) * u + (u - rem));
            lemma_fundamental_div_mod_converse(-mag, u, -((q as int) + 1), u - rem);
            assert(repr::val150(r.bits) == -(((q as int) + 1) * u));
        }
        r
    }

    /// When the scaled magnitude is a multiple of `2^150`, the value itself
    /// is its own rounding, whatever the sign.
    proof fn lemma_floor_of_multiple(self)
        requires
            repr::is_finite_bits(self.bits),
            repr::mag150(self.bits) % pow2(150) == 0,
        ensures
            repr::val150(self.bits) == (repr::val150(self.bits) / pow2(150) as int) * pow2(150),
    {
        let mag = repr::mag150(self.bits) as int;
        let u = pow2(150) as int;
        lemma_pow2_pos(150);
        lemma_fundamental_div_mod(mag, u);
        let q = mag / u;
        assert(mag == u * q + 0);
        if repr::sign_of(self.bits) == 1 {
            assert(-mag == (-q) * u + 0) by {
                lemma_mul_is_commutative(u, q);
                vstd::arithmetic::mul::lemma_mul_unary_negation(q, u);
            }
            lemma_fundamental_div_mod_converse(-mag, u, -q, 0);
            assert(repr::val150(self.bits) / u == -q);
            vstd::arithmetic::mul::lemma_mul_is_commutative(-q, u);
        } else {
            lemma_div_by_multiple(q, u);
            vstd::arithmetic::mul::lemma_mul_is_commutative(u, q);
        }
    }
}

} // verus!
