//! Rounding to the nearest whole value, ties away from zero.

use super::repr;
use super::trunc::lemma_trunc_model;
use super::F32;
use vstd::arithmetic::div_mod::{
    lemma_basic_div, lemma_div_multiples_vanish_quotient, lemma_fundamental_div_mod,
    lemma_fundamental_div_mod_converse,
};
use vstd::arithmetic::mul::{
    lemma_mul_inequality, lemma_mul_is_commutative, lemma_mul_strict_inequality,
};
use vstd::arithmetic::power2::{
    lemma2_to64, lemma_pow2_adds, lemma_pow2_pos, lemma_pow2_strictly_increases, pow2,
};
use vstd::bits::{
    lemma_u32_low_bits_mask_is_mod, lemma_u32_pow2_no_overflow, lemma_u32_shl_is_mul,
    lemma_u32_shr_is_div, low_bits_mask,
};
use vstd::prelude::*;

verus! {

/// Rounding moves a magnitude by at most half a unit: on the `2^150` scale
/// the rounded magnitude differs from the original by at most `2^149`, and
/// a tie is resolved upward, away from zero.
pub proof fn lemma_round_within_half(mag: nat)
    ensures
        -(pow2(149) as int) < ((mag + pow2(149)) / pow2(150)) * pow2(150) - mag <= pow2(149),
{
    lemma_pow2_pos(150);
    lemma_pow2_pos(149);
    lemma_pow2_adds(149, 1);
    lemma2_to64();
    let u = pow2(150) as int;
    let half = pow2(149) as int;
    let s = mag + half;
    lemma_fundamental_div_mod(s, u);
    vstd::arithmetic::div_mod::lemma_mod_pos_bound(s, u);
    assert((s / u) * u == s - s % u) by {
        lemma_mul_is_commutative(u, s / u);
    }
}

impl F32 {
    /// The nearest whole value, a half magnitude rounding away from zero;
    /// sign preserved; exact.  On the `2^150` scale the magnitude is moved
    /// up by `2^149` and rounded down to a multiple of `2^150`.  A
    /// non-finite pattern propagates.
    pub fn round(self) -> (r: F32)
        ensures
            !repr::is_finite_bits(self.bits) ==> r == self,
            repr::sign_of(r.bits) == repr::sign_of(self.bits),
            repr::is_finite_bits(self.bits) ==> repr::is_finite_bits(r.bits),
            repr::is_finite_bits(self.bits) ==> repr::mag150(r.bits) == ((repr::mag150(self.bits)
                + pow2(149)) / pow2(150)) * pow2(150),
    {
        let b = self.bits;
        proof {
            lemma_pow2_pos(150);
            lemma_pow2_pos(149);
            lemma_pow2_adds(149, 1);
            lemma2_to64();
            repr::lemma_fields(b);
        }
        if !self.is_finite() {
            return self;
        }
        let e: i32 = self.exponent_value();
        if e >= 23 {
            proof {
                lemma_trunc_model(b);
                lemma_fundamental_div_mod(repr::mag150(b) as int, pow2(150) as int);
                vstd::arithmetic::mul::lemma_mul_is_commutative(
                    pow2(150) as int,
                    repr::mag150(b) as int / pow2(150) as int,
                );
                let u = pow2(150) as int;
                let qq = repr::mag150(b) as int / u;
                lemma_fundamental_div_mod_converse(
                    repr::mag150(b) as int + pow2(149) as int,
                    u,
                    qq,
                    pow2(149) as int,
                );
            }
            return self;
        }
        let q: u32 = if e < 0 {
            0
        } else {
            let sig: u32 = 0x0080_0000 | (b & repr::MANTISSA_MASK);
            let sh: u32 = (23 - e) as u32;
            proof {
                let ee = repr::exp_of(b) as nat;
                let k = (150 - ee) as nat;
                assert((0x0080_0000u32 | (b & 0x007F_FFFF)) == 0x0080_0000 + (b & 0x007F_FFFF))
                    by (bit_vector);
                assert(1 <= sh <= 23 ==> ((0x0080_0000u32 | (b & 0x007F_FFFF)) >> sh)
                    <= 0x007F_FFFF) by (bit_vector);
                lemma_u32_shr_is_div(sig, sh);
                repr::lemma_mag150_mod(b);
                lemma_pow2_pos(ee);
                lemma_pow2_pos(k);
                lemma_div_multiples_vanish_quotient(
                    pow2(ee) as int,
                    0x0080_0000 + repr::frac_of(b) as int,
                    pow2(k) as int,
                );
                lemma_pow2_adds(ee, k);
                assert(repr::mag150(b) as int / pow2(150) as int == sig as int / pow2(k) as int);
            }
            sig >> sh
        };
        let half_up: bool = if e < 0 {
            e == -1
        } else {
            (b >> ((22 - e) as u32)) & 1 == 1
        };
        proof {
            let ee = repr::exp_of(b) as nat;
            let mag = repr::mag150(b) as int;
            let u = pow2(150) as int;
            let half = pow2(149) as int;
            if e >= 0 {
                let k = (150 - ee) as nat;
                let kk: u32 = (150 - ee) as u32;
                let km: u32 = (kk - 1) as u32;
                lemma_u32_pow2_no_overflow(k);
                if k < 23 {
                    lemma_pow2_strictly_increases(k, 23);
                }
                let mk2: u32 = (low_bits_mask(k) as u32);
                let mq: u32 = (b & 0x007F_FFFF) & mk2;
                lemma_u32_low_bits_mask_is_mod(b & 0x007F_FFFF, k);
                lemma_u32_shl_is_mul(1u32, kk);
                lemma_u32_shl_is_mul(1u32, km);
                // the tested bit is the top fractional mantissa bit
                assert(((b >> km) & 1) == (mq >> km)) by (bit_vector)
                    requires
                        mq == (b & 0x007F_FFFF) & mk2,
                        mk2 + 1 == (1u32 << kk),
                        1 <= kk <= 23,
                        km == kk - 1,
                ;
                assert(((mq >> km) == 1) == (mq >= (1u32 << km))) by (bit_vector)
                    requires
                        mq <= mk2,
                        mk2 + 1 == (1u32 << kk),
                        1 <= kk <= 23,
                        km == kk - 1,
                ;
                assert(mq <= mk2) by (bit_vector)
                    requires
                        mq == (b & 0x007F_FFFF) & mk2,
                ;
                // a fractional part of at least one half is exactly the bit
                // with weight 2^(k-1) of the mantissa remainder
                repr::lemma_mag150_mod(b);
                let rem = mag % u;
                lemma_pow2_pos(ee);
                lemma_pow2_pos((k - 1) as nat);
                lemma_pow2_adds(ee, (k - 1) as nat);
                assert(ee + (k - 1) == 149);
                if mq >= (1u32 << km) {
                    lemma_mul_inequality(pow2((k - 1) as nat) as int, mq as int, pow2(ee) as int);
                    lemma_mul_is_commutative(pow2((k - 1) as nat) as int, pow2(ee) as int);
                    lemma_mul_is_commutative(mq as int, pow2(ee) as int);
                    assert(rem >= half);
                } else {
                    lemma_mul_strict_inequality(
                        mq as int,
                        pow2((k - 1) as nat) as int,
                        pow2(ee) as int,
                    );
                    lemma_mul_is_commutative(pow2((k - 1) as nat) as int, pow2(ee) as int);
                    lemma_mul_is_commutative(mq as int, pow2(ee) as int);
                    assert(rem < half);
                }
                assert(half_up == (rem >= half));
                lemma_fundamental_div_mod(mag, u);
                vstd::arithmetic::div_mod::lemma_mod_pos_bound(mag, u);
                lemma_mul_is_commutative(u, q as int);
                if rem >= half {
                    assert(mag + half == ((q as int) + 1) * u + (rem + half - u)) by {
                        vstd::arithmetic::mul::lemma_mul_is_distributive_add_other_way(
                            u,
                            q as int,
                            1,
                        );
                        vstd::arithmetic::mul::lemma_mul_basics(u);
                    }
                    lemma_fundamental_div_mod_converse(
                        mag + half,
                        u,
                        (q as int) + 1,
                        rem + half - u,
                    );
                } else {
                    lemma_fundamental_div_mod_converse(mag + half, u, q as int, rem + half);
                }
            } else {
                repr::lemma_mag150_bound(b);
                if ee == 126 {
                    // at least one half: the significand carries 2^149
                    lemma_pow2_adds(23, 126);
                    lemma_pow2_pos(126);
                    lemma_mul_inequality(
                        0x0080_0000,
                        0x0080_0000 + repr::frac_of(b) as int,
                        pow2(126) as int,
                    );
                    lemma_mul_is_commutative(
                        0x0080_0000 + repr::frac_of(b) as int,
                        pow2(126) as int,
                    );
                    assert(mag >= half);
                    vstd::arithmetic::mul::lemma_mul_basics(u);
                    lemma_fundamental_div_mod_converse(mag + half, u, 1, mag + half - u);
                } else {
                    // below one half in magnitude
                    if ee + 24 < 149 {
                        lemma_pow2_strictly_increases((ee + 24) as nat, 149);
                    }
                    assert(mag < half);
                    lemma_basic_div(mag + half, u);
                }
            }
        }
        let q2: u32 = if half_up {
            q + 1
        } else {
            q
        };
        let rp = F32::from_small_int(q2);
        let r = F32 { bits: rp.bits | (b & repr::SIGN_MASK) };
        proof {
            let p = rp.bits;
            assert((p | (b & 0x8000_0000)) >> 31 == b >> 31 && ((p | (b & 0x8000_0000)) >> 23)
                & 0xFF == (p >> 23) & 0xFF && (p | (b & 0x8000_0000)) & 0x007F_FFFF == p
                & 0x007F_FFFF) by (bit_vector)
                requires
                    p >> 31 == 0,
            ;
        }
        r
    }
}

} // verus!
