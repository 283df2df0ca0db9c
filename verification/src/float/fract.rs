//! Fractional part, extracted from the mantissa and renormalized.

use super::encode::highest_bit;
use super::repr;
use super::trunc::{lemma_trunc_model, trunc_bits};
use super::F32;
use vstd::arithmetic::div_mod::{lemma_basic_div, lemma_fundamental_div_mod};
use vstd::arithmetic::mul::{
    lemma_mul_is_associative, lemma_mul_is_commutative, lemma_mul_strict_inequality,
};
use vstd::arithmetic::power2::{
    lemma2_to64, lemma_pow2_adds, lemma_pow2_pos, lemma_pow2_strictly_increases, pow2,
};
use vstd::bits::{
    lemma_u32_low_bits_mask_is_mod, lemma_u32_pow2_no_overflow, lemma_u32_shl_is_mul,
    low_bits_mask,
};
use vstd::prelude::*;

verus! {

impl F32 {
    /// The fractional part of `self`, sign preserved; exact.  On the `2^150`
    /// scale the magnitude is reduced modulo `2^150`, which leaves exactly
    /// what truncation removes: together with [`trunc_bits`] the magnitude
    /// decomposes as whole part plus fractional part.  A magnitude below one
    /// is returned unchanged, an integral magnitude yields a signed zero,
    /// and a non-finite pattern propagates.
    pub fn fract(self) -> (r: F32)
        ensures
            repr::sign_of(r.bits) == repr::sign_of(self.bits),
            repr::exp_of(self.bits) < 127 ==> r == self,
            !repr::is_finite_bits(self.bits) ==> r == self,
            repr::is_finite_bits(self.bits) && repr::exp_of(self.bits) >= 127 ==> repr::is_finite_bits(
                r.bits,
            ) && repr::mag150(r.bits) == repr::mag150(self.bits) % pow2(150),
            repr::is_finite_bits(self.bits) ==> repr::mag150(trunc_bits(self.bits)) + repr::mag150(
                r.bits,
            ) == repr::mag150(self.bits),
    {
        let e: i32 = self.exponent_value();
        let b = self.bits;
        proof {
            lemma_pow2_pos(150);
            lemma_trunc_model(b);
            lemma_fundamental_div_mod(repr::mag150(b) as int, pow2(150) as int);
            vstd::arithmetic::mul::lemma_mul_is_commutative(
                pow2(150) as int,
                repr::mag150(b) as int / pow2(150) as int,
            );
        }
        if e < 0 {
            proof {
                repr::lemma_mag150_bound(b);
                if repr::exp_of(b) + 24 < 150 {
                    lemma_pow2_strictly_increases((repr::exp_of(b) + 24) as nat, 150);
                }
                lemma_basic_div(repr::mag150(b) as int, pow2(150) as int);
                vstd::arithmetic::mul::lemma_mul_basics(pow2(150) as int);
            }
            return self;
        }
        if e >= 23 {
            if !self.is_finite() {
                return self;
            }
            let r = F32 { bits: b & repr::SIGN_MASK };
            proof {
                repr::lemma_sign_zero_fields(b);
            }
            return r;
        }
        let eu: u32 = e as u32;
        let frac23: u32 = (b << eu) & repr::MANTISSA_MASK;
        proof {
            let ee = repr::exp_of(b) as nat;
            let k = (150 - ee) as nat;
            let sh2: u32 = (23 - eu) as u32;
            lemma2_to64();
            lemma_u32_pow2_no_overflow(k);
            if k < 23 {
                lemma_pow2_strictly_increases(k, 23);
            }
            let mk2: u32 = (low_bits_mask(k) as u32);
            let mq: u32 = (b & 0x007F_FFFF) & mk2;
            lemma_u32_low_bits_mask_is_mod(b & 0x007F_FFFF, k);
            lemma_u32_shl_is_mul(1u32, sh2);
            assert(frac23 == (mq << eu)) by (bit_vector)
                requires
                    frac23 == (b << eu) & 0x007F_FFFF,
                    mq == (b & 0x007F_FFFF) & mk2,
                    mk2 + 1 == (1u32 << sh2),
                    eu <= 22,
                    sh2 == 23 - eu,
            ;
            assert(mq <= mk2) by (bit_vector)
                requires
                    mq == (b & 0x007F_FFFF) & mk2,
            ;
            lemma_u32_pow2_no_overflow(eu as nat);
            assert((mq as int) * (pow2(eu as nat) as int) < (pow2(k) as int) * (pow2(
                eu as nat,
            ) as int)) by {
                lemma_pow2_pos(eu as nat);
                lemma_mul_strict_inequality(
                    mq as int,
                    pow2(k) as int,
                    pow2(eu as nat) as int,
                );
            }
            lemma_pow2_adds(k, eu as nat);
            lemma_u32_shl_is_mul(mq, eu);
            assert(frac23 == (mq as int) * (pow2(eu as nat) as int));
            // the fractional mantissa bits, aligned to carry weight 2^127
            repr::lemma_mag150_mod(b);
            assert(repr::mag150(b) % pow2(150) == (frac23 as int) * (pow2(127) as int)) by {
                lemma_pow2_adds(eu as nat, 127);
                lemma_mul_is_commutative(pow2(ee) as int, mq as int);
                lemma_mul_is_associative(mq as int, pow2(eu as nat) as int, pow2(127) as int);
            }
        }
        if frac23 == 0 {
            let r = F32 { bits: b & repr::SIGN_MASK };
            proof {
                repr::lemma_sign_zero_fields(b);
                vstd::arithmetic::mul::lemma_mul_basics(pow2(127) as int);
            }
            return r;
        }
        let h: u32 = highest_bit(frac23);
        let shift: u32 = 23 - h;
        let normalized: u32 = (frac23 << shift) & repr::MANTISSA_MASK;
        let new_exponent: u32 = 127 - shift;
        let r = F32 { bits: (b & repr::SIGN_MASK) | (new_exponent << 23) | normalized };
        proof {
            let f23 = frac23;
            let sh = shift;
            let ef = new_exponent;
            let mm = normalized;
            assert((f23 << sh) >= 0x0080_0000 && (f23 << sh) < 0x0100_0000 && ((f23 << sh)
                & 0x007F_FFFF) == (f23 << sh) - 0x0080_0000 && f23 <= (0xFFFF_FFFFu32 >> sh))
                by (bit_vector)
                requires
                    (f23 >> h) == 1,
                    h <= 22,
                    sh == 23 - h,
            ;
            vstd::bits::lemma_u32_mul_pow2_le_max_iff_max_shr(f23, sh, 0xFFFF_FFFFu32);
            assert(((b & 0x8000_0000) | (ef << 23) | mm) >> 31 == b >> 31 && ((((b & 0x8000_0000)
                | (ef << 23) | mm) >> 23) & 0xFF) == ef && (((b & 0x8000_0000) | (ef << 23) | mm)
                & 0x007F_FFFF) == mm) by (bit_vector)
                requires
                    ef <= 255,
                    mm <= 0x007F_FFFF,
            ;
            // the renormalized word carries the same scaled magnitude:
            // (2^23 + mantissa) * 2^exponent == frac23 * 2^127
            assert(repr::mag150(r.bits) == ((f23 << sh) as int) * (pow2(ef as nat) as int));
            lemma_u32_pow2_no_overflow(sh as nat);
            lemma_u32_shl_is_mul(f23, sh);
            assert(repr::mag150(r.bits) == (f23 as int) * (pow2(127) as int)) by {
                lemma_pow2_adds(sh as nat, ef as nat);
                lemma_mul_is_associative(f23 as int, pow2(sh as nat) as int, pow2(ef as nat) as int);
            }
        }
        r
    }
}

} // verus!
