//! Accessors for the sign, exponent and mantissa fields.

use super::repr;
use super::F32;
use vstd::arithmetic::div_mod::lemma_div_by_multiple;
use vstd::arithmetic::power2::{lemma_pow2_adds, lemma_pow2_pos, pow2};
use vstd::bits::{lemma_u32_pow2_no_overflow, lemma_u32_shl_is_mul, lemma_u32_shr_is_div};
use vstd::prelude::*;

verus! {

/// The mantissa-masking integer test at the spec level: no mantissa bit
/// survives below the unit position.  For an exponent field below 127 only
/// the mantissa is inspected, so a power of two below one also counts.
pub open spec fn is_integer_bits(b: u32) -> bool {
    if repr::exp_of(b) < 127 {
        repr::frac_of(b) == 0
    } else if repr::exp_of(b) >= 150 {
        true
    } else {
        repr::frac_of(b) as nat % pow2((150 - repr::exp_of(b)) as nat) == 0
    }
}

/// The evenness test at the spec level: the integer part of the magnitude
/// is even.  Every magnitude with unbiased exponent 31 or above counts as
/// even, and a magnitude below one has integer part zero.
pub open spec fn is_even_bits(b: u32) -> bool {
    if repr::exp_of(b) < 127 {
        true
    } else if repr::exp_of(b) >= 158 {
        true
    } else {
        (repr::mag150(b) / pow2(150)) % 2 == 0
    }
}

impl F32 {
    /// The sign bit: `0` for a clear sign, `1` for a set sign.
    pub fn sign_bit(self) -> (r: u32)
        ensures
            r == repr::sign_of(self.bits),
    {
        self.bits >> 31
    }

    /// The biased exponent field, `0` to `255`.
    pub fn exponent_bits(self) -> (r: u32)
        ensures
            r == repr::exp_of(self.bits),
    {
        (self.bits >> 23) & 0xFF
    }

    /// The mantissa field, `0` to `2^23 - 1`.
    pub fn mantissa_bits(self) -> (r: u32)
        ensures
            r == repr::frac_of(self.bits),
    {
        self.bits & repr::MANTISSA_MASK
    }

    /// The unbiased exponent: the exponent field minus the bias of 127.
    pub fn exponent_value(self) -> (r: i32)
        ensures
            r == repr::exp_of(self.bits) - 127,
            -127 <= r <= 128,
    {
        proof {
            repr::lemma_fields(self.bits);
        }
        let e: u32 = (self.bits >> 23) & 0xFF;
        (e as i32) - 127
    }

    /// The magnitude of `self`: the sign bit cleared, every other bit kept.
    pub fn without_sign(self) -> (r: F32)
        ensures
            r.bits == (self.bits & 0x7FFF_FFFF),
            repr::sign_of(r.bits) == 0,
            repr::exp_of(r.bits) == repr::exp_of(self.bits),
            repr::frac_of(r.bits) == repr::frac_of(self.bits),
            repr::mag150(r.bits) == repr::mag150(self.bits),
    {
        self.abs()
    }

    /// Replaces the exponent field with `exponent + 127`, keeping sign and
    /// mantissa.  The caller must keep `exponent` within the storable range;
    /// `128` yields the exponent field 255 of an infinity or not-a-number.
    pub fn set_exponent(self, exponent: i32) -> (r: F32)
        requires
            -127 <= exponent <= 128,
        ensures
            repr::sign_of(r.bits) == repr::sign_of(self.bits),
            repr::exp_of(r.bits) == exponent + 127,
            repr::frac_of(r.bits) == repr::frac_of(self.bits),
    {
        let without_exponent: u32 = self.bits & !repr::EXPONENT_MASK;
        let field: u32 = (exponent + 127) as u32;
        let only_exponent: u32 = field << 23;
        let r = F32 { bits: without_exponent | only_exponent };
        proof {
            let b = self.bits;
            let f = field;
            assert(f <= 255 ==> ((b & !0x7F80_0000) | (f << 23)) >> 31 == b >> 31 && ((((b
                & !0x7F80_0000) | (f << 23)) >> 23) & 0xFF) == f && (((b & !0x7F80_0000) | (f
                << 23)) & 0x007F_FFFF) == (b & 0x007F_FFFF)) by (bit_vector);
        }
        r
    }

    /// True when the pattern stands for a mathematical integer, as seen by
    /// the mantissa-masking method: no mantissa bit survives below the unit
    /// position.  For an exponent field below 127 only the mantissa is
    /// inspected, so a power of two below one also counts; callers that care
    /// filter non-finite patterns first.
    pub fn is_integer(&self) -> (r: bool)
        ensures
            r == is_integer_bits(self.bits),
            127 <= repr::exp_of(self.bits) < 255 ==> r == (repr::mag150(self.bits) % pow2(150)
                == 0),
    {
        let e: i32 = self.exponent_value();
        let r: bool = if e < 0 {
            let m: u32 = self.bits & repr::MANTISSA_MASK;
            m == 0
        } else if e >= 24 {
            true
        } else {
            let fractional_part: u32 = (self.bits << (e as u32)) & repr::MANTISSA_MASK;
            fractional_part == 0
        };
        proof {
            let b = self.bits;
            let ee = repr::exp_of(b);
            if 127 <= ee < 150 {
                let s: u32 = (150 - ee) as u32;
                assert(1 <= s <= 23);
                lemma_u32_pow2_no_overflow(s as nat);
                lemma_u32_shl_is_mul(1u32, s);
                let eu: u32 = (ee - 127) as u32;
                assert(eu <= 22 && s == 23 - eu ==> (((b << eu) & 0x007F_FFFF) == 0 <==> (b
                    & 0x007F_FFFF) % (1u32 << s) == 0)) by (bit_vector);
                assert((b & 0x007F_FFFF) % (1u32 << s) == repr::frac_of(b) as int % pow2(
                    s as nat,
                ) as int);
            }
            if ee == 150 {
                assert((b << 23) & 0x007F_FFFF == 0) by (bit_vector);
            }
            if 127 <= ee < 255 {
                self.lemma_integer_model();
            }
        }
        r
    }

    /// True when the integer part of the magnitude is even.  A pattern with
    /// unbiased exponent 31 or above is treated as even (such a magnitude
    /// cannot carry a ones digit), and a magnitude below one has integer
    /// part zero, which is even.
    pub fn is_even(&self) -> (r: bool)
        ensures
            r == is_even_bits(self.bits),
    {
        let e: i32 = self.exponent_value();
        let r: bool = if e >= 31 {
            true
        } else if e < 0 {
            true
        } else if e >= 24 {
            true
        } else {
            let implicit: u32 = 0x0080_0000 | (self.bits & repr::MANTISSA_MASK);
            let shift: u32 = (23 - e) as u32;
            (implicit >> shift) & 1 == 0
        };
        proof {
            let b = self.bits;
            let ee = repr::exp_of(b) as nat;
            let m = repr::frac_of(b) as int;
            let sig = 0x0080_0000 + m;
            repr::lemma_fields(b);
            if 127 <= ee < 158 {
                let k = (150 - ee) as int;
                lemma_pow2_pos(150);
                if ee <= 150 {
                    // the integer part is the significand shifted right by k
                    lemma_pow2_adds(ee, k as nat);
                    lemma_pow2_pos(ee);
                    lemma_pow2_pos(k as nat);
                    assert(repr::mag150(b) == pow2(ee) * sig) by {
                        vstd::arithmetic::mul::lemma_mul_is_commutative(sig, pow2(ee) as int);
                    }
                    vstd::arithmetic::div_mod::lemma_div_multiples_vanish_quotient(
                        pow2(ee) as int,
                        sig,
                        pow2(k as nat) as int,
                    );
                    assert(pow2(ee) * pow2(k as nat) == pow2(150));
                    assert(repr::mag150(b) as int / pow2(150) as int == sig / pow2(k as nat) as int);
                    let implicit: u32 = 0x0080_0000 | (b & 0x007F_FFFF);
                    assert((0x0080_0000u32 | (b & 0x007F_FFFF)) == 0x0080_0000 + (b
                        & 0x007F_FFFF)) by (bit_vector);
                    assert(implicit == sig);
                    let sh: u32 = k as u32;
                    lemma_u32_shr_is_div(implicit, sh);
                    assert((implicit >> sh) & 1 == (implicit >> sh) % 2) by (bit_vector);
                } else {
                    // unbiased exponent 24 to 30: the integer part keeps a
                    // factor of two, so it is even
                    let j = (ee - 150) as nat;
                    lemma_pow2_adds(150, j);
                    lemma_pow2_pos(j);
                    assert(repr::mag150(b) == (sig * pow2(j)) * pow2(150)) by {
                        vstd::arithmetic::mul::lemma_mul_is_associative(
                            sig,
                            pow2(j) as int,
                            pow2(150) as int,
                        );
                        vstd::arithmetic::mul::lemma_mul_is_commutative(
                            pow2(j) as int,
                            pow2(150) as int,
                        );
                    }
                    vstd::arithmetic::div_mod::lemma_div_by_multiple(
                        sig * pow2(j) as int,
                        pow2(150) as int,
                    );
                    assert(repr::mag150(b) as int / pow2(150) as int == sig * pow2(j) as int);
                    lemma_pow2_adds((j - 1) as nat, 1);
                    vstd::arithmetic::power2::lemma2_to64();
                    assert(sig * pow2(j) as int == (sig * pow2((j - 1) as nat) as int) * 2) by {
                        vstd::arithmetic::mul::lemma_mul_is_associative(
                            sig,
                            pow2((j - 1) as nat) as int,
                            2,
                        );
                    }
                    vstd::arithmetic::div_mod::lemma_mod_multiples_basic(
                        sig * pow2((j - 1) as nat) as int,
                        2,
                    );
                }
            }
        }
        r
    }

    /// Relates the fractional-bit test to the scaled magnitude: for an
    /// exponent field between 127 and 254 the magnitude is a multiple of
    /// `2^150` exactly when the mantissa keeps no fractional bits.
    proof fn lemma_integer_model(self)
        requires
            127 <= repr::exp_of(self.bits) < 255,
        ensures
            repr::exp_of(self.bits) < 150 ==> (repr::mag150(self.bits) % pow2(150) == 0 <==> repr::frac_of(
                self.bits,
            ) as nat % pow2((150 - repr::exp_of(self.bits)) as nat) == 0),
            repr::exp_of(self.bits) >= 150 ==> repr::mag150(self.bits) % pow2(150) == 0,
    {
        let b = self.bits;
        let ee = repr::exp_of(b) as nat;
        let m = repr::frac_of(b) as int;
        let sig = 0x0080_0000 + m;
        repr::lemma_fields(b);
        if ee >= 150 {
            lemma_pow2_adds((ee - 150) as nat, 150);
            lemma_pow2_pos((ee - 150) as nat);
            lemma_pow2_pos(150);
            let p = pow2((ee - 150) as nat) as int;
            let q = pow2(150) as int;
            assert(pow2(ee) == p * q);
            assert(sig * (p * q) == (sig * p) * q) by {
                vstd::arithmetic::mul::lemma_mul_is_associative(sig, p, q);
            }
            assert(repr::mag150(b) == sig * (p * q));
            vstd::arithmetic::div_mod::lemma_mod_multiples_basic(sig * p, q);
        } else {
            let k = (150 - ee) as nat;
            assert(1 <= k <= 23);
            lemma_pow2_adds(ee, k);
            lemma_pow2_pos(k);
            lemma_pow2_pos(ee);
            // mag150 is sig * 2^ee and 2^150 is 2^ee * 2^k, so divisibility
            // by 2^150 comes down to divisibility of sig by 2^k; the
            // implicit bit 2^23 is itself a multiple of 2^k, which leaves
            // only the mantissa.
            vstd::arithmetic::div_mod::lemma_truncate_middle(sig, pow2(ee) as int, pow2(k) as int);
            assert(repr::mag150(b) == pow2(ee) * sig) by {
                vstd::arithmetic::mul::lemma_mul_is_commutative(sig, pow2(ee) as int);
            }
            assert(repr::mag150(b) % pow2(150) == pow2(ee) * (sig % pow2(k) as int));
            assert(sig % pow2(k) as int == m % pow2(k) as int) by {
                lemma_pow2_adds(k, (23 - k) as nat);
                vstd::arithmetic::power2::lemma2_to64();
                assert(0x0080_0000 + m == pow2(k) as int * pow2((23 - k) as nat) as int + m);
                vstd::arithmetic::div_mod::lemma_mod_multiples_vanish(
                    pow2((23 - k) as nat) as int,
                    m,
                    pow2(k) as int,
                );
            }
            if m % pow2(k) as int == 0 {
                assert(repr::mag150(b) % pow2(150) == 0);
            } else {
                assert(sig % pow2(k) as int > 0) by {
                    vstd::arithmetic::div_mod::lemma_mod_pos_bound(sig, pow2(k) as int);
                }
                assert(pow2(ee) * (sig % pow2(k) as int) > 0) by {
                    vstd::arithmetic::mul::lemma_mul_strictly_positive(
                        pow2(ee) as int,
                        sig % pow2(k) as int,
                    );
                }
            }
        }
    }
}

} // verus!
