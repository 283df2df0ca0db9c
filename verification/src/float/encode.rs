//! Building a pattern from a small non-negative integer.

use super::repr;
use super::F32;
use vstd::arithmetic::mul::lemma_mul_is_associative;
use vstd::arithmetic::power2::{lemma_pow2_adds, pow2};
use vstd::bits::{lemma_u32_pow2_no_overflow, lemma_u32_shl_is_mul};
use vstd::prelude::*;

verus! {

/// The position of the highest set bit of a non-zero value up to `2^23`.
pub(crate) fn highest_bit(v: u32) -> (h: u32)
    requires
        1 <= v <= 0x0080_0000,
    ensures
        h <= 23,
        (v >> h) == 1,
        v <= 0x007F_FFFF ==> h <= 22,
{
    let mut h: u32 = 0;
    proof {
        assert(v >> 0 == v) by (bit_vector);
    }
    while (v >> h) >= 2
        invariant
            1 <= v <= 0x0080_0000,
            h <= 23,
            (v >> h) >= 1,
        decreases 23 - h,
    {
        proof {
            let vv = v;
            let hh = h;
            assert((vv <= 0x0080_0000 && (vv >> hh) >= 2 ==> hh < 23) && ((vv >> hh) >= 2 ==> (vv
                >> (hh + 1)) >= 1)) by (bit_vector);
        }
        h = h + 1;
    }
    proof {
        let vv = v;
        let hh = h;
        assert(vv <= 0x007F_FFFF && (vv >> hh) == 1 ==> hh <= 22) by (bit_vector);
    }
    h
}

impl F32 {
    /// The pattern of a non-negative integer up to `2^23`, every one of
    /// which is exactly representable.
    pub(crate) fn from_small_int(v: u32) -> (r: F32)
        requires
            v <= 0x0080_0000,
        ensures
            repr::sign_of(r.bits) == 0,
            repr::is_finite_bits(r.bits),
            repr::mag150(r.bits) == v * pow2(150),
    {
        if v == 0 {
            proof {
                assert(0u32 >> 31 == 0 && (0u32 >> 23) & 0xFF == 0 && 0u32 & 0x007F_FFFF == 0)
                    by (bit_vector);
                vstd::arithmetic::mul::lemma_mul_basics(pow2(150) as int);
            }
            return F32 { bits: 0 };
        }
        let h: u32 = highest_bit(v);
        let shift: u32 = 23 - h;
        let normalized: u32 = (v << shift) & repr::MANTISSA_MASK;
        let efield: u32 = 127 + h;
        let r = F32 { bits: (efield << 23) | normalized };
        proof {
            let sh = shift;
            let ef = efield;
            let mm = normalized;
            assert((v << sh) >= 0x0080_0000 && (v << sh) <= 0x0100_0000 && ((v << sh)
                & 0x007F_FFFF) == (v << sh) - 0x0080_0000 && ((v << sh) & 0x007F_FFFF)
                <= 0x007F_FFFF && v <= (0xFFFF_FFFFu32 >> sh)) by (bit_vector)
                requires
                    (v >> h) == 1,
                    h <= 23,
                    sh == 23 - h,
            ;
            vstd::bits::lemma_u32_mul_pow2_le_max_iff_max_shr(v, sh, 0xFFFF_FFFFu32);
            assert(((ef << 23) | mm) >> 31 == 0 && ((((ef << 23) | mm) >> 23) & 0xFF) == ef && (((
            ef << 23) | mm) & 0x007F_FFFF) == mm) by (bit_vector)
                requires
                    ef <= 255,
                    mm <= 0x007F_FFFF,
            ;
            // hold on to the exact significand: 2^23 + mantissa is v shifted
            assert(repr::mag150(r.bits) == ((v << sh) as int) * (pow2(ef as nat) as int));
            lemma_u32_pow2_no_overflow(sh as nat);
            lemma_u32_shl_is_mul(v, sh);
            assert(repr::mag150(r.bits) == (v as int) * (pow2(150) as int)) by {
                lemma_pow2_adds(sh as nat, ef as nat);
                lemma_mul_is_associative(v as int, pow2(sh as nat) as int, pow2(ef as nat) as int);
            }
        }
        r
    }
}

} // verus!
