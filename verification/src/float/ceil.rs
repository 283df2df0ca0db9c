//! Smallest whole value not below the argument.

use super::repr;
use super::F32;
use vstd::arithmetic::power2::pow2;
use vstd::prelude::*;

verus! {

impl F32 {
    /// The smallest whole value not below `self`: the negated floor of the
    /// negation, sign preserved; exact.  On the `2^150` scale the signed
    /// value is rounded up to a multiple of `2^150`.  A non-finite pattern
    /// propagates.
    pub fn ceil(self) -> (r: F32)
        ensures
            !repr::is_finite_bits(self.bits) ==> r == self,
            repr::sign_of(r.bits) == repr::sign_of(self.bits),
            repr::is_finite_bits(self.bits) ==> repr::is_finite_bits(r.bits),
            repr::is_finite_bits(self.bits) ==> repr::val150(r.bits) == -((-repr::val150(self.bits)
                / pow2(150) as int) * pow2(150)),
    {
        let b = self.bits;
        let n = F32 { bits: b ^ repr::SIGN_MASK };
        proof {
            lemma_flip_sign(b);
        }
        let f = n.floor();
        let r = F32 { bits: f.bits ^ repr::SIGN_MASK };
        proof {
            lemma_flip_sign(f.bits);
            assert((b ^ 0x8000_0000) ^ 0x8000_0000 == b) by (bit_vector);
        }
        r
    }
}

/// Flipping the sign bit keeps the fields and negates the scaled value.
proof fn lemma_flip_sign(b: u32)
    ensures
        repr::exp_of(b ^ 0x8000_0000) == repr::exp_of(b),
        repr::frac_of(b ^ 0x8000_0000) == repr::frac_of(b),
        repr::mag150(b ^ 0x8000_0000) == repr::mag150(b),
        repr::sign_of(b ^ 0x8000_0000) == 1 - repr::sign_of(b),
        repr::val150(b ^ 0x8000_0000) == -repr::val150(b),
{
    assert(((b ^ 0x8000_0000) >> 23) & 0xFF == (b >> 23) & 0xFF && (b ^ 0x8000_0000) & 0x007F_FFFF
        == b & 0x007F_FFFF && (b ^ 0x8000_0000) >> 31 == 1 - (b >> 31)) by (bit_vector);
}

} // verus!
