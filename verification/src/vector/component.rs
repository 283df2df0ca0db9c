//! The numeric component types of the vector algebra.

use vstd::prelude::*;

verus! {

/// Integer division that rounds toward zero, as the machine division of
/// the component types does.
pub open spec fn div_truncate(a: int, b: int) -> int {
    if a >= 0 && b > 0 {
        a / b
    } else if a < 0 && b < 0 {
        (-a) / (-b)
    } else if a < 0 {
        -((-a) / b)
    } else {
        -(a / (-b))
    }
}

/// Dividing a non-negative value by a negative one negates the quotient of
/// the magnitudes, under the mathematical division whose remainder is
/// never negative.
proof fn lemma_div_negative_divisor(a: int, b: int)
    requires
        a >= 0,
        b < 0,
    ensures
        a / b == -(a / (-b)),
{
    let q = a / (-b);
    let r = a % (-b);
    vstd::arithmetic::div_mod::lemma_fundamental_div_mod(a, -b);
    let qq = a / b;
    let rr = a % b;
    vstd::arithmetic::div_mod::lemma_fundamental_div_mod(a, b);
    assert(0 <= rr < -b);
    assert(-q == qq) by (nonlinear_arith)
        requires
            a == (-b) * q + r,
            0 <= r < -b,
            a == b * qq + rr,
            0 <= rr < -b,
            b < 0,
    ;
}

/// Machine division of two in-range values rounds toward zero: the
/// quotient agrees with [`div_truncate`] in every sign case of the
/// machine's own formulation.
proof fn lemma_quot_cases(a: int, b: int)
    requires
        b != 0,
    ensures
        a >= 0 ==> div_truncate(a, b) == a / b,
        a < 0 ==> div_truncate(a, b) == -((-a) / b),
{
    if a >= 0 && b < 0 {
        lemma_div_negative_divisor(a, b);
    }
    if a < 0 && b < 0 {
        lemma_div_negative_divisor(-a, b);
    }
}

/// A vector component: a copyable number with exact bounded arithmetic.
/// Each operation carries the precondition that its mathematical result
/// fits the component type, and returns exactly that result.
pub trait Component: Sized + Copy {
    /// The mathematical value of the component.
    spec fn as_int(self) -> int;

    /// The smallest value of the component type.
    spec fn min_val() -> int;

    /// The largest value of the component type.
    spec fn max_val() -> int;

    /// Every component lies between the bounds of its type.
    proof fn in_range(self)
        ensures
            Self::min_val() <= self.as_int() <= Self::max_val(),
    ;

    /// The zero of the component type.
    fn zero() -> (r: Self)
        ensures
            r.as_int() == 0,
    ;

    /// Exact addition.
    fn plus(self, rhs: Self) -> (r: Self)
        requires
            Self::min_val() <= self.as_int() + rhs.as_int() <= Self::max_val(),
        ensures
            r.as_int() == self.as_int() + rhs.as_int(),
    ;

    /// Exact subtraction.
    fn minus(self, rhs: Self) -> (r: Self)
        requires
            Self::min_val() <= self.as_int() - rhs.as_int() <= Self::max_val(),
        ensures
            r.as_int() == self.as_int() - rhs.as_int(),
    ;

    /// Exact multiplication.
    fn times(self, rhs: Self) -> (r: Self)
        requires
            Self::min_val() <= self.as_int() * rhs.as_int() <= Self::max_val(),
        ensures
            r.as_int() == self.as_int() * rhs.as_int(),
    ;

    /// Division, rounding toward zero.
    fn quot(self, rhs: Self) -> (r: Self)
        requires
            rhs.as_int() != 0,
            Self::min_val() <= div_truncate(self.as_int(), rhs.as_int()) <= Self::max_val(),
        ensures
            r.as_int() == div_truncate(self.as_int(), rhs.as_int()),
    ;
}

impl Component for i8 {
    open spec fn as_int(self) -> int {
        self as int
    }

    open spec fn min_val() -> int {
        i8::MIN as int
    }

    open spec fn max_val() -> int {
        i8::MAX as int
    }

    proof fn in_range(self) {
    }

    fn zero() -> (r: Self) {
        0
    }

    fn plus(self, rhs: Self) -> (r: Self) {
        self + rhs
    }

    fn minus(self, rhs: Self) -> (r: Self) {
        self - rhs
    }

    fn times(self, rhs: Self) -> (r: Self) {
        self * rhs
    }

    fn quot(self, rhs: Self) -> (r: Self) {
        let r = self / rhs;
        proof {
            lemma_quot_cases(self.as_int(), rhs.as_int());
        }
        r
    }
}

impl Component for i16 {
    open spec fn as_int(self) -> int {
        self as int
    }

    open spec fn min_val() -> int {
        i16::MIN as int
    }

    open spec fn max_val() -> int {
        i16::MAX as int
    }

    proof fn in_range(self) {
    }

    fn zero() -> (r: Self) {
        0
    }

    fn plus(self, rhs: Self) -> (r: Self) {
        self + rhs
    }

    fn minus(self, rhs: Self) -> (r: Self) {
        self - rhs
    }

    fn times(self, rhs: Self) -> (r: Self) {
        self * rhs
    }

    fn quot(self, rhs: Self) -> (r: Self) {
        let r = self / rhs;
        proof {
            lemma_quot_cases(self.as_int(), rhs.as_int());
        }
        r
    }
}

impl Component for i32 {
    open spec fn as_int(self) -> int {
        self as int
    }

    open spec fn min_val() -> int {
        i32::MIN as int
    }

    open spec fn max_val() -> int {
        i32::MAX as int
    }

    proof fn in_range(self) {
    }

    fn zero() -> (r: Self) {
        0
    }

    fn plus(self, rhs: Self) -> (r: Self) {
        self + rhs
    }

    fn minus(self, rhs: Self) -> (r: Self) {
        self - rhs
    }

    fn times(self, rhs: Self) -> (r: Self) {
        self * rhs
    }

    fn quot(self, rhs: Self) -> (r: Self) {
        let r = self / rhs;
        proof {
            lemma_quot_cases(self.as_int(), rhs.as_int());
        }
        r
    }
}

impl Component for u8 {
    open spec fn as_int(self) -> int {
        self as int
    }

    open spec fn min_val() -> int {
        0
    }

    open spec fn max_val() -> int {
        u8::MAX as int
    }

    proof fn in_range(self) {
    }

    fn zero() -> (r: Self) {
        0
    }

    fn plus(self, rhs: Self) -> (r: Self) {
        self + rhs
    }

    fn minus(self, rhs: Self) -> (r: Self) {
        self - rhs
    }

    fn times(self, rhs: Self) -> (r: Self) {
        self * rhs
    }

    fn quot(self, rhs: Self) -> (r: Self) {
        let r = self / rhs;
        proof {
            lemma_quot_cases(self.as_int(), rhs.as_int());
        }
        r
    }
}

impl Component for u16 {
    open spec fn as_int(self) -> int {
        self as int
    }

    open spec fn min_val() -> int {
        0
    }

    open spec fn max_val() -> int {
        u16::MAX as int
    }

    proof fn in_range(self) {
    }

    fn zero() -> (r: Self) {
        0
    }

    fn plus(self, rhs: Self) -> (r: Self) {
        self + rhs
    }

    fn minus(self, rhs: Self) -> (r: Self) {
        self - rhs
    }

    fn times(self, rhs: Self) -> (r: Self) {
        self * rhs
    }

    fn quot(self, rhs: Self) -> (r: Self) {
        let r = self / rhs;
        proof {
            lemma_quot_cases(self.as_int(), rhs.as_int());
        }
        r
    }
}

impl Component for u32 {
    open spec fn as_int(self) -> int {
        self as int
    }

    open spec fn min_val() -> int {
        0
    }

    open spec fn max_val() -> int {
        u32::MAX as int
    }

    proof fn in_range(self) {
    }

    fn zero() -> (r: Self) {
        0
    }

    fn plus(self, rhs: Self) -> (r: Self) {
        self + rhs
    }

    fn minus(self, rhs: Self) -> (r: Self) {
        self - rhs
    }

    fn times(self, rhs: Self) -> (r: Self) {
        self * rhs
    }

    fn quot(self, rhs: Self) -> (r: Self) {
        let r = self / rhs;
        proof {
            lemma_quot_cases(self.as_int(), rhs.as_int());
        }
        r
    }
}

} // verus!
