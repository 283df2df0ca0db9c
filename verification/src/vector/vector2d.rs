//! Two-dimensional vector.

use super::component::{div_truncate, Component};
use super::vector3d::Vector3d;
use vstd::prelude::*;

verus! {

/// A two-dimensional vector with components `x` and `y`.
#[derive(Clone, Copy, Debug, PartialEq)]
pub struct Vector2d<C: Component> {
    /// X component
    pub x: C,

    /// Y component
    pub y: C,
}

impl<C: Component> Vector2d<C> {
    /// The two coordinates as an array.
    pub fn to_array(&self) -> (r: [C; 2])
        ensures
            r[0] == self.x,
            r[1] == self.y,
    {
        [self.x, self.y]
    }

    /// The inner product: the sum of the componentwise products.
    pub fn dot(self, rhs: Self) -> (r: C)
        requires
            C::min_val() <= self.x.as_int() * rhs.x.as_int() <= C::max_val(),
            C::min_val() <= self.y.as_int() * rhs.y.as_int() <= C::max_val(),
            C::min_val() <= self.x.as_int() * rhs.x.as_int() + self.y.as_int() * rhs.y.as_int()
                <= C::max_val(),
        ensures
            r.as_int() == self.x.as_int() * rhs.x.as_int() + self.y.as_int() * rhs.y.as_int(),
    {
        (self.x.times(rhs.x)).plus(self.y.times(rhs.y))
    }

    /// The perpendicular dot product: the signed area of the parallelogram
    /// spanned by the two vectors, and the `z` component of their
    /// [`cross`](Self::cross) product.
    pub fn perpendicular_dot(self, rhs: Self) -> (r: C)
        requires
            C::min_val() <= self.x.as_int() * rhs.y.as_int() <= C::max_val(),
            C::min_val() <= self.y.as_int() * rhs.x.as_int() <= C::max_val(),
            C::min_val() <= self.x.as_int() * rhs.y.as_int() - self.y.as_int() * rhs.x.as_int()
                <= C::max_val(),
        ensures
            r.as_int() == self.x.as_int() * rhs.y.as_int() - self.y.as_int() * rhs.x.as_int(),
    {
        (self.x.times(rhs.y)).minus(self.y.times(rhs.x))
    }

    /// The outer product, through the three-dimensional cross product of
    /// the embedded vectors: the result lies on the `z` axis and its `z`
    /// component is the perpendicular dot product.
    pub fn cross(&self, rhs: Self) -> (r: Vector3d<C>)
        requires
            C::min_val() <= 0 <= C::max_val(),
            C::min_val() <= self.x.as_int() * rhs.y.as_int() <= C::max_val(),
            C::min_val() <= self.y.as_int() * rhs.x.as_int() <= C::max_val(),
            C::min_val() <= self.x.as_int() * rhs.y.as_int() - self.y.as_int() * rhs.x.as_int()
                <= C::max_val(),
        ensures
            r.x.as_int() == 0,
            r.y.as_int() == 0,
            r.z.as_int() == self.x.as_int() * rhs.y.as_int() - self.y.as_int() * rhs.x.as_int(),
    {
        let a = Vector3d::from_2d(*self);
        let b = Vector3d::from_2d(rhs);
        proof {
            vstd::arithmetic::mul::lemma_mul_basics(self.y.as_int());
            vstd::arithmetic::mul::lemma_mul_basics(self.x.as_int());
            vstd::arithmetic::mul::lemma_mul_basics(rhs.y.as_int());
            vstd::arithmetic::mul::lemma_mul_basics(rhs.x.as_int());
        }
        a.cross(b)
    }

    /// The component at an index, in `x`, `y` order.
    pub fn get(self, index: usize) -> (r: Option<C>)
        ensures
            index == 0 ==> r == Some(self.x),
            index == 1 ==> r == Some(self.y),
            index >= 2 ==> r is None,
    {
        match index {
            0 => Some(self.x),
            1 => Some(self.y),
            _ => None,
        }
    }

    /// Componentwise sum.
    pub fn plus(self, rhs: Self) -> (r: Self)
        requires
            C::min_val() <= self.x.as_int() + rhs.x.as_int() <= C::max_val(),
            C::min_val() <= self.y.as_int() + rhs.y.as_int() <= C::max_val(),
        ensures
            r.x.as_int() == self.x.as_int() + rhs.x.as_int(),
            r.y.as_int() == self.y.as_int() + rhs.y.as_int(),
    {
        Vector2d { x: self.x.plus(rhs.x), y: self.y.plus(rhs.y) }
    }

    /// Componentwise difference.
    pub fn minus(self, rhs: Self) -> (r: Self)
        requires
            C::min_val() <= self.x.as_int() - rhs.x.as_int() <= C::max_val(),
            C::min_val() <= self.y.as_int() - rhs.y.as_int() <= C::max_val(),
        ensures
            r.x.as_int() == self.x.as_int() - rhs.x.as_int(),
            r.y.as_int() == self.y.as_int() - rhs.y.as_int(),
    {
        Vector2d { x: self.x.minus(rhs.x), y: self.y.minus(rhs.y) }
    }

    /// Multiplication of every component by a scalar.
    pub fn scale(self, rhs: C) -> (r: Self)
        requires
            C::min_val() <= self.x.as_int() * rhs.as_int() <= C::max_val(),
            C::min_val() <= self.y.as_int() * rhs.as_int() <= C::max_val(),
        ensures
            r.x.as_int() == self.x.as_int() * rhs.as_int(),
            r.y.as_int() == self.y.as_int() * rhs.as_int(),
    {
        Vector2d { x: self.x.times(rhs), y: self.y.times(rhs) }
    }

    /// Division of every component by a scalar, rounding toward zero.
    pub fn div(self, rhs: C) -> (r: Self)
        requires
            rhs.as_int() != 0,
            C::min_val() <= div_truncate(self.x.as_int(), rhs.as_int()) <= C::max_val(),
            C::min_val() <= div_truncate(self.y.as_int(), rhs.as_int()) <= C::max_val(),
        ensures
            r.x.as_int() == div_truncate(self.x.as_int(), rhs.as_int()),
            r.y.as_int() == div_truncate(self.y.as_int(), rhs.as_int()),
    {
        Vector2d { x: self.x.quot(rhs), y: self.y.quot(rhs) }
    }

    /// Division in place of every component by a scalar.
    pub fn div_assign(&mut self, rhs: C)
        requires
            rhs.as_int() != 0,
            C::min_val() <= div_truncate(old(self).x.as_int(), rhs.as_int()) <= C::max_val(),
            C::min_val() <= div_truncate(old(self).y.as_int(), rhs.as_int()) <= C::max_val(),
        ensures
            final(self).x.as_int() == div_truncate(old(self).x.as_int(), rhs.as_int()),
            final(self).y.as_int() == div_truncate(old(self).y.as_int(), rhs.as_int()),
    {
        *self = self.div(rhs);
    }

    /// A vector from its two coordinates.
    pub fn from_tuple(t: (C, C)) -> (r: Self)
        ensures
            r.x == t.0,
            r.y == t.1,
    {
        Vector2d { x: t.0, y: t.1 }
    }

    /// A vector from a two-element coordinate array.
    pub fn from_array(a: [C; 2]) -> (r: Self)
        ensures
            r.x == a[0],
            r.y == a[1],
    {
        Vector2d { x: a[0], y: a[1] }
    }

    /// The two coordinates as a tuple.
    pub fn to_tuple(self) -> (r: (C, C))
        ensures
            r.0 == self.x,
            r.1 == self.y,
    {
        (self.x, self.y)
    }
}

/// The dot product is commutative and the perpendicular dot product is
/// antisymmetric: exchanging the operands keeps the one and negates the
/// other, at the level of the component values the contracts speak of.
pub proof fn lemma_dot_symmetry<C: Component>(a: Vector2d<C>, b: Vector2d<C>)
    ensures
        a.x.as_int() * b.x.as_int() + a.y.as_int() * b.y.as_int() == b.x.as_int() * a.x.as_int()
            + b.y.as_int() * a.y.as_int(),
        a.x.as_int() * b.y.as_int() - a.y.as_int() * b.x.as_int() == -(b.x.as_int() * a.y.as_int()
            - b.y.as_int() * a.x.as_int()),
{
}

} // verus!
