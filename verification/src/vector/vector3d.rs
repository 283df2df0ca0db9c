//! Three-dimensional vector.

use super::component::{div_truncate, Component};
use vstd::prelude::*;

verus! {

/// A three-dimensional vector with components `x`, `y` and `z`.
#[derive(Clone, Copy, Debug, PartialEq)]
pub struct Vector3d<C: Component> {
    /// X component
    pub x: C,

    /// Y component
    pub y: C,

    /// Z component
    pub z: C,
}

impl<C: Component> Vector3d<C> {
    /// The three coordinates as an array.
    pub fn to_array(&self) -> (r: [C; 3])
        ensures
            r[0] == self.x,
            r[1] == self.y,
            r[2] == self.z,
    {
        [self.x, self.y, self.z]
    }

    /// The inner product: the sum of the componentwise products.
    pub fn dot(self, rhs: Self) -> (r: C)
        requires
            C::min_val() <= self.x.as_int() * rhs.x.as_int() <= C::max_val(),
            C::min_val() <= self.y.as_int() * rhs.y.as_int() <= C::max_val(),
            C::min_val() <= self.z.as_int() * rhs.z.as_int() <= C::max_val(),
            C::min_val() <= self.x.as_int() * rhs.x.as_int() + self.y.as_int() * rhs.y.as_int()
                <= C::max_val(),
            C::min_val() <= self.x.as_int() * rhs.x.as_int() + self.y.as_int() * rhs.y.as_int()
                + self.z.as_int() * rhs.z.as_int() <= C::max_val(),
        ensures
            r.as_int() == self.x.as_int() * rhs.x.as_int() + self.y.as_int() * rhs.y.as_int()
                + self.z.as_int() * rhs.z.as_int(),
    {
        (self.x.times(rhs.x)).plus(self.y.times(rhs.y)).plus(self.z.times(rhs.z))
    }

    /// The outer product, by the standard determinant formula.
    pub fn cross(&self, rhs: Self) -> (r: Vector3d<C>)
        requires
            C::min_val() <= self.y.as_int() * rhs.z.as_int() <= C::max_val(),
            C::min_val() <= self.z.as_int() * rhs.y.as_int() <= C::max_val(),
            C::min_val() <= self.z.as_int() * rhs.x.as_int() <= C::max_val(),
            C::min_val() <= self.x.as_int() * rhs.z.as_int() <= C::max_val(),
            C::min_val() <= self.x.as_int() * rhs.y.as_int() <= C::max_val(),
            C::min_val() <= self.y.as_int() * rhs.x.as_int() <= C::max_val(),
            C::min_val() <= self.y.as_int() * rhs.z.as_int() - self.z.as_int() * rhs.y.as_int()
                <= C::max_val(),
            C::min_val() <= self.z.as_int() * rhs.x.as_int() - self.x.as_int() * rhs.z.as_int()
                <= C::max_val(),
            C::min_val() <= self.x.as_int() * rhs.y.as_int() - self.y.as_int() * rhs.x.as_int()
                <= C::max_val(),
        ensures
            r.x.as_int() == self.y.as_int() * rhs.z.as_int() - self.z.as_int() * rhs.y.as_int(),
            r.y.as_int() == self.z.as_int() * rhs.x.as_int() - self.x.as_int() * rhs.z.as_int(),
            r.z.as_int() == self.x.as_int() * rhs.y.as_int() - self.y.as_int() * rhs.x.as_int(),
    {
        Vector3d {
            x: (self.y.times(rhs.z)).minus(self.z.times(rhs.y)),
            y: (self.z.times(rhs.x)).minus(self.x.times(rhs.z)),
            z: (self.x.times(rhs.y)).minus(self.y.times(rhs.x)),
        }
    }

    /// The component at an index, in `x`, `y`, `z` order.
    pub fn get(self, index: usize) -> (r: Option<C>)
        ensures
            index == 0 ==> r == Some(self.x),
            index == 1 ==> r == Some(self.y),
            index == 2 ==> r == Some(self.z),
            index >= 3 ==> r is None,
    {
        match index {
            0 => Some(self.x),
            1 => Some(self.y),
            2 => Some(self.z),
            _ => None,
        }
    }

    /// Componentwise sum.
    pub fn plus(self, rhs: Self) -> (r: Self)
        requires
            C::min_val() <= self.x.as_int() + rhs.x.as_int() <= C::max_val(),
            C::min_val() <= self.y.as_int() + rhs.y.as_int() <= C::max_val(),
            C::min_val() <= self.z.as_int() + rhs.z.as_int() <= C::max_val(),
        ensures
            r.x.as_int() == self.x.as_int() + rhs.x.as_int(),
            r.y.as_int() == self.y.as_int() + rhs.y.as_int(),
            r.z.as_int() == self.z.as_int() + rhs.z.as_int(),
    {
        Vector3d { x: self.x.plus(rhs.x), y: self.y.plus(rhs.y), z: self.z.plus(rhs.z) }
    }

    /// Componentwise difference.
    pub fn minus(self, rhs: Self) -> (r: Self)
        requires
            C::min_val() <= self.x.as_int() - rhs.x.as_int() <= C::max_val(),
            C::min_val() <= self.y.as_int() - rhs.y.as_int() <= C::max_val(),
            C::min_val() <= self.z.as_int() - rhs.z.as_int() <= C::max_val(),
        ensures
            r.x.as_int() == self.x.as_int() - rhs.x.as_int(),
            r.y.as_int() == self.y.as_int() - rhs.y.as_int(),
            r.z.as_int() == self.z.as_int() - rhs.z.as_int(),
    {
        Vector3d { x: self.x.minus(rhs.x), y: self.y.minus(rhs.y), z: self.z.minus(rhs.z) }
    }

    /// Multiplication of every component by a scalar.
    pub fn scale(self, rhs: C) -> (r: Self)
        requires
            C::min_val() <= self.x.as_int() * rhs.as_int() <= C::max_val(),
            C::min_val() <= self.y.as_int() * rhs.as_int() <= C::max_val(),
            C::min_val() <= self.z.as_int() * rhs.as_int() <= C::max_val(),
        ensures
            r.x.as_int() == self.x.as_int() * rhs.as_int(),
            r.y.as_int() == self.y.as_int() * rhs.as_int(),
            r.z.as_int() == self.z.as_int() * rhs.as_int(),
    {
        Vector3d { x: self.x.times(rhs), y: self.y.times(rhs), z: self.z.times(rhs) }
    }

    /// Division of every component by a scalar, rounding toward zero.
    pub fn div(self, rhs: C) -> (r: Self)
        requires
            rhs.as_int() != 0,
            C::min_val() <= div_truncate(self.x.as_int(), rhs.as_int()) <= C::max_val(),
            C::min_val() <= div_truncate(self.y.as_int(), rhs.as_int()) <= C::max_val(),
            C::min_val() <= div_truncate(self.z.as_int(), rhs.as_int()) <= C::max_val(),
        ensures
            r.x.as_int() == div_truncate(self.x.as_int(), rhs.as_int()),
            r.y.as_int() == div_truncate(self.y.as_int(), rhs.as_int()),
            r.z.as_int() == div_truncate(self.z.as_int(), rhs.as_int()),
    {
        Vector3d { x: self.x.quot(rhs), y: self.y.quot(rhs), z: self.z.quot(rhs) }
    }

    /// Division in place of every component by a scalar.
    pub fn div_assign(&mut self, rhs: C)
        requires
            rhs.as_int() != 0,
            C::min_val() <= div_truncate(old(self).x.as_int(), rhs.as_int()) <= C::max_val(),
            C::min_val() <= div_truncate(old(self).y.as_int(), rhs.as_int()) <= C::max_val(),
            C::min_val() <= div_truncate(old(self).z.as_int(), rhs.as_int()) <= C::max_val(),
        ensures
            final(self).x.as_int() == div_truncate(old(self).x.as_int(), rhs.as_int()),
            final(self).y.as_int() == div_truncate(old(self).y.as_int(), rhs.as_int()),
            final(self).z.as_int() == div_truncate(old(self).z.as_int(), rhs.as_int()),
    {
        *self = self.div(rhs);
    }

    /// Embeds a two-dimensional vector in the `z == 0` plane.
    pub fn from_2d(v: super::Vector2d<C>) -> (r: Self)
        ensures
            r.x == v.x,
            r.y == v.y,
            r.z.as_int() == 0,
    {
        Vector3d { x: v.x, y: v.y, z: C::zero() }
    }

    /// A vector from its three coordinates.
    pub fn from_tuple(t: (C, C, C)) -> (r: Self)
        ensures
            r.x == t.0,
            r.y == t.1,
            r.z == t.2,
    {
        Vector3d { x: t.0, y: t.1, z: t.2 }
    }

    /// A vector from a three-element coordinate array.
    pub fn from_array(a: [C; 3]) -> (r: Self)
        ensures
            r.x == a[0],
            r.y == a[1],
            r.z == a[2],
    {
        Vector3d { x: a[0], y: a[1], z: a[2] }
    }

    /// The three coordinates as a tuple.
    pub fn to_tuple(self) -> (r: (C, C, C))
        ensures
            r.0 == self.x,
            r.1 == self.y,
            r.2 == self.z,
    {
        (self.x, self.y, self.z)
    }
}

/// The cross product is antisymmetric: exchanging the operands negates
/// every component of the result, at the level of the component values
/// the contract speaks of.
pub proof fn lemma_cross_antisymmetric<C: Component>(a: Vector3d<C>, b: Vector3d<C>)
    ensures
        a.y.as_int() * b.z.as_int() - a.z.as_int() * b.y.as_int() == -(b.y.as_int()
            * a.z.as_int() - b.z.as_int() * a.y.as_int()),
        a.z.as_int() * b.x.as_int() - a.x.as_int() * b.z.as_int() == -(b.z.as_int()
            * a.x.as_int() - b.x.as_int() * a.z.as_int()),
        a.x.as_int() * b.y.as_int() - a.y.as_int() * b.x.as_int() == -(b.x.as_int()
            * a.y.as_int() - b.y.as_int() * a.x.as_int()),
{
}

} // verus!
