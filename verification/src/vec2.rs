//! Two-dimensional vectors of fixed-point numbers.
//!
//! All arithmetic is component-wise; the product of two vectors is neither a
//! dot nor a cross product.
use crate::scalar::Scalar;
use vstd::prelude::*;
use vstd::std_specs::convert::FromSpecImpl;

verus! {

/// A point or a displacement in the plane.
#[derive(Clone, Copy, Debug, PartialEq, Eq, Structural)]
pub struct Vec2 {
    pub x: Scalar,
    pub y: Scalar,
}

impl Vec2 {
    /// The vector with the given components.
    pub fn new(x: Scalar, y: Scalar) -> (r: Vec2)
        ensures
            r == (Vec2 { x, y }),
    {
        Vec2 { x, y }
    }

    /// The origin.
    pub open spec fn origin() -> Vec2 {
        Vec2 { x: Scalar { raw: 0 }, y: Scalar { raw: 0 } }
    }

    /// The component-wise sum.
    pub open spec fn plus(self, rhs: Vec2) -> Vec2 {
        Vec2 { x: self.x.plus(rhs.x), y: self.y.plus(rhs.y) }
    }

    /// The component-wise difference.
    pub open spec fn minus(self, rhs: Vec2) -> Vec2 {
        Vec2 { x: self.x.minus(rhs.x), y: self.y.minus(rhs.y) }
    }

    /// The component-wise product.
    pub open spec fn times(self, rhs: Vec2) -> Vec2 {
        Vec2 { x: self.x.times(rhs.x), y: self.y.times(rhs.y) }
    }

    /// Both components raised by `k`.
    pub open spec fn raised(self, k: Scalar) -> Vec2 {
        Vec2 { x: self.x.plus(k), y: self.y.plus(k) }
    }

    /// Both components lowered by `k`.
    pub open spec fn lowered(self, k: Scalar) -> Vec2 {
        Vec2 { x: self.x.minus(k), y: self.y.minus(k) }
    }

    /// Both components multiplied by `k`.
    pub open spec fn scaled(self, k: Scalar) -> Vec2 {
        Vec2 { x: self.x.times(k), y: self.y.times(k) }
    }
}

impl Default for Vec2 {
    /// The origin.
    fn default() -> (r: Vec2)
        ensures
            r == Vec2::origin(),
    {
        Vec2 { x: Scalar { raw: 0 }, y: Scalar { raw: 0 } }
    }
}

/// `From::from` of a type to itself, which std documents as returning its
/// argument unchanged.
pub assume_specification<A>[ <A as core::convert::From<A>>::from ](a: A) -> (same: A)
    ensures
        same == a,
;

impl FromSpecImpl<(Scalar, Scalar)> for Vec2 {
    open spec fn obeys_from_spec() -> bool {
        true
    }

    open spec fn from_spec(tup: (Scalar, Scalar)) -> Vec2 {
        Vec2 { x: tup.0, y: tup.1 }
    }
}

impl From<(Scalar, Scalar)> for Vec2 {
    /// The vector with the components of the pair.
    fn from(tup: (Scalar, Scalar)) -> (r: Vec2) {
        Vec2 { x: tup.0, y: tup.1 }
    }
}

impl Vec2 {
    /// The component-wise sum.
    pub fn add(self, rhs: Vec2) -> (r: Vec2)
        ensures
            r == self.plus(rhs),
    {
        Vec2 { x: self.x.add(rhs.x), y: self.y.add(rhs.y) }
    }

    /// Both components raised by `rhs`.
    pub fn add_scalar(self, rhs: Scalar) -> (r: Vec2)
        ensures
            r == self.raised(rhs),
    {
        Vec2 { x: self.x.add(rhs), y: self.y.add(rhs) }
    }

    /// Replaces the vector by `self.add(rhs)`.
    pub fn add_assign(&mut self, rhs: Vec2)
        ensures
            *final(self) == old(self).plus(rhs),
    {
        self.x = self.x.add(rhs.x);
        self.y = self.y.add(rhs.y);
    }

    /// Replaces the vector by `self.add_scalar(rhs)`.
    pub fn add_assign_scalar(&mut self, rhs: Scalar)
        ensures
            *final(self) == old(self).raised(rhs),
    {
        self.x = self.x.add(rhs);
        self.y = self.y.add(rhs);
    }

    /// The component-wise difference.
    pub fn sub(self, rhs: Vec2) -> (r: Vec2)
        ensures
            r == self.minus(rhs),
    {
        Vec2 { x: self.x.sub(rhs.x), y: self.y.sub(rhs.y) }
    }

    /// Both components lowered by `rhs`.
    pub fn sub_scalar(self, rhs: Scalar) -> (r: Vec2)
        ensures
            r == self.lowered(rhs),
    {
        Vec2 { x: self.x.sub(rhs), y: self.y.sub(rhs) }
    }

    /// Replaces the vector by `self.sub(rhs)`.
    pub fn sub_assign(&mut self, rhs: Vec2)
        ensures
            *final(self) == old(self).minus(rhs),
    {
        self.x = self.x.sub(rhs.x);
        self.y = self.y.sub(rhs.y);
    }

    /// Replaces the vector by `self.sub_scalar(rhs)`.
    pub fn sub_assign_scalar(&mut self, rhs: Scalar)
        ensures
            *final(self) == old(self).lowered(rhs),
    {
        self.x = self.x.sub(rhs);
        self.y = self.y.sub(rhs);
    }

    /// The component-wise product.
    pub fn mul(self, rhs: Vec2) -> (r: Vec2)
        ensures
            r == self.times(rhs),
    {
        Vec2 { x: self.x.mul(rhs.x), y: self.y.mul(rhs.y) }
    }

    /// Both components multiplied by `rhs`.
    pub fn mul_scalar(self, rhs: Scalar) -> (r: Vec2)
        ensures
            r == self.scaled(rhs),
    {
        Vec2 { x: self.x.mul(rhs), y: self.y.mul(rhs) }
    }

    /// Replaces the vector by `self.mul(rhs)`.
    pub fn mul_assign(&mut self, rhs: Vec2)
        ensures
            *final(self) == old(self).times(rhs),
    {
        self.x = self.x.mul(rhs.x);
        self.y = self.y.mul(rhs.y);
    }

    /// Replaces the vector by `self.mul_scalar(rhs)`.
    pub fn mul_assign_scalar(&mut self, rhs: Scalar)
        ensures
            *final(self) == old(self).scaled(rhs),
    {
        self.x = self.x.mul(rhs);
        self.y = self.y.mul(rhs);
    }
}

} // verus!
