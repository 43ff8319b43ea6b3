//! Bodies and the box that each of them occupies.
pub mod fixed;
pub mod kinetic;

pub use fixed::Fixed;
pub use kinetic::Kinetic;

use crate::scalar::Scalar;
use crate::vec2::Vec2;
use vstd::prelude::*;
use vstd::std_specs::convert::FromSpecImpl;

verus! {

/// An axis-aligned rectangle given by its top-left corner and its extent.
/// The y axis points down, so the top edge has the least y.
pub trait AxisBox {
    /// The top-left corner.
    spec fn corner(&self) -> Vec2;

    /// Width and height.
    spec fn extent(&self) -> Vec2;

    /// The share of speed kept along the axis of a collision.
    spec fn bounce(&self) -> Scalar;

    /// The share of speed lost across the axis of a collision.
    spec fn drag(&self) -> Scalar;

    fn position(&self) -> (r: Vec2)
        ensures
            r == self.corner(),
    ;

    fn size(&self) -> (r: Vec2)
        ensures
            r == self.extent(),
    ;

    fn top(&self) -> (r: Scalar)
        ensures
            r == self.corner().y,
    {
        self.position().y
    }

    fn left(&self) -> (r: Scalar)
        ensures
            r == self.corner().x,
    {
        self.position().x
    }

    fn bottom(&self) -> (r: Scalar)
        ensures
            r == self.corner().y.plus(self.extent().y),
    {
        self.position().y.add(self.size().y)
    }

    fn right(&self) -> (r: Scalar)
        ensures
            r == self.corner().x.plus(self.extent().x),
    {
        self.position().x.add(self.size().x)
    }

    fn center(&self) -> (r: Vec2)
        ensures
            r == self.corner().plus(self.extent().scaled(Scalar { raw: 500_000 })),
    {
        self.position().add(self.size().mul_scalar(Scalar::from_raw(500_000)))
    }

    fn restitution(&self) -> (r: Scalar)
        ensures
            r == self.bounce(),
    ;

    fn friction(&self) -> (r: Scalar)
        ensures
            r == self.drag(),
    ;
}

/// A body of either kind.
#[derive(Clone, Copy, Debug, PartialEq, Eq, Structural)]
pub enum Object {
    Kinetic(Kinetic),
    Fixed(Fixed),
}

impl FromSpecImpl<Kinetic> for Object {
    open spec fn obeys_from_spec() -> bool {
        true
    }

    open spec fn from_spec(k: Kinetic) -> Object {
        Object::Kinetic(k)
    }
}

impl From<Kinetic> for Object {
    fn from(k: Kinetic) -> (r: Object) {
        Object::Kinetic(k)
    }
}

impl FromSpecImpl<Fixed> for Object {
    open spec fn obeys_from_spec() -> bool {
        true
    }

    open spec fn from_spec(k: Fixed) -> Object {
        Object::Fixed(k)
    }
}

impl From<Fixed> for Object {
    fn from(k: Fixed) -> (r: Object) {
        Object::Fixed(k)
    }
}

/// Whether a box has an extent that is not negative and far edges that can
/// be represented.
pub open spec fn well_formed<B: AxisBox + ?Sized>(b: &B) -> bool {
    &&& b.extent().x.raw >= 0
    &&& b.extent().y.raw >= 0
    &&& b.corner().x.raw + b.extent().x.raw <= i64::MAX
    &&& b.corner().y.raw + b.extent().y.raw <= i64::MAX
}

/// The least y of a box.
pub open spec fn top_edge<B: AxisBox + ?Sized>(b: &B) -> Scalar {
    b.corner().y
}

/// The least x of a box.
pub open spec fn left_edge<B: AxisBox + ?Sized>(b: &B) -> Scalar {
    b.corner().x
}

/// The greatest y of a box.
pub open spec fn bottom_edge<B: AxisBox + ?Sized>(b: &B) -> Scalar {
    b.corner().y.plus(b.extent().y)
}

/// The greatest x of a box.
pub open spec fn right_edge<B: AxisBox + ?Sized>(b: &B) -> Scalar {
    b.corner().x.plus(b.extent().x)
}

/// The middle of a box.
pub open spec fn middle<B: AxisBox + ?Sized>(b: &B) -> Vec2 {
    b.corner().plus(b.extent().scaled(Scalar { raw: 500_000 }))
}

} // verus!
