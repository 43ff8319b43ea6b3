//! Immovable obstacles.
use crate::objects::AxisBox;
use crate::scalar::Scalar;
use crate::vec2::Vec2;
use vstd::prelude::*;

verus! {

/// An obstacle that never moves.
#[derive(Clone, Copy, Debug, PartialEq, Eq, Structural)]
pub struct Fixed {
    pub position: Vec2,
    pub size: Vec2,
    pub friction: Scalar,
}

impl Fixed {
    /// An obstacle with a friction of one tenth.
    pub fn new<P: Into<Vec2>, S: Into<Vec2>>(position: P, size: S) -> (r: Fixed)
        ensures
            call_ensures(P::into, (position,), r.position),
            call_ensures(S::into, (size,), r.size),
            r.friction@ == 100_000,
    {
        Fixed { position: position.into(), size: size.into(), friction: Scalar::from_raw(100_000) }
    }
}

impl AxisBox for Fixed {
    open spec fn corner(&self) -> Vec2 {
        self.position
    }

    open spec fn extent(&self) -> Vec2 {
        self.size
    }

    open spec fn bounce(&self) -> Scalar {
        Scalar { raw: 1_000_000 }
    }

    open spec fn drag(&self) -> Scalar {
        self.friction
    }

    fn position(&self) -> (r: Vec2) {
        self.position
    }

    fn size(&self) -> (r: Vec2) {
        self.size
    }

    fn restitution(&self) -> (r: Scalar) {
        Scalar::one()
    }

    fn friction(&self) -> (r: Scalar) {
        self.friction
    }
}

} // verus!
