//! Moving bodies.
use crate::clock::{nanos_in, seconds, seconds_of};
use crate::objects::AxisBox;
use crate::scalar::Scalar;
use crate::vec2::Vec2;
use crate::Tick;
use core::time::Duration;
use vstd::prelude::*;

verus! {

/// A body that moves: its box, its velocity in units per second, and how it
/// answers a collision.
#[derive(Clone, Copy, Debug, PartialEq, Eq, Structural)]
pub struct Kinetic {
    pub position: Vec2,
    pub size: Vec2,
    /// Whether the body came to stand on an obstacle since it last moved.
    pub ground_contact: bool,
    pub velocity: Vec2,
    pub mass: Scalar,
    pub restitution: Scalar,
    pub friction: Scalar,
}

/// `v`, brought nearer to zero by `by` where it is positive and raised by
/// `by` where it is not.
pub open spec fn slowed(v: Scalar, by: Scalar) -> Scalar {
    if v.raw > 0 {
        v.minus(by)
    } else {
        v.plus(by)
    }
}

impl Kinetic {
    /// The body at rest with the given box, of mass one, perfectly elastic
    /// and without friction.
    pub open spec fn resting(position: Vec2, size: Vec2) -> Kinetic {
        Kinetic::launched(position, size, Vec2::origin())
    }

    /// The body with the given box and velocity, of mass one, perfectly
    /// elastic and without friction.
    pub open spec fn launched(position: Vec2, size: Vec2, velocity: Vec2) -> Kinetic {
        Kinetic {
            position,
            size,
            ground_contact: false,
            velocity,
            mass: Scalar { raw: 1_000_000 },
            restitution: Scalar { raw: 1_000_000 },
            friction: Scalar { raw: 0 },
        }
    }

    /// The body after it has moved for `seconds` at its velocity. Moving
    /// lifts it off the ground.
    pub open spec fn moved(self, seconds: Scalar) -> Kinetic {
        Kinetic {
            position: self.position.plus(self.velocity.scaled(seconds)),
            ground_contact: false,
            ..self
        }
    }

    /// A body at rest.
    pub fn new<P: Into<Vec2>, S: Into<Vec2>>(position: P, size: S) -> (r: Kinetic)
        ensures
            call_ensures(P::into, (position,), r.position),
            call_ensures(S::into, (size,), r.size),
            r == Kinetic::resting(r.position, r.size),
    {
        Kinetic::with_velocity(position, size, Vec2::default())
    }

    /// A body in motion.
    pub fn with_velocity<P: Into<Vec2>, S: Into<Vec2>, V: Into<Vec2>>(
        position: P,
        size: S,
        velocity: V,
    ) -> (r: Kinetic)
        ensures
            call_ensures(P::into, (position,), r.position),
            call_ensures(S::into, (size,), r.size),
            call_ensures(V::into, (velocity,), r.velocity),
            r == Kinetic::launched(r.position, r.size, r.velocity),
    {
        Kinetic {
            position: position.into(),
            size: size.into(),
            ground_contact: false,
            velocity: velocity.into(),
            mass: Scalar::one(),
            restitution: Scalar::one(),
            friction: Scalar::zero(),
        }
    }

    /// The restitution, to be set.
    pub fn restitution_mut(&mut self) -> (r: &mut Scalar)
        ensures
            *r == old(self).restitution,
            *final(self) == (Kinetic { restitution: *final(r), ..*old(self) }),
    {
        &mut self.restitution
    }

    /// The mass, to be set.
    pub fn mass_mut(&mut self) -> (r: &mut Scalar)
        ensures
            *r == old(self).mass,
            *final(self) == (Kinetic { mass: *final(r), ..*old(self) }),
    {
        &mut self.mass
    }

    /// Takes `v` off the speed of a body that moves right and down, and adds
    /// it to the velocity of one that does not, each axis by itself.
    pub fn smallen_velocity(&mut self, v: Vec2)
        ensures
            *final(self) == (Kinetic {
                velocity: Vec2 {
                    x: slowed(old(self).velocity.x, v.x),
                    y: slowed(old(self).velocity.y, v.y),
                },
                ..*old(self)
            }),
    {
        if self.velocity.x.raw > 0 {
            self.velocity.x = self.velocity.x.sub(v.x);
        } else {
            self.velocity.x = self.velocity.x.add(v.x);
        }
        if self.velocity.y.raw > 0 {
            self.velocity.y = self.velocity.y.sub(v.y);
        } else {
            self.velocity.y = self.velocity.y.add(v.y);
        }
    }

    /// Moves the body for `seconds` at its velocity.
    pub fn integrate(&mut self, seconds: Scalar)
        ensures
            *final(self) == old(self).moved(seconds),
    {
        self.ground_contact = false;
        let movement = self.velocity.mul_scalar(seconds);
        self.position = self.position.add(movement);
    }
}

impl Tick for Kinetic {
    /// Moves the body for `delta` at its velocity.
    fn tick(&mut self, delta: Duration)
        ensures
            *final(self) == old(self).moved(seconds_of(nanos_in(delta))),
    {
        self.integrate(seconds(delta));
    }
}

impl AxisBox for Kinetic {
    open spec fn corner(&self) -> Vec2 {
        self.position
    }

    open spec fn extent(&self) -> Vec2 {
        self.size
    }

    open spec fn bounce(&self) -> Scalar {
        self.restitution
    }

    open spec fn drag(&self) -> Scalar {
        self.friction
    }

    fn position(&self) -> (r: Vec2) {
        self.position
    }

    fn size(&self) -> (r: Vec2) {
        self.size
    }

    fn restitution(&self) -> (r: Scalar) {
        self.restitution
    }

    fn friction(&self) -> (r: Scalar) {
        self.friction
    }
}

} // verus!
