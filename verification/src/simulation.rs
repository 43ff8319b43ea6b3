//! The world: its bounds, its gravity and its bodies, and how a tick moves
//! them.
use crate::clock::{nanos_in, seconds_from_nanos, seconds_of};
use crate::collision::{
    apart, confined, contact, greatest, level, pulled, rebound, rebound_all, settled, stepped,
    struck_side,
    Contact, Side,
};
use crate::objects::{top_edge, AxisBox, Fixed, Kinetic, Object};
use crate::scalar::Scalar;
use crate::vec2::Vec2;
use crate::Tick;
use core::time::Duration;
use vstd::prelude::*;

verus! {

/// A world of moving and fixed bodies. Moving bodies keep their index, and
/// are advanced in the order of their indices.
pub struct Simulation {
    /// The corner of the world opposite the origin.
    pub world_bounds: Vec2,
    /// The speed that a falling body gains in a second.
    pub gravity: Vec2,
    pub kinetic: Vec<Kinetic>,
    pub fixed: Vec<Fixed>,
}

/// A simulation as a mathematical value.
pub struct World {
    pub world_bounds: Vec2,
    pub gravity: Vec2,
    pub kinetic: Seq<Kinetic>,
    pub fixed: Seq<Fixed>,
}

impl View for Simulation {
    type V = World;

    open spec fn view(&self) -> World {
        World {
            world_bounds: self.world_bounds,
            gravity: self.gravity,
            kinetic: self.kinetic@,
            fixed: self.fixed@,
        }
    }
}

/// The number of steps into which a tick is cut.
pub open spec fn steps_per_tick() -> nat {
    10
}

/// A moving body after the steps of one tick of `nanos` nanoseconds among
/// the given obstacles: gravity acts once, for the whole tick, and the body
/// then takes ten steps of a tenth of the tick each.
pub open spec fn stepped_through(
    kin: Kinetic,
    fixed: Seq<Fixed>,
    gravity: Vec2,
    nanos: nat,
) -> Kinetic {
    stepped(
        pulled(kin, gravity, seconds_of(nanos)),
        fixed,
        seconds_of(nanos / 10),
        steps_per_tick(),
    )
}

/// A moving body after one tick of `nanos` nanoseconds in a world with the
/// given obstacles, gravity and bounds: after its steps it is held inside
/// the world, and settled.
pub open spec fn ticked_body(
    kin: Kinetic,
    fixed: Seq<Fixed>,
    gravity: Vec2,
    world: Vec2,
    nanos: nat,
) -> Kinetic {
    settled(confined(stepped_through(kin, fixed, gravity, nanos), world))
}

/// One where the moving bodies `a` and `b` touch, and nothing where they
/// do not.
pub open spec fn touching(a: Kinetic, b: Kinetic) -> nat {
    if contact(a, b) == Contact::Touching {
        1
    } else {
        0
    }
}

/// The number of bodies among `others` that `kin` touches, the one at
/// `skip` left out.
pub open spec fn touches(kin: Kinetic, others: Seq<Kinetic>, skip: int) -> nat
    decreases others.len(),
{
    if others.len() == 0 {
        0
    } else if others.len() - 1 == skip {
        touches(kin, others.drop_last(), skip)
    } else {
        touches(kin, others.drop_last(), skip) + touching(kin, others.last())
    }
}

/// The number of touches that a body meets in its first `count` steps of
/// `seconds` each: after each step it is held against `others`, the one at
/// `skip` left out.
pub open spec fn touches_in_steps(
    start: Kinetic,
    fixed: Seq<Fixed>,
    seconds: Scalar,
    others: Seq<Kinetic>,
    skip: int,
    count: nat,
) -> nat
    decreases count,
{
    if count == 0 {
        0
    } else {
        touches_in_steps(start, fixed, seconds, others, skip, (count - 1) as nat) + touches(
            stepped(start, fixed, seconds, count),
            others,
            skip,
        )
    }
}

/// `n`, or the greatest count that can be told where `n` is greater.
pub open spec fn capped(n: nat) -> u64 {
    if n > u64::MAX {
        u64::MAX
    } else {
        n as u64
    }
}

impl World {
    /// The empty world with the given bounds, where a falling body gains
    /// 450 units of speed in a second.
    pub open spec fn empty(world_bounds: Vec2) -> World {
        World {
            world_bounds,
            gravity: Vec2 { x: Scalar { raw: 0 }, y: Scalar { raw: 450_000_000 } },
            kinetic: Seq::empty(),
            fixed: Seq::empty(),
        }
    }

    /// The world with `object` added behind the bodies of its kind.
    pub open spec fn with(self, object: Object) -> World {
        match object {
            Object::Kinetic(k) => World { kinetic: self.kinetic.push(k), ..self },
            Object::Fixed(f) => World { fixed: self.fixed.push(f), ..self },
        }
    }

    /// The world while a tick of `nanos` nanoseconds is under way: the
    /// first `done` moving bodies are advanced, the others not yet.
    pub open spec fn ticked_to(self, nanos: nat, done: nat) -> World {
        World {
            kinetic: Seq::new(
                self.kinetic.len(),
                |i: int|
                    if i < done {
                        ticked_body(
                            self.kinetic[i],
                            self.fixed,
                            self.gravity,
                            self.world_bounds,
                            nanos,
                        )
                    } else {
                        self.kinetic[i]
                    },
            ),
            ..self
        }
    }

    /// The number of touches that the first `done` moving bodies meet in a
    /// tick of `nanos` nanoseconds. The bodies are advanced in their order,
    /// and each is held, after each of its steps, against the others as
    /// they are then: those before it advanced, those behind it not yet.
    pub open spec fn touches_met(self, nanos: nat, done: nat) -> nat
        decreases done,
    {
        if done == 0 {
            0
        } else {
            let index = (done - 1) as nat;
            self.touches_met(nanos, index) + touches_in_steps(
                pulled(self.kinetic[index as int], self.gravity, seconds_of(nanos)),
                self.fixed,
                seconds_of(nanos / 10),
                self.ticked_to(nanos, index).kinetic,
                index as int,
                steps_per_tick(),
            )
        }
    }

    /// The world after a tick of `nanos` nanoseconds: each moving body is
    /// advanced by itself, and nothing else changes.
    pub open spec fn ticked(self, nanos: nat) -> World {
        World {
            kinetic: Seq::new(
                self.kinetic.len(),
                |i: int|
                    ticked_body(
                        self.kinetic[i],
                        self.fixed,
                        self.gravity,
                        self.world_bounds,
                        nanos,
                    ),
            ),
            ..self
        }
    }
}

impl Simulation {
    /// An empty world with the given bounds and the usual gravity.
    pub fn new<B: Into<Vec2>>(world_bounds: B) -> (r: Simulation)
        ensures
            call_ensures(B::into, (world_bounds,), r.world_bounds),
            r@ == World::empty(r.world_bounds),
    {
        Simulation {
            world_bounds: world_bounds.into(),
            gravity: Vec2::new(Scalar::zero(), Scalar::from_int(450)),
            kinetic: Vec::new(),
            fixed: Vec::new(),
        }
    }

    /// Adds a body behind the others of its kind.
    pub fn add_object<T: Into<Object>>(&mut self, object: T)
        ensures
            exists|o: Object|
                call_ensures(T::into, (object,), o) && final(self)@ == old(self)@.with(o),
    {
        let o: Object = object.into();
        match o {
            Object::Kinetic(k) => self.kinetic.push(k),
            Object::Fixed(f) => self.fixed.push(f),
        }
        assert(self@ == old(self)@.with(o));
    }

    /// Holds a moving body inside the world.
    pub fn kinetic_world(kinetic: &mut Kinetic, world: Vec2)
        ensures
            *final(kinetic) == confined(*old(kinetic), world),
    {
        if kinetic.top().raw < 0 {
            kinetic.velocity.y = kinetic.velocity.y.mul(kinetic.restitution.neg());
            kinetic.position.y = Scalar::zero();
        } else if kinetic.bottom().raw > world.y.raw {
            kinetic.velocity.y = kinetic.velocity.y.mul(kinetic.restitution.neg());
            kinetic.position.y = world.y.sub(kinetic.size.y);
        }
        if kinetic.left().raw < 0 {
            kinetic.velocity.x = kinetic.velocity.x.mul(kinetic.restitution.neg());
            kinetic.position.x = Scalar::zero();
        } else if kinetic.right().raw > world.x.raw {
            kinetic.velocity.x = kinetic.velocity.x.mul(kinetic.restitution.neg());
            kinetic.position.x = world.x.sub(kinetic.size.x);
        }
    }

    /// Resolves a moving body against a fixed one.
    pub fn kinetic_fixed(kin: &mut Kinetic, fix: &Fixed)
        ensures
            *final(kin) == rebound(*old(kin), *fix),
            apart(old(kin), fix) ==> *final(kin) == *old(kin),
            !apart(old(kin), fix) && !level(old(kin), fix) && greatest(old(kin), fix, Side::Top)
                ==> {
                &&& final(kin).position.x == old(kin).position.x
                &&& final(kin).position.y == top_edge(fix).minus(old(kin).size.y)
            },
            final(kin).ground_contact == (old(kin).ground_contact || struck_side(
                *old(kin),
                *fix,
            ) == Some(Side::Top)),
    {
        let vertical_is_separate = fix.top().raw > kin.bottom().raw || fix.bottom().raw
            < kin.top().raw;
        let horizontal_is_separate = fix.left().raw > kin.right().raw || fix.right().raw
            < kin.left().raw;

        if vertical_is_separate || horizontal_is_separate {
            return ;
        }
        let top = fix.top().sub(kin.bottom());
        let bottom = kin.top().sub(fix.bottom());
        let left = fix.left().sub(kin.right());
        let right = kin.left().sub(fix.right());
        let friction = kin.friction().max(fix.friction());
        let slip = Scalar::one().sub(friction);
        let recoil = kin.restitution.neg();

        // Of sides crossed by the same depth the first wins; where all four
        // are, none does.
        let level = top.raw == bottom.raw && top.raw == left.raw && top.raw == right.raw;
        if level {
            return ;
        }
        if top.raw >= bottom.raw && top.raw >= left.raw && top.raw >= right.raw {
            kin.position.y = fix.top().sub(kin.size.y);
            kin.velocity.y = kin.velocity.y.mul(recoil);
            kin.velocity.x = kin.velocity.x.mul(slip);
            kin.ground_contact = true;
        } else if bottom.raw > top.raw && bottom.raw >= left.raw && bottom.raw >= right.raw {
            kin.position.y = fix.bottom();
            kin.velocity.y = kin.velocity.y.mul(recoil);
            kin.velocity.x = kin.velocity.x.mul(slip);
        } else if left.raw > top.raw && left.raw > bottom.raw && left.raw >= right.raw {
            kin.position.x = fix.left().sub(kin.size.x);
            kin.velocity.x = kin.velocity.x.mul(recoil);
            kin.velocity.y = kin.velocity.y.mul(slip);
        } else if right.raw > bottom.raw && right.raw > top.raw && right.raw > left.raw {
            kin.position.x = fix.right();
            kin.velocity.x = kin.velocity.x.mul(recoil);
            kin.velocity.y = kin.velocity.y.mul(slip);
        }
    }

    /// Tells how two moving bodies lie to each other. Neither is changed:
    /// moving bodies pass through one another.
    pub fn kinetic_kinetic(kin_a: &mut Kinetic, kin_b: &mut Kinetic) -> (r: Contact)
        ensures
            r == contact(*old(kin_a), *old(kin_b)),
            *final(kin_a) == *old(kin_a),
            *final(kin_b) == *old(kin_b),
    {
        let vertical_is_separate = kin_a.top().raw > kin_b.bottom().raw || kin_a.bottom().raw
            < kin_b.top().raw;
        let horizontal_is_separate = kin_a.left().raw > kin_b.right().raw || kin_a.right().raw
            < kin_b.left().raw;

        if vertical_is_separate || horizontal_is_separate {
            return Contact::Apart;
        }
        let top = kin_a.top().sub(kin_b.bottom());
        let bottom = kin_b.top().sub(kin_a.bottom());
        let left = kin_a.left().sub(kin_b.right());
        let right = kin_b.left().sub(kin_a.right());

        if top.raw >= 0 && bottom.raw >= 0 && left.raw >= 0 && right.raw >= 0 {
            return Contact::Touching;
        }
        let restitution = kin_b.restitution().min(kin_a.restitution());
        let friction = kin_b.friction().max(kin_a.friction());
        Contact::Overlapping { restitution, friction }
    }
}

impl Simulation {
    /// Resolves a moving body against every fixed body, in their order.
    fn against_fixed(&self, kinetic: &mut Kinetic)
        ensures
            *final(kinetic) == rebound_all(*old(kinetic), self.fixed@),
    {
        let mut at: usize = 0;
        while at < self.fixed.len()
            invariant
                at <= self.fixed.len(),
                *kinetic == rebound_all(*old(kinetic), self.fixed@.take(at as int)),
            decreases self.fixed.len() - at,
        {
            assert(self.fixed@.take(at + 1).drop_last() =~= self.fixed@.take(at as int));
            Self::kinetic_fixed(kinetic, &self.fixed[at]);
            at += 1;
        }
        assert(self.fixed@.take(at as int) =~= self.fixed@);
    }

    /// Holds a moving body against every other one, and tells how many of
    /// them it touches. The body at `index` is the one that `kinetic` was
    /// copied from. Nothing is changed.
    fn against_kinetic(&mut self, index: usize, kinetic: &mut Kinetic) -> (met: u64)
        ensures
            *final(kinetic) == *old(kinetic),
            final(self)@ == old(self)@,
            met == capped(touches(*old(kinetic), old(self)@.kinetic, index as int)),
    {
        let mut met: u64 = 0;
        let mut at: usize = 0;
        while at < self.kinetic.len()
            invariant
                at <= self.kinetic.len(),
                *kinetic == *old(kinetic),
                self@ == old(self)@,
                met == capped(touches(*kinetic, self@.kinetic.take(at as int), index as int)),
            decreases self.kinetic.len() - at,
        {
            proof {
                assert(self@.kinetic.take(at + 1).drop_last() =~= self@.kinetic.take(at as int));
            }
            if at != index {
                let mut other = self.kinetic[at];
                let found = Self::kinetic_kinetic(kinetic, &mut other);
                self.kinetic.set(at, other);
                assert(self.kinetic@ =~= old(self).kinetic@);
                if matches!(found, Contact::Touching) {
                    met = met.saturating_add(1);
                }
            }
            at += 1;
        }
        proof {
            assert(self@.kinetic.take(at as int) =~= self@.kinetic);
        }
        met
    }

    /// Advances every moving body by one tick of `nanos` nanoseconds, and
    /// tells how many touches the bodies met on the way.
    pub fn advance(&mut self, nanos: u128) -> (met: u64)
        ensures
            final(self)@ == old(self)@.ticked(nanos as nat),
            met == capped(old(self)@.touches_met(nanos as nat, old(self)@.kinetic.len())),
    {
        let whole = seconds_from_nanos(nanos);
        let tenth = seconds_from_nanos(nanos / 10);
        let ghost before = self@;
        let ghost after = before.ticked(nanos as nat);
        let mut met: u64 = 0;
        let mut index: usize = 0;
        while index < self.kinetic.len()
            invariant
                index <= self.kinetic.len(),
                self@.world_bounds == before.world_bounds,
                self@.gravity == before.gravity,
                self@.fixed == before.fixed,
                self@.kinetic.len() == before.kinetic.len(),
                whole == seconds_of(nanos as nat),
                tenth == seconds_of((nanos / 10) as nat),
                after == before.ticked(nanos as nat),
                forall|j: int| 0 <= j < index ==> self@.kinetic[j] == after.kinetic[j],
                forall|j: int|
                    index <= j < self@.kinetic.len() ==> self@.kinetic[j] == before.kinetic[j],
                met == capped(before.touches_met(nanos as nat, index as nat)),
            decreases self.kinetic.len() - index,
        {
            let ghost others = self@.kinetic;
            proof {
                let so_far = before.ticked_to(nanos as nat, index as nat).kinetic;
                assert forall|j: int| 0 <= j < others.len() implies others[j] == so_far[j] by {
                    if j < index {
                        assert(others[j] == after.kinetic[j]);
                    } else {
                        assert(others[j] == before.kinetic[j]);
                    }
                }
                assert(others =~= so_far);
            }
            let mut kinetic = self.kinetic[index];
            // A body that stands on something is not pulled further down.
            if !kinetic.ground_contact {
                kinetic.velocity = kinetic.velocity.add(self.gravity.mul_scalar(whole));
            }
            let ghost start = kinetic;
            let mut met_by_body: u64 = 0;
            let mut step: usize = 0;
            while step < 10
                invariant
                    step <= 10,
                    index < self.kinetic.len(),
                    self@.world_bounds == before.world_bounds,
                    self@.gravity == before.gravity,
                    self@.fixed == before.fixed,
                    self@.kinetic == others,
                    kinetic == stepped(start, before.fixed, tenth, step as nat),
                    met_by_body == capped(
                        touches_in_steps(
                            start,
                            before.fixed,
                            tenth,
                            others,
                            index as int,
                            step as nat,
                        ),
                    ),
                decreases 10 - step,
            {
                kinetic.integrate(tenth);
                self.against_fixed(&mut kinetic);
                let met_in_step = self.against_kinetic(index, &mut kinetic);
                met_by_body = met_by_body.saturating_add(met_in_step);
                step += 1;
            }
            met = met.saturating_add(met_by_body);
            Self::kinetic_world(&mut kinetic, self.world_bounds);
            // A body that barely moves is brought to rest.
            let wiggle = Scalar::from_raw(2_500_000);
            if kinetic.velocity.x.abs().raw < wiggle.raw {
                kinetic.velocity.x = Scalar::zero();
            }
            if kinetic.velocity.y.abs().raw < wiggle.raw {
                kinetic.velocity.y = Scalar::zero();
            }
            self.kinetic.set(index, kinetic);
            index += 1;
        }
        assert(self@.kinetic =~= after.kinetic);
        met
    }
}

impl Tick for Simulation {
    /// Advances every moving body by one tick of the length of
    /// `since_last_frame`. The touches met are not told.
    fn tick(&mut self, since_last_frame: Duration)
        ensures
            final(self)@ == old(self)@.ticked(nanos_in(since_last_frame)),
    {
        let _ = self.advance(since_last_frame.as_nanos());
    }
}

} // verus!
