//! What a collision does to a moving body, as mathematical functions.
use crate::objects::{bottom_edge, left_edge, right_edge, top_edge, AxisBox, Fixed, Kinetic};
use crate::scalar::Scalar;
use crate::vec2::Vec2;
use vstd::prelude::*;

verus! {

/// A side of an obstacle.
#[derive(Clone, Copy, Debug, PartialEq, Eq, Structural)]
pub enum Side {
    Top,
    Bottom,
    Left,
    Right,
}

/// How two moving bodies lie to each other.
#[derive(Clone, Copy, Debug, PartialEq, Eq, Structural)]
pub enum Contact {
    /// An axis separates them.
    Apart,
    /// No axis separates them, and neither reaches into the other.
    Touching,
    /// They overlap, and would answer with these coefficients.
    Overlapping { restitution: Scalar, friction: Scalar },
}

/// The distance from the mover to the given side of the obstacle, measured
/// outward: it is positive while the mover lies wholly beyond that side and
/// negative by the depth to which it has crossed it.
pub open spec fn gap<M: AxisBox, O: AxisBox>(mover: &M, obstacle: &O, side: Side) -> Scalar {
    match side {
        Side::Top => top_edge(obstacle).minus(bottom_edge(mover)),
        Side::Bottom => top_edge(mover).minus(bottom_edge(obstacle)),
        Side::Left => left_edge(obstacle).minus(right_edge(mover)),
        Side::Right => left_edge(mover).minus(right_edge(obstacle)),
    }
}

/// Whether the two boxes are apart along the vertical or the horizontal
/// axis. Boxes that share an edge are not.
pub open spec fn apart<M: AxisBox, O: AxisBox>(mover: &M, obstacle: &O) -> bool {
    ||| top_edge(obstacle).raw > bottom_edge(mover).raw
    ||| bottom_edge(obstacle).raw < top_edge(mover).raw
    ||| left_edge(obstacle).raw > right_edge(mover).raw
    ||| right_edge(obstacle).raw < left_edge(mover).raw
}

/// Whether the gap at `side` is at least as great as at each other side:
/// no side has been crossed less.
pub open spec fn greatest<M: AxisBox, O: AxisBox>(mover: &M, obstacle: &O, side: Side) -> bool {
    let g = gap(mover, obstacle, side).raw;
    &&& g >= gap(mover, obstacle, Side::Top).raw
    &&& g >= gap(mover, obstacle, Side::Bottom).raw
    &&& g >= gap(mover, obstacle, Side::Left).raw
    &&& g >= gap(mover, obstacle, Side::Right).raw
}

/// Whether the gaps at all four sides are equal.
pub open spec fn level<M: AxisBox, O: AxisBox>(mover: &M, obstacle: &O) -> bool {
    let g = gap(mover, obstacle, Side::Top).raw;
    &&& g == gap(mover, obstacle, Side::Bottom).raw
    &&& g == gap(mover, obstacle, Side::Left).raw
    &&& g == gap(mover, obstacle, Side::Right).raw
}

/// The place of a side in the order in which the sides are tried: top,
/// bottom, left, right.
pub open spec fn turn(side: Side) -> int {
    match side {
        Side::Top => 0,
        Side::Bottom => 1,
        Side::Left => 2,
        Side::Right => 3,
    }
}

/// The side of the fixed body that the moving body is pushed out of.
///
/// There is none where the boxes are apart, and none where the gaps at all
/// four sides are equal. Otherwise it is the side crossed least; where two
/// or three sides are crossed least by the same depth, it is the first of
/// them in the order top, bottom, left, right.
pub open spec fn struck_side(kin: Kinetic, fix: Fixed) -> Option<Side> {
    if apart(&kin, &fix) || level(&kin, &fix) {
        None
    } else if greatest(&kin, &fix, Side::Top) {
        Some(Side::Top)
    } else if greatest(&kin, &fix, Side::Bottom) {
        Some(Side::Bottom)
    } else if greatest(&kin, &fix, Side::Left) {
        Some(Side::Left)
    } else {
        Some(Side::Right)
    }
}

/// The factor by which a collision multiplies the speed along its axis.
pub open spec fn recoil(kin: Kinetic) -> Scalar {
    kin.restitution.negated()
}

/// The factor by which a collision with `fix` multiplies the speed across
/// its axis.
pub open spec fn slip(kin: Kinetic, fix: Fixed) -> Scalar {
    (Scalar { raw: 1_000_000 }).minus(kin.friction.max_spec(fix.friction))
}

/// The moving body after it has been resolved against one fixed body.
///
/// A body that is apart from the obstacle, or that has crossed all four
/// sides by the same depth, is left as it is. Otherwise it is set flush
/// against the struck side, its
/// speed along that axis is turned round and scaled by its restitution, and
/// its speed across is scaled down by the greater friction of the two. A
/// body set on top of the obstacle has ground contact.
pub open spec fn rebound(kin: Kinetic, fix: Fixed) -> Kinetic {
    let along_y = Vec2 {
        x: kin.velocity.x.times(slip(kin, fix)),
        y: kin.velocity.y.times(recoil(kin)),
    };
    let along_x = Vec2 {
        x: kin.velocity.x.times(recoil(kin)),
        y: kin.velocity.y.times(slip(kin, fix)),
    };
    match struck_side(kin, fix) {
        None => kin,
        Some(Side::Top) => Kinetic {
            position: Vec2 { x: kin.position.x, y: top_edge(&fix).minus(kin.size.y) },
            velocity: along_y,
            ground_contact: true,
            ..kin
        },
        Some(Side::Bottom) => Kinetic {
            position: Vec2 { x: kin.position.x, y: bottom_edge(&fix) },
            velocity: along_y,
            ..kin
        },
        Some(Side::Left) => Kinetic {
            position: Vec2 { x: left_edge(&fix).minus(kin.size.x), y: kin.position.y },
            velocity: along_x,
            ..kin
        },
        Some(Side::Right) => Kinetic {
            position: Vec2 { x: right_edge(&fix), y: kin.position.y },
            velocity: along_x,
            ..kin
        },
    }
}

/// Whether resolving against `fix` moves the body out of its place.
pub open spec fn displaced_by(kin: Kinetic, fix: Fixed) -> bool {
    rebound(kin, fix).position != kin.position
}

/// How the moving bodies `a` and `b` lie to each other.
pub open spec fn contact(a: Kinetic, b: Kinetic) -> Contact {
    if apart(&b, &a) {
        Contact::Apart
    } else if gap(&b, &a, Side::Top).raw >= 0 && gap(&b, &a, Side::Bottom).raw >= 0 && gap(
        &b,
        &a,
        Side::Left,
    ).raw >= 0 && gap(&b, &a, Side::Right).raw >= 0 {
        Contact::Touching
    } else {
        Contact::Overlapping {
            restitution: b.restitution.min_spec(a.restitution),
            friction: b.friction.max_spec(a.friction),
        }
    }
}

/// Position and speed along one axis after the body is held between zero
/// and `limit`: a body that reaches below zero is set at zero, else one
/// that reaches beyond `limit` is set to end there, and either has its speed
/// multiplied by `factor`.
pub open spec fn held(
    position: Scalar,
    extent: Scalar,
    speed: Scalar,
    limit: Scalar,
    factor: Scalar,
) -> (Scalar, Scalar) {
    if position.raw < 0 {
        (Scalar { raw: 0 }, speed.times(factor))
    } else if position.plus(extent).raw > limit.raw {
        (limit.minus(extent), speed.times(factor))
    } else {
        (position, speed)
    }
}

/// The moving body after it has been held inside the world, whose corners
/// are the origin and `world`, each axis by itself.
pub open spec fn confined(kin: Kinetic, world: Vec2) -> Kinetic {
    let (px, vx) = held(kin.position.x, kin.size.x, kin.velocity.x, world.x, recoil(kin));
    let (py, vy) = held(kin.position.y, kin.size.y, kin.velocity.y, world.y, recoil(kin));
    Kinetic { position: Vec2 { x: px, y: py }, velocity: Vec2 { x: vx, y: vy }, ..kin }
}

/// Whether the world moves the body out of its place to hold it.
pub open spec fn strays(kin: Kinetic, world: Vec2) -> bool {
    confined(kin, world).position != kin.position
}

/// The speed below which a body is taken to be at rest.
pub open spec fn rest_speed() -> Scalar {
    Scalar { raw: 2_500_000 }
}

/// `speed`, or zero where its magnitude is below the rest speed.
pub open spec fn calmed(speed: Scalar) -> Scalar {
    if speed.abs_spec().raw < rest_speed().raw {
        Scalar { raw: 0 }
    } else {
        speed
    }
}

/// The moving body with each component of its velocity calmed.
pub open spec fn settled(kin: Kinetic) -> Kinetic {
    Kinetic { velocity: Vec2 { x: calmed(kin.velocity.x), y: calmed(kin.velocity.y) }, ..kin }
}

/// The moving body after gravity has acted on it for `seconds`. A body with
/// ground contact gains no speed.
pub open spec fn pulled(kin: Kinetic, gravity: Vec2, seconds: Scalar) -> Kinetic {
    if kin.ground_contact {
        kin
    } else {
        Kinetic { velocity: kin.velocity.plus(gravity.scaled(seconds)), ..kin }
    }
}

/// The moving body after it has been resolved against each of `fixed` in
/// turn.
pub open spec fn rebound_all(kin: Kinetic, fixed: Seq<Fixed>) -> Kinetic
    decreases fixed.len(),
{
    if fixed.len() == 0 {
        kin
    } else {
        rebound(rebound_all(kin, fixed.drop_last()), fixed.last())
    }
}

/// The moving body after `count` steps of `seconds` each: in a step it
/// moves, and is then resolved against each of `fixed`.
pub open spec fn stepped(kin: Kinetic, fixed: Seq<Fixed>, seconds: Scalar, count: nat) -> Kinetic
    decreases count,
{
    if count == 0 {
        kin
    } else {
        rebound_all(stepped(kin, fixed, seconds, (count - 1) as nat).moved(seconds), fixed)
    }
}

} // verus!
