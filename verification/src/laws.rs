//! What holds of every body and every world.
use crate::collision::{
    apart, calmed, confined, displaced_by, gap, greatest, level, pulled, rebound, rebound_all,
    recoil, slip, stepped, strays, struck_side, turn, Side,
};
use crate::clock::seconds_of;
use crate::objects::{
    bottom_edge, left_edge, middle, right_edge, top_edge, well_formed, AxisBox, Fixed, Kinetic,
};
use crate::scalar::{quotient_toward_zero, Scalar, UNIT};
use crate::simulation::{stepped_through, steps_per_tick, ticked_body, World};
use crate::vec2::Vec2;
use vstd::prelude::*;

verus! {

/// What the accessors of a box returned when each was called once.
pub struct Reading {
    pub position: Vec2,
    pub size: Vec2,
    pub top: Scalar,
    pub left: Scalar,
    pub bottom: Scalar,
    pub right: Scalar,
    pub center: Vec2,
    pub restitution: Scalar,
    pub friction: Scalar,
}

/// Whether `reading` is what the accessors may return for `b`.
pub open spec fn read_from<B: AxisBox>(b: &B, reading: Reading) -> bool {
    &&& call_ensures(B::position, (b,), reading.position)
    &&& call_ensures(B::size, (b,), reading.size)
    &&& call_ensures(B::top, (b,), reading.top)
    &&& call_ensures(B::left, (b,), reading.left)
    &&& call_ensures(B::bottom, (b,), reading.bottom)
    &&& call_ensures(B::right, (b,), reading.right)
    &&& call_ensures(B::center, (b,), reading.center)
    &&& call_ensures(B::restitution, (b,), reading.restitution)
    &&& call_ensures(B::friction, (b,), reading.friction)
}

/// Reading a box twice gives the same values twice: the accessors depend
/// on nothing but the box, and leave it as it is.
pub proof fn reading_twice_agrees<B: AxisBox>(b: &B, first: Reading, second: Reading)
    requires
        read_from(b, first),
        read_from(b, second),
    ensures
        first == second,
        first.top == top_edge(b),
        first.left == left_edge(b),
        first.bottom == bottom_edge(b),
        first.right == right_edge(b),
        first.center == middle(b),
        first.restitution == b.bounce(),
        first.friction == b.drag(),
{
}

/// Whether `k` is `kin` at rest: the same box and the same coefficients,
/// with no velocity.
spec fn at_rest_like(k: Kinetic, kin: Kinetic) -> bool {
    &&& k.position == kin.position
    &&& k.size == kin.size
    &&& k.velocity == Vec2::origin()
    &&& k.mass == kin.mass
    &&& k.restitution == kin.restitution
    &&& k.friction == kin.friction
}

/// Zero times anything is zero.
proof fn lemma_zero_times(factor: Scalar)
    ensures
        (Scalar { raw: 0 }).times(factor) == (Scalar { raw: 0 }),
{
    assert(0 * factor.raw == 0) by (nonlinear_arith);
    assert(0int / (UNIT as int) == 0);
}

/// Resolving a body at rest against a fixed body that does not move it
/// leaves it at rest, and gives it ground contact where it is set on top.
proof fn lemma_rebound_keeps_rest(k: Kinetic, kin: Kinetic, fix: Fixed)
    requires
        at_rest_like(k, kin),
        !displaced_by(kin, fix),
    ensures
        at_rest_like(rebound(k, fix), kin),
        rebound(k, fix).ground_contact == (k.ground_contact || struck_side(kin, fix) == Some(
            Side::Top,
        )),
{
    assert(struck_side(k, fix) == struck_side(kin, fix));
    lemma_zero_times(recoil(k));
    lemma_zero_times(slip(k, fix));
}

proof fn lemma_stepped_keeps_rest(
    k: Kinetic,
    kin: Kinetic,
    fixed: Seq<Fixed>,
    seconds: Scalar,
    count: nat,
)
    requires
        at_rest_like(k, kin),
        forall|i: int| 0 <= i < fixed.len() ==> !displaced_by(kin, #[trigger] fixed[i]),
    ensures
        at_rest_like(stepped(k, fixed, seconds, count), kin),
    decreases count,
{
    if count > 0 {
        lemma_stepped_keeps_rest(k, kin, fixed, seconds, (count - 1) as nat);
        let before = stepped(k, fixed, seconds, (count - 1) as nat);
        lemma_zero_times(seconds);
        assert(at_rest_like(before.moved(seconds), kin));
        lemma_rebound_all_contact(before.moved(seconds), kin, fixed);
    }
}

/// A body without velocity that gravity does not act on, because there is
/// none or because the body stands, stays where it is through a tick,
/// however long, if no fixed body moves it out of its place and the world
/// does not either.
pub proof fn still_body_stays(
    kin: Kinetic,
    fixed: Seq<Fixed>,
    gravity: Vec2,
    world: Vec2,
    nanos: nat,
)
    requires
        kin.velocity == Vec2::origin(),
        gravity == Vec2::origin() || kin.ground_contact,
        forall|i: int| 0 <= i < fixed.len() ==> !displaced_by(kin, #[trigger] fixed[i]),
        !strays(kin, world),
    ensures
        ticked_body(kin, fixed, gravity, world, nanos).position == kin.position,
        ticked_body(kin, fixed, gravity, world, nanos).velocity == Vec2::origin(),
{
    let start = pulled(kin, gravity, seconds_of(nanos));
    lemma_zero_times(seconds_of(nanos));
    assert(at_rest_like(start, kin));
    lemma_stepped_keeps_rest(start, kin, fixed, seconds_of(nanos / 10), steps_per_tick());
    let swept = stepped_through(kin, fixed, gravity, nanos);
    lemma_zero_times(recoil(swept));
}

/// In a world without gravity, a tick leaves every body without velocity
/// in its place, if no fixed body moves it out of its place and the world
/// does not either.
pub proof fn still_bodies_stay(world: World, index: int, nanos: nat)
    requires
        0 <= index < world.kinetic.len(),
        world.gravity == Vec2::origin(),
        world.kinetic[index].velocity == Vec2::origin(),
        forall|i: int|
            0 <= i < world.fixed.len() ==> !displaced_by(
                world.kinetic[index],
                #[trigger] world.fixed[i],
            ),
        !strays(world.kinetic[index], world.world_bounds),
    ensures
        world.ticked(nanos).kinetic[index].position == world.kinetic[index].position,
        world.ticked(nanos).kinetic[index].velocity == Vec2::origin(),
{
    still_body_stays(world.kinetic[index], world.fixed, world.gravity, world.world_bounds, nanos);
}

/// Whether the body is set on top of the fixed body when it is resolved
/// against it.
pub open spec fn on_top(kin: Kinetic, fix: Fixed) -> bool {
    struck_side(kin, fix) == Some(Side::Top)
}

/// Whether the body is set on top of one of the fixed bodies when it is
/// resolved against it.
pub open spec fn stands_on_one(kin: Kinetic, fixed: Seq<Fixed>) -> bool {
    exists|i: int| 0 <= i < fixed.len() && on_top(kin, #[trigger] fixed[i])
}

proof fn lemma_rebound_all_contact(k: Kinetic, kin: Kinetic, fixed: Seq<Fixed>)
    requires
        at_rest_like(k, kin),
        forall|i: int| 0 <= i < fixed.len() ==> !displaced_by(kin, #[trigger] fixed[i]),
    ensures
        at_rest_like(rebound_all(k, fixed), kin),
        rebound_all(k, fixed).ground_contact == (k.ground_contact || stands_on_one(kin, fixed)),
    decreases fixed.len(),
{
    if fixed.len() > 0 {
        let front = fixed.drop_last();
        lemma_rebound_all_contact(k, kin, front);
        lemma_rebound_keeps_rest(rebound_all(k, front), kin, fixed.last());
        lemma_stands_on_one_more(kin, fixed);
    }
}

/// A body stands on one of some fixed bodies if it stands on the last of
/// them or on one of the others.
proof fn lemma_stands_on_one_more(kin: Kinetic, fixed: Seq<Fixed>)
    requires
        fixed.len() > 0,
    ensures
        stands_on_one(kin, fixed) == (stands_on_one(kin, fixed.drop_last()) || on_top(
            kin,
            fixed.last(),
        )),
{
    let front = fixed.drop_last();
    if stands_on_one(kin, front) {
        let i = choose|i: int| 0 <= i < front.len() && on_top(kin, #[trigger] front[i]);
        assert(fixed[i] == front[i]);
    }
    if on_top(kin, fixed.last()) {
        assert(fixed[fixed.len() - 1] == fixed.last());
    }
    if stands_on_one(kin, fixed) {
        let i = choose|i: int| 0 <= i < fixed.len() && on_top(kin, #[trigger] fixed[i]);
        if i < front.len() {
            assert(front[i] == fixed[i]);
        }
    }
}

/// Rest lasts: a body without velocity that stands on a fixed body, and
/// that neither a fixed body nor the world moves out of its place, is in
/// the same place after a tick, still without velocity and still standing,
/// whatever the gravity and however long the tick.
pub proof fn rest_lasts(kin: Kinetic, fixed: Seq<Fixed>, gravity: Vec2, world: Vec2, nanos: nat)
    requires
        kin.velocity == Vec2::origin(),
        kin.ground_contact,
        stands_on_one(kin, fixed),
        forall|i: int| 0 <= i < fixed.len() ==> !displaced_by(kin, #[trigger] fixed[i]),
        !strays(kin, world),
    ensures
        ticked_body(kin, fixed, gravity, world, nanos) == kin,
{
    let dt = seconds_of(nanos / 10);
    let start = pulled(kin, gravity, seconds_of(nanos));
    let last = (steps_per_tick() - 1) as nat;
    let before = stepped(start, fixed, dt, last);
    lemma_stepped_keeps_rest(start, kin, fixed, dt, last);
    lemma_zero_times(dt);
    lemma_rebound_all_contact(before.moved(dt), kin, fixed);
    let swept = stepped_through(kin, fixed, gravity, nanos);
    assert(swept == rebound_all(before.moved(dt), fixed));
    lemma_zero_times(recoil(swept));
}

/// The world leaves a body alone that lies inside it.
pub proof fn body_inside_is_left_alone(kin: Kinetic, world: Vec2)
    requires
        inside(kin, world),
    ensures
        confined(kin, world) == kin,
        !strays(kin, world),
{
}

/// Whether the body lies inside the world.
pub open spec fn inside(kin: Kinetic, world: Vec2) -> bool {
    &&& top_edge(&kin).raw >= 0
    &&& left_edge(&kin).raw >= 0
    &&& bottom_edge(&kin).raw <= world.y.raw
    &&& right_edge(&kin).raw <= world.x.raw
}

/// Whether a body of the given size has room in the world.
pub open spec fn has_room(size: Vec2, world: Vec2) -> bool {
    &&& 0 <= size.x.raw <= world.x.raw
    &&& 0 <= size.y.raw <= world.y.raw
}

/// A body that has room in the world lies inside it once it has been held.
pub proof fn held_body_is_inside(kin: Kinetic, world: Vec2)
    requires
        has_room(kin.size, world),
    ensures
        inside(confined(kin, world), world),
{
}

/// A body that has room in the world lies inside it at the end of every
/// tick.
pub proof fn tick_ends_inside(
    kin: Kinetic,
    fixed: Seq<Fixed>,
    gravity: Vec2,
    world: Vec2,
    nanos: nat,
)
    requires
        has_room(kin.size, world),
    ensures
        inside(ticked_body(kin, fixed, gravity, world, nanos), world),
{
    lemma_stepped_keeps_shape(
        pulled(kin, gravity, seconds_of(nanos)),
        fixed,
        seconds_of(nanos / 10),
        steps_per_tick(),
    );
    held_body_is_inside(stepped_through(kin, fixed, gravity, nanos), world);
}

/// A body that reaches below the floor of the world, and not above its
/// ceiling, is set to stand on the floor, and its vertical speed is
/// multiplied by its restitution and turned round.
pub proof fn floor_holds_body(kin: Kinetic, world: Vec2)
    requires
        kin.size.y.raw >= 0,
        world.y.raw >= 0,
        top_edge(&kin).raw >= 0,
        bottom_edge(&kin).raw > world.y.raw,
    ensures
        bottom_edge(&confined(kin, world)) == world.y,
        confined(kin, world).velocity.y == kin.velocity.y.times(kin.restitution.negated()),
{
}

/// A body that ends the steps of a tick below the floor of the world, and
/// not above its ceiling, ends the tick standing on the floor, with the
/// vertical speed it had multiplied by its restitution, turned round, and
/// calmed.
pub proof fn tick_ends_on_floor(
    kin: Kinetic,
    fixed: Seq<Fixed>,
    gravity: Vec2,
    world: Vec2,
    nanos: nat,
)
    requires
        kin.size.y.raw >= 0,
        world.y.raw >= 0,
        top_edge(&stepped_through(kin, fixed, gravity, nanos)).raw >= 0,
        bottom_edge(&stepped_through(kin, fixed, gravity, nanos)).raw > world.y.raw,
    ensures
        bottom_edge(&ticked_body(kin, fixed, gravity, world, nanos)) == world.y,
        ticked_body(kin, fixed, gravity, world, nanos).velocity.y == calmed(
            stepped_through(kin, fixed, gravity, nanos).velocity.y.times(
                kin.restitution.negated(),
            ),
        ),
{
    lemma_stepped_keeps_shape(
        pulled(kin, gravity, seconds_of(nanos)),
        fixed,
        seconds_of(nanos / 10),
        steps_per_tick(),
    );
    floor_holds_body(stepped_through(kin, fixed, gravity, nanos), world);
}

/// The fall of a body in one step of `seconds`.
pub open spec fn drop_per_step(kin: Kinetic, seconds: Scalar) -> Scalar {
    kin.velocity.y.times(seconds)
}

proof fn lemma_free_fall(kin: Kinetic, seconds: Scalar, count: nat)
    requires
        drop_per_step(kin, seconds).raw >= 0,
        kin.position.y.raw + count * drop_per_step(kin, seconds).raw <= i64::MAX,
    ensures
        stepped(kin, Seq::empty(), seconds, count).position.y.raw == kin.position.y.raw + count
            * drop_per_step(kin, seconds).raw,
        stepped(kin, Seq::empty(), seconds, count).velocity == kin.velocity,
        stepped(kin, Seq::empty(), seconds, count).size == kin.size,
        stepped(kin, Seq::empty(), seconds, count).restitution == kin.restitution,
    decreases count,
{
    let drop = drop_per_step(kin, seconds).raw as int;
    if count > 0 {
        assert((count - 1) * drop + drop == count * drop) by (nonlinear_arith);
        assert((count - 1) * drop >= 0) by (nonlinear_arith)
            requires
                count >= 1,
                drop >= 0,
        ;
        lemma_free_fall(kin, seconds, (count - 1) as nat);
        let before = stepped(kin, Seq::empty(), seconds, (count - 1) as nat);
        assert(rebound_all(before.moved(seconds), Seq::empty()) == before.moved(seconds));
    } else {
        assert(count * drop == 0) by (nonlinear_arith)
            requires
                count == 0,
        ;
    }
}

/// A body that falls freely, in a world without fixed bodies, to below
/// the floor ends the tick standing on the floor, with its vertical speed
/// multiplied by its restitution, turned round, and calmed. The body
/// starts at or below the ceiling, and where its fall would take it can be
/// represented.
pub proof fn falling_body_ends_on_floor(kin: Kinetic, gravity: Vec2, world: Vec2, nanos: nat)
    requires
        kin.size.y.raw >= 0,
        world.y.raw >= 0,
        kin.position.y.raw >= 0,
        drop_per_step(pulled(kin, gravity, seconds_of(nanos)), seconds_of(nanos / 10)).raw >= 0,
        kin.position.y.raw + 10 * drop_per_step(
            pulled(kin, gravity, seconds_of(nanos)),
            seconds_of(nanos / 10),
        ).raw + kin.size.y.raw > world.y.raw,
        kin.position.y.raw + 10 * drop_per_step(
            pulled(kin, gravity, seconds_of(nanos)),
            seconds_of(nanos / 10),
        ).raw + kin.size.y.raw <= i64::MAX,
    ensures
        bottom_edge(&ticked_body(kin, Seq::empty(), gravity, world, nanos)) == world.y,
        ticked_body(kin, Seq::empty(), gravity, world, nanos).velocity.y == calmed(
            pulled(kin, gravity, seconds_of(nanos)).velocity.y.times(kin.restitution.negated()),
        ),
{
    let start = pulled(kin, gravity, seconds_of(nanos));
    lemma_free_fall(start, seconds_of(nanos / 10), steps_per_tick());
    tick_ends_on_floor(kin, Seq::empty(), gravity, world, nanos);
}

/// A collision turns a speed round: multiplied by a restitution that is
/// not negative and turned round, a speed that was not negative is not
/// positive, and one that was not positive is not negative.
pub proof fn recoil_turns_round(speed: Scalar, restitution: Scalar)
    requires
        restitution.raw >= 0,
    ensures
        speed.raw >= 0 ==> speed.times(restitution.negated()).raw <= 0,
        speed.raw <= 0 ==> speed.times(restitution.negated()).raw >= 0,
{
    let factor = restitution.negated().raw as int;
    let product = speed.raw * factor;
    assert(speed.raw >= 0 ==> product <= 0) by (nonlinear_arith)
        requires
            factor <= 0,
            product == speed.raw * factor,
    ;
    assert(speed.raw <= 0 ==> product >= 0) by (nonlinear_arith)
        requires
            factor <= 0,
            product == speed.raw * factor,
    ;
    lemma_quotient_sign(product, UNIT as int);
}

/// With a restitution of one, a collision turns a speed round and keeps its
/// magnitude.
pub proof fn elastic_recoil_keeps_speed(speed: Scalar)
    ensures
        speed.times((Scalar { raw: UNIT }).negated()) == speed.negated(),
{
    let unit = UNIT as int;
    let s = speed.raw as int;
    assert((s * unit) / unit == s) by (nonlinear_arith)
        requires
            unit > 0,
    ;
    assert((-s * unit) / unit == -s) by (nonlinear_arith)
        requires
            unit > 0,
    ;
    assert(s * (-unit) == -(s * unit)) by (nonlinear_arith);
    assert(-(s * (-unit)) == s * unit) by (nonlinear_arith);
    assert(-s * unit == -(s * unit)) by (nonlinear_arith);
}

/// The quotient toward zero has the sign of what is divided.
proof fn lemma_quotient_sign(n: int, d: int)
    requires
        d > 0,
    ensures
        n >= 0 ==> quotient_toward_zero(n, d) >= 0,
        n <= 0 ==> quotient_toward_zero(n, d) <= 0,
{
    assert(n >= 0 ==> n / d >= 0) by (nonlinear_arith)
        requires
            d > 0,
    ;
    assert(n <= 0 ==> (-n) / d >= 0) by (nonlinear_arith)
        requires
            d > 0,
    ;
}

proof fn lemma_rebound_all_keeps_shape(kin: Kinetic, fixed: Seq<Fixed>)
    ensures
        rebound_all(kin, fixed).size == kin.size,
        rebound_all(kin, fixed).mass == kin.mass,
        rebound_all(kin, fixed).restitution == kin.restitution,
        rebound_all(kin, fixed).friction == kin.friction,
    decreases fixed.len(),
{
    if fixed.len() > 0 {
        lemma_rebound_all_keeps_shape(kin, fixed.drop_last());
    }
}

proof fn lemma_stepped_keeps_shape(kin: Kinetic, fixed: Seq<Fixed>, seconds: Scalar, count: nat)
    ensures
        stepped(kin, fixed, seconds, count).size == kin.size,
        stepped(kin, fixed, seconds, count).mass == kin.mass,
        stepped(kin, fixed, seconds, count).restitution == kin.restitution,
        stepped(kin, fixed, seconds, count).friction == kin.friction,
    decreases count,
{
    if count > 0 {
        lemma_stepped_keeps_shape(kin, fixed, seconds, (count - 1) as nat);
        lemma_rebound_all_keeps_shape(
            stepped(kin, fixed, seconds, (count - 1) as nat).moved(seconds),
            fixed,
        );
    }
}

/// A tick changes neither the number of bodies nor the bounds, the gravity
/// or the fixed bodies, and each moving body keeps its index, its size, its
/// mass and its coefficients.
pub proof fn tick_keeps_identity(world: World, nanos: nat)
    ensures
        world.ticked(nanos).world_bounds == world.world_bounds,
        world.ticked(nanos).gravity == world.gravity,
        world.ticked(nanos).fixed == world.fixed,
        world.ticked(nanos).kinetic.len() == world.kinetic.len(),
        forall|i: int|
            #![trigger world.ticked(nanos).kinetic[i]]
            0 <= i < world.kinetic.len() ==> {
                &&& world.ticked(nanos).kinetic[i].size == world.kinetic[i].size
                &&& world.ticked(nanos).kinetic[i].mass == world.kinetic[i].mass
                &&& world.ticked(nanos).kinetic[i].restitution == world.kinetic[i].restitution
                &&& world.ticked(nanos).kinetic[i].friction == world.kinetic[i].friction
            },
{
    assert forall|i: int| 0 <= i < world.kinetic.len() implies {
        &&& world.ticked(nanos).kinetic[i].size == world.kinetic[i].size
        &&& world.ticked(nanos).kinetic[i].mass == world.kinetic[i].mass
        &&& world.ticked(nanos).kinetic[i].restitution == world.kinetic[i].restitution
        &&& world.ticked(nanos).kinetic[i].friction == world.kinetic[i].friction
    } by {
        lemma_stepped_keeps_shape(
            pulled(world.kinetic[i], world.gravity, seconds_of(nanos)),
            world.fixed,
            seconds_of(nanos / 10),
            steps_per_tick(),
        );
    }
}

/// A tick under way in which every moving body is advanced is the tick
/// done, and one in which none is advanced yet is the world as it was.
pub proof fn tick_under_way_ends_done(world: World, nanos: nat)
    ensures
        world.ticked_to(nanos, world.kinetic.len()) == world.ticked(nanos),
        world.ticked_to(nanos, 0) == world,
        world.touches_met(nanos, 0) == 0,
{
    assert(world.ticked_to(nanos, world.kinetic.len()).kinetic =~= world.ticked(nanos).kinetic);
    assert(world.ticked_to(nanos, 0).kinetic =~= world.kinetic);
}

/// Only a body set on top of a fixed one gains ground contact: resolving
/// against any other side, or against none, leaves the flag as it was.
pub proof fn only_top_gives_ground_contact(kin: Kinetic, fix: Fixed)
    ensures
        rebound(kin, fix).ground_contact == (kin.ground_contact || struck_side(kin, fix) == Some(
            Side::Top,
        )),
        struck_side(kin, fix) == Some(Side::Top) ==> rebound(kin, fix).ground_contact,
        struck_side(kin, fix) != Some(Side::Top) && !kin.ground_contact ==> !rebound(
            kin,
            fix,
        ).ground_contact,
{
}

/// A moving body that lies wholly beyond one side of a fixed body, with
/// space between them, is not changed by resolving against it.
pub proof fn separated_body_unchanged(kin: Kinetic, fix: Fixed)
    requires
        left_edge(&kin).raw > right_edge(&fix).raw || right_edge(&kin).raw < left_edge(&fix).raw
            || top_edge(&kin).raw > bottom_edge(&fix).raw || bottom_edge(&kin).raw < top_edge(
            &fix,
        ).raw,
    ensures
        apart(&kin, &fix),
        struck_side(kin, fix).is_none(),
        rebound(kin, fix) == kin,
{
}

/// A moving body that lies beyond one side of a fixed body keeps its place
/// when it is resolved against it, also where the two share that edge.
pub proof fn body_beside_keeps_place(kin: Kinetic, fix: Fixed)
    requires
        well_formed(&kin),
        left_edge(&kin).raw >= right_edge(&fix).raw || right_edge(&kin).raw <= left_edge(
            &fix,
        ).raw || top_edge(&kin).raw >= bottom_edge(&fix).raw || bottom_edge(&kin).raw
            <= top_edge(&fix).raw,
    ensures
        rebound(kin, fix).position == kin.position,
{
}

/// The struck side is crossed least, and every side tried before it is
/// crossed more: of sides crossed least by the same depth, the first in
/// the order top, bottom, left, right is struck.
pub proof fn struck_side_is_first_of_the_greatest(kin: Kinetic, fix: Fixed, struck: Side)
    requires
        struck_side(kin, fix) == Some(struck),
    ensures
        !apart(&kin, &fix),
        !level(&kin, &fix),
        greatest(&kin, &fix, struck),
        forall|s: Side|
            turn(s) < turn(struck) ==> gap(&kin, &fix, s).raw < gap(&kin, &fix, struck).raw,
{
    assert forall|s: Side| turn(s) < turn(struck) implies gap(&kin, &fix, s).raw < gap(
        &kin,
        &fix,
        struck,
    ).raw by {
        assert(!greatest(&kin, &fix, s));
    }
}

/// A body that overlaps a fixed body has a struck side unless it has
/// crossed all four sides by the same depth: the first side, in the order
/// top, bottom, left, right, that no side is crossed less than.
pub proof fn first_of_the_greatest_is_struck(kin: Kinetic, fix: Fixed, side: Side)
    requires
        !apart(&kin, &fix),
        !level(&kin, &fix),
        greatest(&kin, &fix, side),
        forall|s: Side|
            turn(s) < turn(side) ==> gap(&kin, &fix, s).raw < gap(&kin, &fix, side).raw,
    ensures
        struck_side(kin, fix) == Some(side),
{
    assert(turn(Side::Top) == 0 && turn(Side::Bottom) == 1 && turn(Side::Left) == 2);
}

/// A moving body that overlaps a fixed one, and has crossed no side by
/// less than its top, though not all by the same depth, is set on top of
/// it: its lower edge's place is the top of the fixed body, and it keeps
/// its place along x.
pub proof fn least_crossed_top_wins(kin: Kinetic, fix: Fixed)
    requires
        !apart(&kin, &fix),
        !level(&kin, &fix),
        gap(&kin, &fix, Side::Top).raw >= gap(&kin, &fix, Side::Bottom).raw,
        gap(&kin, &fix, Side::Top).raw >= gap(&kin, &fix, Side::Left).raw,
        gap(&kin, &fix, Side::Top).raw >= gap(&kin, &fix, Side::Right).raw,
    ensures
        struck_side(kin, fix) == Some(Side::Top),
        rebound(kin, fix).position.y == top_edge(&fix).minus(kin.size.y),
        rebound(kin, fix).position.x == kin.position.x,
        rebound(kin, fix).ground_contact,
        kin.size.y.raw >= 0 && top_edge(&fix).raw >= 0 ==> bottom_edge(&rebound(kin, fix))
            == top_edge(&fix),
{
}

/// Where all four sides are crossed by the same depth, resolving changes
/// nothing.
pub proof fn level_crossing_changes_nothing(kin: Kinetic, fix: Fixed)
    requires
        level(&kin, &fix),
    ensures
        struck_side(kin, fix).is_none(),
        rebound(kin, fix) == kin,
{
}

} // verus!
