use boxsim::objects::{AxisBox, Fixed, Kinetic};
use boxsim::{Scalar, Simulation, Tick, Vec2};
use std::time::Duration;

fn v(x: i32, y: i32) -> Vec2 {
    Vec2::new(Scalar::from_int(x), Scalar::from_int(y))
}

fn k(millis: i32) -> Scalar {
    Scalar::from_millis(millis)
}

fn weightless(bounds: Vec2) -> Simulation {
    let mut sim = Simulation::new(bounds);
    sim.gravity = v(0, 0);
    sim
}

#[test]
fn a_new_world_is_empty_and_pulls_down() {
    let sim = Simulation::new(v(256, 128));
    assert_eq!(sim.world_bounds, v(256, 128));
    assert_eq!(sim.gravity, v(0, 450));
    assert!(sim.kinetic.is_empty());
    assert!(sim.fixed.is_empty());
    let from_pair = Simulation::new((k(256_000), k(128_000)));
    assert_eq!(from_pair.world_bounds, v(256, 128));
}

#[test]
fn bodies_are_kept_by_kind_and_in_order() {
    let mut sim = Simulation::new(v(256, 256));
    let a = Kinetic::new(v(1, 1), v(2, 2));
    let b = Kinetic::new(v(3, 3), v(4, 4));
    let f = Fixed::new(v(5, 5), v(6, 6));
    let g = Fixed::new(v(7, 7), v(8, 8));
    sim.add_object(a);
    sim.add_object(f);
    sim.add_object(b);
    sim.add_object(g);
    assert_eq!(sim.kinetic, vec![a, b]);
    assert_eq!(sim.fixed, vec![f, g]);
    assert_eq!(sim.world_bounds, v(256, 256));
    assert_eq!(sim.gravity, v(0, 450));
}

#[test]
fn ticking_an_empty_world_changes_nothing() {
    let mut sim = Simulation::new(v(10, 10));
    sim.add_object(Fixed::new(v(1, 1), v(2, 2)));
    sim.tick(Duration::from_secs(3));
    assert!(sim.kinetic.is_empty());
    assert_eq!(sim.fixed, vec![Fixed::new(v(1, 1), v(2, 2))]);
    assert_eq!(sim.world_bounds, v(10, 10));
    assert_eq!(sim.gravity, v(0, 450));
}

#[test]
fn ceiling_turns_a_rising_body_round() {
    let mut sim = weightless(v(100, 100));
    sim.add_object(Kinetic::with_velocity(v(50, -5), v(10, 10), v(0, -20)));
    sim.tick(Duration::from_secs(1));
    assert_eq!(sim.kinetic[0].position.y, Scalar::from_int(0));
    assert_eq!(sim.kinetic[0].velocity.y, Scalar::from_int(20));
    assert_eq!(sim.kinetic[0].position.x, Scalar::from_int(50));
    assert_eq!(sim.kinetic[0].velocity.x, Scalar::from_int(0));
}

#[test]
fn floor_stops_a_falling_body() {
    let mut sim = weightless(v(100, 100));
    let mut body = Kinetic::with_velocity(v(10, 85), v(10, 10), v(0, 100));
    *body.restitution_mut() = k(500);
    sim.add_object(body);
    sim.tick(Duration::from_secs(1));
    assert_eq!(sim.kinetic[0].bottom(), Scalar::from_int(100));
    assert_eq!(sim.kinetic[0].position, v(10, 90));
    assert_eq!(sim.kinetic[0].velocity, v(0, -50));
}

#[test]
fn the_world_is_tested_once_a_tick() {
    // The body is far below the floor after the first of the ten steps,
    // and is brought back only at the end.
    let mut sim = weightless(v(100, 100));
    sim.add_object(Kinetic::with_velocity(v(10, 85), v(10, 10), v(0, 1000)));
    sim.tick(Duration::from_secs(1));
    assert_eq!(sim.kinetic[0].position, v(10, 90));
    assert_eq!(sim.kinetic[0].velocity, v(0, -1000));
}

#[test]
fn a_still_body_stays_where_it_is() {
    let mut sim = weightless(v(100, 100));
    sim.add_object(Fixed::new(v(0, 50), v(100, 10)));
    sim.add_object(Fixed::new(v(30, 0), v(5, 20)));
    let body = Kinetic::new(v(10, 30), v(10, 10));
    sim.add_object(body);
    for millis in [0, 1, 20, 1000, 60_000] {
        sim.tick(Duration::from_millis(millis));
        assert_eq!(sim.kinetic[0].position, v(10, 30));
        assert_eq!(sim.kinetic[0].velocity, v(0, 0));
    }
    assert_eq!(sim.kinetic[0], body);
}

#[test]
fn a_still_body_on_an_obstacle_stays_and_stands() {
    let mut sim = weightless(v(100, 100));
    sim.add_object(Fixed::new(v(0, 50), v(100, 10)));
    sim.add_object(Kinetic::new(v(10, 40), v(10, 10)));
    sim.tick(Duration::from_millis(20));
    assert_eq!(sim.kinetic[0].position, v(10, 40));
    assert_eq!(sim.kinetic[0].velocity, v(0, 0));
    assert!(sim.kinetic[0].ground_contact);
}

#[test]
fn a_still_body_inside_an_obstacle_is_pushed_out() {
    let mut sim = weightless(v(100, 100));
    sim.add_object(Fixed::new(v(0, 50), v(100, 10)));
    sim.add_object(Kinetic::new(v(10, 42), v(10, 10)));
    sim.tick(Duration::from_millis(20));
    assert_eq!(sim.kinetic[0].position, v(10, 40));
}

#[test]
fn gravity_acts_on_a_body_in_the_air() {
    let mut sim = Simulation::new(v(1000, 100_000));
    sim.add_object(Kinetic::new(v(10, 10), v(10, 10)));
    sim.tick(Duration::from_secs(1));
    assert_eq!(sim.kinetic[0].velocity, v(0, 450));
    assert_eq!(sim.kinetic[0].position, v(10, 460));
    sim.tick(Duration::from_secs(1));
    assert_eq!(sim.kinetic[0].velocity, v(0, 900));
    assert_eq!(sim.kinetic[0].position, v(10, 1360));
}

#[test]
fn gravity_acts_for_the_length_of_the_tick() {
    let mut sim = Simulation::new(v(1000, 1000));
    sim.add_object(Kinetic::new(v(10, 10), v(10, 10)));
    sim.tick(Duration::from_millis(20));
    assert_eq!(sim.kinetic[0].velocity, v(0, 9));
    assert_eq!(sim.kinetic[0].position, Vec2::new(k(10_000), k(10_180)));
}

#[test]
fn a_slow_fall_is_brought_to_rest() {
    // In five milliseconds a body gains a speed of 2.25, moves by it, and
    // is then taken to be at rest.
    let mut sim = Simulation::new(v(1000, 1000));
    sim.add_object(Kinetic::new(v(10, 10), v(10, 10)));
    sim.tick(Duration::from_millis(5));
    assert_eq!(sim.kinetic[0].velocity, v(0, 0));
    assert_eq!(sim.kinetic[0].position, Vec2::new(k(10_000), Scalar::from_raw(10_011_250)));
}

#[test]
fn gravity_spares_a_body_that_stands() {
    let mut sim = Simulation::new(v(100, 100));
    sim.add_object(Fixed::new(v(0, 50), v(100, 10)));
    let mut body = Kinetic::new(v(10, 40), v(10, 10));
    body.ground_contact = true;
    sim.add_object(body);
    for _ in 0..5 {
        sim.tick(Duration::from_millis(20));
        assert_eq!(sim.kinetic[0].position, v(10, 40));
        assert_eq!(sim.kinetic[0].velocity, v(0, 0));
        assert!(sim.kinetic[0].ground_contact);
    }
}

#[test]
fn gravity_pulls_a_body_that_does_not_stand_yet() {
    let mut sim = Simulation::new(v(100, 100));
    sim.add_object(Fixed::new(v(0, 50), v(100, 10)));
    let mut body = Kinetic::new(v(10, 40), v(10, 10));
    *body.restitution_mut() = k(500);
    sim.add_object(body);
    sim.tick(Duration::from_millis(20));
    // It gains a speed of 9, sinks into the obstacle at once and is set
    // back on top with half of it, upward; the next step lifts it.
    assert!(!sim.kinetic[0].ground_contact);
    assert_eq!(sim.kinetic[0].velocity, Vec2::new(k(0), k(-4_500)));
    assert_eq!(sim.kinetic[0].position, Vec2::new(k(10_000), k(39_919)));
}

#[test]
fn speeds_below_the_rest_speed_are_dropped() {
    let mut sim = weightless(v(1000, 1000));
    sim.add_object(Kinetic::with_velocity(
        v(100, 100),
        v(10, 10),
        Vec2::new(k(2_500), Scalar::from_raw(-2_499_999)),
    ));
    sim.add_object(Kinetic::with_velocity(
        v(100, 100),
        v(10, 10),
        Vec2::new(Scalar::from_raw(2_499_999), k(-2_500)),
    ));
    sim.tick(Duration::from_secs(1));
    assert_eq!(sim.kinetic[0].velocity, Vec2::new(k(2_500), k(0)));
    assert_eq!(sim.kinetic[0].position, Vec2::new(k(102_500), Scalar::from_raw(97_500_010)));
    assert_eq!(sim.kinetic[1].velocity, Vec2::new(k(0), k(-2_500)));
    assert_eq!(sim.kinetic[1].position, Vec2::new(Scalar::from_raw(102_499_990), k(97_500)));
}

#[test]
fn a_tick_is_cut_into_ten_steps() {
    // A tenth of 15 microseconds is cut to one microsecond: at a million
    // units a second the body moves ten times by one unit, not by 15.
    let mut sim = weightless(v(1000, 1000));
    sim.add_object(Kinetic::with_velocity(v(100, 100), v(10, 10), v(1_000_000, 0)));
    sim.tick(Duration::from_nanos(15_000));
    assert_eq!(sim.kinetic[0].position, v(110, 100));
    // A tenth of less than ten microseconds is cut to nothing.
    sim.tick(Duration::from_nanos(9_999));
    assert_eq!(sim.kinetic[0].position, v(110, 100));
    assert_eq!(sim.kinetic[0].velocity, v(1_000_000, 0));
}

#[test]
fn falling_onto_an_obstacle_step_by_step() {
    let slab = Fixed::new(v(0, 50), v(100, 10));
    let mut body = Kinetic::with_velocity(v(10, 30), v(10, 10), v(0, 30));
    *body.restitution_mut() = k(500);
    let mut steps = 0;
    while !body.ground_contact {
        body.integrate(k(100));
        Simulation::kinetic_fixed(&mut body, &slab);
        steps += 1;
        assert!(steps < 100);
    }
    assert_eq!(steps, 4);
    assert_eq!(body.bottom(), Scalar::from_int(50));
    assert_eq!(body.position, v(10, 40));
    assert!(body.ground_contact);
    assert_eq!(body.velocity, v(0, -15));
}

#[test]
fn falling_onto_an_obstacle_within_a_tick() {
    let mut sim = weightless(v(100, 100));
    sim.add_object(Fixed::new(v(0, 50), v(100, 10)));
    let mut body = Kinetic::with_velocity(v(10, 30), v(10, 10), v(0, 30));
    *body.restitution_mut() = k(500);
    sim.add_object(body);
    sim.tick(Duration::from_secs(1));
    // It lands in the fourth step and rises through the other six.
    assert_eq!(sim.kinetic[0].velocity, v(0, -15));
    assert_eq!(sim.kinetic[0].position, v(10, 31));
    assert!(!sim.kinetic[0].ground_contact);
}

#[test]
fn a_slow_landing_comes_to_rest_on_the_obstacle() {
    let mut sim = weightless(v(100, 100));
    sim.add_object(Fixed::new(v(0, 50), v(100, 10)));
    let mut body = Kinetic::with_velocity(Vec2::new(k(10_000), k(36_200)), v(10, 10), v(0, 4));
    *body.restitution_mut() = k(500);
    sim.add_object(body);
    sim.tick(Duration::from_secs(1));
    // It lands in the last step with a speed of 4, which the collision
    // turns into -2 and the end of the tick into rest.
    assert_eq!(sim.kinetic[0].bottom(), Scalar::from_int(50));
    assert!(sim.kinetic[0].ground_contact);
    assert_eq!(sim.kinetic[0].velocity, v(0, 0));
    sim.gravity = v(0, 450);
    for _ in 0..3 {
        sim.tick(Duration::from_secs(1));
        assert_eq!(sim.kinetic[0].bottom(), Scalar::from_int(50));
        assert!(sim.kinetic[0].ground_contact);
        assert_eq!(sim.kinetic[0].velocity, v(0, 0));
    }
}

#[test]
fn a_fast_body_passes_a_thin_obstacle() {
    let mut sim = weightless(v(100, 10_000));
    sim.add_object(Fixed::new(v(0, 55), v(100, 2)));
    sim.add_object(Kinetic::with_velocity(v(10, 0), v(10, 10), v(0, 1000)));
    sim.tick(Duration::from_secs(1));
    assert_eq!(sim.kinetic[0].position, v(10, 1000));
    assert_eq!(sim.kinetic[0].velocity, v(0, 1000));
}

#[test]
fn obstacles_are_taken_in_their_order() {
    let first = Fixed::new(v(0, 50), v(100, 10));
    let second = Fixed::new(v(0, 0), v(12, 100));
    let start = Kinetic::with_velocity(v(10, 42), v(10, 10), v(0, 0));

    let mut sim = weightless(v(200, 200));
    sim.add_object(first);
    sim.add_object(second);
    sim.add_object(start);
    sim.tick(Duration::ZERO);
    let mut by_hand = start;
    for _ in 0..10 {
        Simulation::kinetic_fixed(&mut by_hand, &first);
        Simulation::kinetic_fixed(&mut by_hand, &second);
    }
    assert_eq!(sim.kinetic[0].position, by_hand.position);
    assert_eq!(sim.kinetic[0].position, v(12, 40));
}

#[test]
fn moving_bodies_do_not_disturb_each_other() {
    let a = Kinetic::with_velocity(v(10, 10), v(10, 10), v(30, 0));
    let b = Kinetic::with_velocity(v(40, 10), v(10, 10), v(-30, 0));

    let mut both = weightless(v(100, 100));
    both.add_object(a);
    both.add_object(b);
    let mut only_a = weightless(v(100, 100));
    only_a.add_object(a);
    let mut only_b = weightless(v(100, 100));
    only_b.add_object(b);

    for _ in 0..4 {
        both.tick(Duration::from_millis(250));
        only_a.tick(Duration::from_millis(250));
        only_b.tick(Duration::from_millis(250));
        assert_eq!(both.kinetic[0], only_a.kinetic[0]);
        assert_eq!(both.kinetic[1], only_b.kinetic[0]);
    }
    assert_eq!(both.kinetic[0].position, v(40, 10));
    assert_eq!(both.kinetic[1].position, v(10, 10));
}

#[test]
fn a_tick_keeps_what_does_not_move() {
    let mut sim = Simulation::new(v(256, 256));
    let f = Fixed::new(v(128, 192), v(128, 24));
    let mut a = Kinetic::with_velocity(v(118, 152), v(12, 12), v(655, -47));
    *a.restitution_mut() = k(750);
    *a.mass_mut() = Scalar::from_int(100);
    a.friction = k(50);
    sim.add_object(f);
    sim.add_object(a);
    sim.add_object(Kinetic::new(v(1, 1), v(2, 2)));
    for _ in 0..50 {
        sim.tick(Duration::from_millis(20));
    }
    assert_eq!(sim.world_bounds, v(256, 256));
    assert_eq!(sim.gravity, v(0, 450));
    assert_eq!(sim.fixed, vec![f]);
    assert_eq!(sim.kinetic.len(), 2);
    assert_eq!(sim.kinetic[0].size, v(12, 12));
    assert_eq!(sim.kinetic[0].mass, Scalar::from_int(100));
    assert_eq!(sim.kinetic[0].restitution, k(750));
    assert_eq!(sim.kinetic[0].friction, k(50));
    assert_eq!(sim.kinetic[1].size, v(2, 2));
}

#[test]
fn bodies_stay_inside_the_world_after_every_tick() {
    let mut sim = Simulation::new(v(256, 256));
    let mut a = Kinetic::with_velocity(v(118, 152), v(12, 12), v(655, -47));
    *a.restitution_mut() = k(750);
    sim.add_object(a);
    sim.add_object(Fixed::new(v(128, 192), v(128, 24)));
    for _ in 0..200 {
        sim.tick(Duration::from_millis(20));
        let body = &sim.kinetic[0];
        assert!(body.top() >= Scalar::zero());
        assert!(body.left() >= Scalar::zero());
        assert!(body.bottom() <= Scalar::from_int(256));
        assert!(body.right() <= Scalar::from_int(256));
    }
}

#[test]
fn the_longest_tick_ends() {
    let mut sim = Simulation::new(v(256, 256));
    sim.add_object(Kinetic::with_velocity(v(118, 152), v(12, 12), v(655, -47)));
    sim.add_object(Fixed::new(v(128, 192), v(128, 24)));
    sim.tick(Duration::MAX);
    assert_eq!(sim.kinetic.len(), 1);
    assert_eq!(sim.kinetic[0].size, v(12, 12));
}

#[test]
fn advancing_by_nanoseconds_is_ticking() {
    let mut ticked = Simulation::new(v(256, 256));
    let mut a = Kinetic::with_velocity(v(118, 152), v(12, 12), v(655, -47));
    *a.restitution_mut() = k(750);
    ticked.add_object(a);
    ticked.add_object(Kinetic::with_velocity(v(32, 64), v(12, 12), v(75, -100)));
    ticked.add_object(Fixed::new(v(128, 192), v(128, 24)));
    let mut advanced = Simulation::new(v(256, 256));
    advanced.add_object(a);
    advanced.add_object(Kinetic::with_velocity(v(32, 64), v(12, 12), v(75, -100)));
    advanced.add_object(Fixed::new(v(128, 192), v(128, 24)));
    for _ in 0..100 {
        ticked.tick(Duration::from_millis(20));
        assert_eq!(advanced.advance(20_000_000), 0);
        assert_eq!(ticked.kinetic, advanced.kinetic);
    }
    assert_ne!(ticked.kinetic[0].position, v(118, 152));
}

#[test]
fn advancing_turns_a_rising_body_round() {
    let mut sim = weightless(v(100, 100));
    sim.add_object(Kinetic::with_velocity(v(50, -5), v(10, 10), v(0, -20)));
    assert_eq!(sim.advance(1_000_000_000), 0);
    assert_eq!(sim.kinetic[0].position, v(50, 0));
    assert_eq!(sim.kinetic[0].velocity, v(0, 20));
}

#[test]
fn touches_are_counted_for_each_body_and_step() {
    // Two points at one place touch each other in every step.
    let mut two = weightless(v(10, 10));
    two.add_object(Kinetic::new(v(3, 3), v(0, 0)));
    two.add_object(Kinetic::new(v(3, 3), v(0, 0)));
    assert_eq!(two.advance(1_000_000_000), 20);

    let mut three = weightless(v(10, 10));
    for _ in 0..3 {
        three.add_object(Kinetic::new(v(3, 3), v(0, 0)));
    }
    assert_eq!(three.advance(0), 60);

    let mut alone = weightless(v(10, 10));
    alone.add_object(Kinetic::new(v(3, 3), v(0, 0)));
    assert_eq!(alone.advance(1_000_000_000), 0);
    assert_eq!(Simulation::new(v(10, 10)).advance(1_000_000_000), 0);
}

#[test]
fn a_touch_in_passing_is_counted_once() {
    // The first point is where the second rests after the first of its
    // steps only; when the second is held against it, it has moved on.
    let mut sim = weightless(v(100, 100));
    sim.add_object(Kinetic::with_velocity(v(0, 3), v(0, 0), v(30, 0)));
    sim.add_object(Kinetic::new(v(3, 3), v(0, 0)));
    assert_eq!(sim.advance(1_000_000_000), 1);
    assert_eq!(sim.kinetic[0].position, v(30, 3));
    assert_eq!(sim.kinetic[1].position, v(3, 3));
}

#[test]
fn overlapping_bodies_are_no_touches() {
    let mut sim = weightless(v(100, 100));
    sim.add_object(Kinetic::new(v(10, 10), v(10, 10)));
    sim.add_object(Kinetic::new(v(15, 15), v(10, 10)));
    sim.add_object(Kinetic::new(v(20, 10), v(10, 10)));
    assert_eq!(sim.advance(1_000_000_000), 0);
}
