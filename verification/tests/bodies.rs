use boxsim::objects::{AxisBox, Fixed, Kinetic, Object};
use boxsim::{Scalar, Tick, Vec2};
use std::time::Duration;

fn v(x: i32, y: i32) -> Vec2 {
    Vec2::new(Scalar::from_int(x), Scalar::from_int(y))
}

fn k(millis: i32) -> Scalar {
    Scalar::from_millis(millis)
}

#[test]
fn a_fixed_body_has_a_tenth_of_friction() {
    let f = Fixed::new(v(128, 192), v(128, 24));
    assert_eq!(f.position, v(128, 192));
    assert_eq!(f.size, v(128, 24));
    assert_eq!(f.friction, k(100));
    assert_eq!(f.friction(), k(100));
    assert_eq!(f.restitution(), Scalar::one());
}

#[test]
fn bodies_are_made_from_pairs_too() {
    let f = Fixed::new((k(1000), k(2000)), (k(3000), k(4000)));
    assert_eq!(f.position, v(1, 2));
    assert_eq!(f.size, v(3, 4));
    let b = Kinetic::with_velocity((k(1000), k(2000)), v(3, 4), (k(-500), k(0)));
    assert_eq!(b.position, v(1, 2));
    assert_eq!(b.size, v(3, 4));
    assert_eq!(b.velocity, Vec2::new(k(-500), k(0)));
}

#[test]
fn a_new_body_rests_with_unit_mass_and_bounce() {
    let b = Kinetic::new(v(5, 6), v(7, 8));
    assert_eq!(b.position, v(5, 6));
    assert_eq!(b.size, v(7, 8));
    assert_eq!(b.velocity, v(0, 0));
    assert!(!b.ground_contact);
    assert_eq!(b.mass, Scalar::one());
    assert_eq!(b.restitution, Scalar::one());
    assert_eq!(b.friction, Scalar::zero());
    assert_eq!(b.restitution(), Scalar::one());
    assert_eq!(b.friction(), Scalar::zero());
    assert_eq!(b, Kinetic::with_velocity(v(5, 6), v(7, 8), v(0, 0)));
}

#[test]
fn a_launched_body_keeps_its_velocity() {
    let b = Kinetic::with_velocity(v(5, 6), v(7, 8), v(655, -47));
    assert_eq!(b.velocity, v(655, -47));
    assert_eq!(b.mass, Scalar::one());
    assert_eq!(b.restitution, Scalar::one());
    assert_eq!(b.friction, Scalar::zero());
    assert!(!b.ground_contact);
}

#[test]
fn mass_and_restitution_can_be_set() {
    let mut b = Kinetic::new(v(0, 0), v(1, 1));
    *b.restitution_mut() = k(750);
    assert_eq!(b.restitution, k(750));
    assert_eq!(b.restitution(), k(750));
    assert_eq!(b.mass, Scalar::one());
    *b.mass_mut() = Scalar::from_int(100);
    assert_eq!(b.mass, Scalar::from_int(100));
    assert_eq!(b.restitution, k(750));
    assert_eq!(b.position, v(0, 0));
    assert_eq!(b.size, v(1, 1));
}

#[test]
fn edges_follow_from_corner_and_extent() {
    let f = Fixed::new(v(10, 20), v(30, 40));
    assert_eq!(f.position(), v(10, 20));
    assert_eq!(f.size(), v(30, 40));
    assert_eq!(f.top(), Scalar::from_int(20));
    assert_eq!(f.left(), Scalar::from_int(10));
    assert_eq!(f.bottom(), Scalar::from_int(60));
    assert_eq!(f.right(), Scalar::from_int(40));
    assert_eq!(f.center(), v(25, 40));

    let b = Kinetic::new(Vec2::new(k(-1500), k(250)), Vec2::new(k(3000), k(500)));
    assert_eq!(b.position(), Vec2::new(k(-1500), k(250)));
    assert_eq!(b.size(), Vec2::new(k(3000), k(500)));
    assert_eq!(b.top(), k(250));
    assert_eq!(b.left(), k(-1500));
    assert_eq!(b.bottom(), k(750));
    assert_eq!(b.right(), k(1500));
    assert_eq!(b.center(), Vec2::new(k(0), k(500)));
}

#[test]
fn edges_read_twice_are_the_same() {
    let b = Kinetic::with_velocity(v(3, 4), v(5, 6), v(7, 8));
    assert_eq!(b.top(), b.top());
    assert_eq!(b.left(), b.left());
    assert_eq!(b.bottom(), b.bottom());
    assert_eq!(b.right(), b.right());
    assert_eq!(b.center(), b.center());
    assert_eq!(b.position(), b.position());
    assert_eq!(b.size(), b.size());
    let f = Fixed::new(v(3, 4), v(5, 6));
    assert_eq!(f.top(), f.top());
    assert_eq!(f.left(), f.left());
    assert_eq!(f.bottom(), f.bottom());
    assert_eq!(f.right(), f.right());
    assert_eq!(f.center(), f.center());
    assert_eq!(b, Kinetic::with_velocity(v(3, 4), v(5, 6), v(7, 8)));
}

#[test]
fn far_edges_saturate() {
    let b = Kinetic::new(Vec2::new(Scalar::from_raw(i64::MAX), k(0)), v(1, 1));
    assert_eq!(b.right(), Scalar::from_raw(i64::MAX));
    assert_eq!(b.bottom(), Scalar::from_int(1));
}

#[test]
fn smallen_velocity_slows_what_moves_right_and_down() {
    let mut b = Kinetic::with_velocity(v(0, 0), v(1, 1), v(10, 20));
    b.smallen_velocity(v(1, 2));
    assert_eq!(b.velocity, v(9, 18));
    assert_eq!(b.position, v(0, 0));
}

#[test]
fn smallen_velocity_raises_what_does_not() {
    let mut b = Kinetic::with_velocity(v(0, 0), v(1, 1), v(-10, 0));
    b.smallen_velocity(v(1, 2));
    assert_eq!(b.velocity, v(-9, 2));
    let mut c = Kinetic::with_velocity(v(0, 0), v(1, 1), v(5, -5));
    c.smallen_velocity(v(7, 7));
    assert_eq!(c.velocity, v(-2, 2));
}

#[test]
fn a_body_moves_by_its_velocity() {
    let mut b = Kinetic::with_velocity(v(10, 30), v(10, 10), v(655, -47));
    b.ground_contact = true;
    b.tick(Duration::from_millis(2));
    assert_eq!(b.position, Vec2::new(k(11_310), k(29_906)));
    assert_eq!(b.velocity, v(655, -47));
    assert!(!b.ground_contact);
    assert_eq!(b.size, v(10, 10));
}

#[test]
fn integrating_agrees_with_ticking() {
    let mut a = Kinetic::with_velocity(v(10, 30), v(10, 10), v(3, -4));
    let mut b = a;
    a.tick(Duration::from_millis(1500));
    b.integrate(k(1500));
    assert_eq!(a, b);
    assert_eq!(a.position, Vec2::new(k(14_500), k(24_000)));
}

#[test]
fn a_tick_of_no_time_only_lifts_the_body() {
    let mut b = Kinetic::with_velocity(v(10, 30), v(10, 10), v(3, -4));
    b.ground_contact = true;
    let before = b;
    b.tick(Duration::ZERO);
    assert_eq!(b.position, before.position);
    assert_eq!(b.velocity, before.velocity);
    assert!(!b.ground_contact);
}

#[test]
fn objects_wrap_either_kind() {
    let b = Kinetic::new(v(1, 2), v(3, 4));
    let f = Fixed::new(v(5, 6), v(7, 8));
    assert_eq!(Object::from(b), Object::Kinetic(b));
    assert_eq!(Object::from(f), Object::Fixed(f));
    let o: Object = f.into();
    assert!(matches!(o, Object::Fixed(_)));
    let o: Object = b.into();
    assert!(matches!(o, Object::Kinetic(_)));
}
