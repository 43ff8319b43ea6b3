//! Worlds to start from.
use crate::objects::{Fixed, Kinetic};
use crate::scalar::{lemma_times_exact, Scalar};
use crate::simulation::{Simulation, World};
use crate::vec2::Vec2;
use vstd::prelude::*;

verus! {

/// The vector of the whole numbers `x` and `y`.
pub open spec fn whole(x: int, y: int) -> Vec2 {
    Vec2 { x: Scalar { raw: (x * 1_000_000) as i64 }, y: Scalar { raw: (y * 1_000_000) as i64 } }
}

/// A body launched with the given mass and restitution.
pub open spec fn body(
    position: Vec2,
    size: Vec2,
    velocity: Vec2,
    mass: Scalar,
    restitution: Scalar,
) -> Kinetic {
    Kinetic { mass, restitution, ..Kinetic::launched(position, size, velocity) }
}

fn pair(x: i32, y: i32) -> (r: (Scalar, Scalar))
    ensures
        (Vec2 { x: r.0, y: r.1 }) == whole(x as int, y as int),
{
    (Scalar::from_int(x), Scalar::from_int(y))
}

/// Two heavy squares side by side in a wide world without gravity, the one
/// behind six times as fast as the one ahead.
pub fn construct_kktest() -> (sim: Simulation)
    ensures
        sim@ == (World {
            world_bounds: whole(512, 256),
            gravity: Vec2::origin(),
            kinetic: seq![
                body(
                    whole(144, 144),
                    whole(32, 32),
                    whole(25, 0),
                    Scalar { raw: 10_000_000 },
                    Scalar { raw: 1_000_000 },
                ),
                body(
                    whole(16, 144),
                    whole(32, 32),
                    whole(150, 0),
                    Scalar { raw: 10_000_000 },
                    Scalar { raw: 1_000_000 },
                ),
            ],
            fixed: seq![],
        }),
{
    let half = Scalar::from_millis(500);
    let bounds = Vec2::new(Scalar::from_int(512), Scalar::from_int(256));
    let size = Vec2::new(Scalar::from_int(32), Scalar::from_int(32));
    let offset = Vec2::new(Scalar::from_int(128), Scalar::zero());
    let velocity = Vec2::new(Scalar::from_int(50), Scalar::zero());
    proof {
        lemma_times_exact(bounds.x, half, 256_000_000);
        lemma_times_exact(bounds.y, half, 128_000_000);
        lemma_times_exact(size.x, half, 16_000_000);
        lemma_times_exact(velocity.x, half, 25_000_000);
        lemma_times_exact(velocity.y, half, 0);
        lemma_times_exact(offset.x, Scalar { raw: 2_000_000 }, 256_000_000);
        lemma_times_exact(offset.y, Scalar { raw: 2_000_000 }, 0);
        lemma_times_exact(velocity.x, Scalar { raw: 3_000_000 }, 150_000_000);
        lemma_times_exact(velocity.y, Scalar { raw: 3_000_000 }, 0);
    }
    let center = bounds.mul_scalar(half).add(size.mul_scalar(half));

    let mut square = Kinetic::with_velocity(center.sub(offset), size, velocity.mul_scalar(half));
    *square.mass_mut() = Scalar::from_int(10);

    let mut square2 = Kinetic::with_velocity(
        center.sub(offset.mul_scalar(Scalar::from_int(2))),
        size,
        velocity.mul_scalar(Scalar::from_int(3)),
    );
    *square2.mass_mut() = Scalar::from_int(10);

    let mut sim = Simulation::new(bounds);
    sim.gravity = Vec2::new(Scalar::zero(), Scalar::zero());

    sim.add_object(square);
    sim.add_object(square2);
    assert(sim@.kinetic =~= seq![square, square2]);
    assert(sim@.fixed =~= seq![]);
    sim
}

/// Three squares of different weight and bounce thrown across a world with
/// two obstacles on its floor.
pub fn construct_simulation() -> (sim: Simulation)
    ensures
        sim@ == (World {
            kinetic: seq![
                body(
                    whole(118, 152),
                    whole(12, 12),
                    whole(655, -47),
                    Scalar { raw: 100_000_000 },
                    Scalar { raw: 750_000 },
                ),
                body(
                    whole(32, 64),
                    whole(12, 12),
                    whole(75, -100),
                    Scalar { raw: 50_000_000 },
                    Scalar { raw: 900_000 },
                ),
                body(
                    whole(4, 224),
                    whole(12, 12),
                    whole(24, -250),
                    Scalar { raw: 5_000_000 },
                    Scalar { raw: 250_000 },
                ),
            ],
            fixed: seq![
                Fixed {
                    position: whole(128, 192),
                    size: whole(128, 24),
                    friction: Scalar { raw: 100_000 },
                },
                Fixed {
                    position: whole(32, 192),
                    size: whole(32, 64),
                    friction: Scalar { raw: 100_000 },
                },
            ],
            ..World::empty(whole(256, 256))
        }),
{
    let bounds = Vec2::new(Scalar::from_int(256), Scalar::from_int(256));
    let size = Vec2::new(Scalar::from_int(12), Scalar::from_int(12));

    let mut square = Kinetic::with_velocity(pair(118, 152), size, pair(655, -47));
    *square.restitution_mut() = Scalar::from_millis(750);
    *square.mass_mut() = Scalar::from_int(100);

    let mut square2 = Kinetic::with_velocity(pair(32, 64), size, pair(75, -100));
    *square2.restitution_mut() = Scalar::from_millis(900);
    *square2.mass_mut() = Scalar::from_int(50);

    let mut square3 = Kinetic::with_velocity(pair(4, 224), size, pair(24, -250));
    *square3.restitution_mut() = Scalar::from_millis(250);
    *square3.mass_mut() = Scalar::from_int(5);

    let mut sim = Simulation::new(bounds);

    sim.add_object(square);
    sim.add_object(square2);
    sim.add_object(square3);
    let first = Fixed::new(pair(128, 192), pair(128, 24));
    let second = Fixed::new(pair(32, 192), pair(32, 64));
    sim.add_object(first);
    sim.add_object(second);
    assert(sim@.kinetic =~= seq![square, square2, square3]);
    assert(sim@.fixed =~= seq![first, second]);
    sim
}

} // verus!
