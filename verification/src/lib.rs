//! Deterministic 2D box physics: axis-aligned bodies that fall, bounce and
//! slide, computed in saturating fixed-point arithmetic.
pub mod clock;
pub mod collision;
pub mod laws;
pub mod objects;
pub mod render;
pub mod scalar;
pub mod scenes;
pub mod simulation;
pub mod vec2;

pub use scalar::Scalar;
pub use simulation::Simulation;
pub use vec2::Vec2;

use core::time::Duration;
use vstd::prelude::*;

verus! {

/// Something that advances with time.
pub trait Tick {
    /// Advances by `delta`.
    fn tick(&mut self, delta: Duration);
}

} // verus!
