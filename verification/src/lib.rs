//! Verified core of a 2D flocking ("boids") simulation.
//!
//! Agents ("fish") move in a toroidal rectangle, steering by separation,
//! alignment and cohesion against their neighbours and away from point
//! obstacles.  All coordinates, velocities and tunable parameters are held in
//! fixed-point form: an `i64` counts thousandths of a world unit (`SCALE`
//! units per 1.0).  The per-frame pipeline is: force accumulation and
//! obstacle avoidance (either order), then steering normalization, then
//! integration with toroidal wrap.

pub mod agent;
pub mod forces;
pub mod frame;
pub mod integrate;
pub mod math;
pub mod population;
pub mod steering;
pub mod vec2;

use vstd::prelude::*;

verus! {

/// Fixed-point scale: this many `i64` ticks make one world unit.
pub const SCALE: i64 = 1000;

} // verus!
