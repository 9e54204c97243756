//! The simulated records and their well-formedness: fish (kinematic state
//! plus per-frame scratch accumulators), point obstacles, the toroidal
//! bounds, and the tunable parameters, with their default values.
//!
//! All magnitudes are fixed-point: `SCALE` ticks per world unit.

use vstd::prelude::*;

use crate::vec2::Vec2;
use crate::SCALE;

verus! {

/// Largest admitted magnitude of a position component.
pub const POS_LIMIT: i64 = 10_000_000;

/// Largest admitted magnitude of a velocity component.
pub const VEL_LIMIT: i64 = 1_000_000;

/// Largest admitted magnitude of an acceleration component.
pub const ACC_LIMIT: i64 = 1_000_000;

/// Largest admitted flock size for one frame.
pub const FLOCK_LIMIT: usize = 100_000;

/// Largest admitted number of obstacles for one frame.
pub const OBSTACLE_LIMIT: usize = 100_000;

/// Obstacle-avoidance radius, deliberately fixed rather than tunable (50 units).
pub const AVOID_RADIUS: i64 = 50_000;

/// Obstacle-avoidance steering weight, deliberately fixed rather than tunable (10).
pub const AVOID_FACTOR: i64 = 10_000;

/// Per-frame scratch accumulators of one fish: raw force sums and the number
/// of contributions behind each sum.  Transient: zero at the start and at
/// the end of every frame.
#[derive(Clone, Copy, PartialEq, Eq, Structural, Debug)]
pub struct FishData {
    pub f_sep: Vec2,
    pub f_sep_count: i64,
    pub f_avoid: Vec2,
    pub f_avoid_count: i64,
    pub f_align: Vec2,
    pub f_align_count: i64,
    pub f_cohesion: Vec2,
    pub f_cohesion_count: i64,
}

/// One simulated fish.
#[derive(Clone, Copy, PartialEq, Eq, Structural, Debug)]
pub struct Fish {
    pub position: Vec2,
    pub velocity: Vec2,
    pub acceleration: Vec2,
    pub data: FishData,
}

/// A static point repellent.
#[derive(Clone, Copy, PartialEq, Eq, Structural, Debug)]
pub struct Obstacle {
    pub position: Vec2,
}

/// Axis-aligned toroidal world rectangle: `a` the minimum corner, `b` the
/// maximum corner.
#[derive(Clone, Copy, PartialEq, Eq, Structural, Debug)]
pub struct Bounds {
    pub a: Vec2,
    pub b: Vec2,
}

/// Neighbour-steering parameters (radii, weights, caps).
#[derive(Clone, Copy, PartialEq, Eq, Structural, Debug)]
pub struct Physics {
    pub align_radius: i64,
    pub cohesion_radius: i64,
    pub separation_radius: i64,
    pub align_factor: i64,
    pub cohesion_factor: i64,
    pub separation_factor: i64,
    pub velocity_mag: i64,
    pub max_force: i64,
}

/// Time-scaling parameters of the integration stage.
#[derive(Clone, Copy, PartialEq, Eq, Structural, Debug)]
pub struct Simulation {
    pub velocity_multiplier: i64,
    pub acceleration_multiplier: i64,
}

/// Desired flock size, owned by the population-control collaborator.
#[derive(Clone, Copy, PartialEq, Eq, Structural, Debug)]
pub struct FishCount {
    pub count: i64,
}

pub open spec fn vec2_in_range(v: Vec2, limit: int) -> bool {
    -limit <= v.x <= limit && -limit <= v.y <= limit
}

/// Kinematic state within the admitted magnitudes.
pub open spec fn fish_wf(f: Fish) -> bool {
    &&& vec2_in_range(f.position, POS_LIMIT as int)
    &&& vec2_in_range(f.velocity, VEL_LIMIT as int)
    &&& vec2_in_range(f.acceleration, ACC_LIMIT as int)
}

pub open spec fn flock_wf(s: Seq<Fish>) -> bool {
    forall|i: int| 0 <= i < s.len() ==> fish_wf(#[trigger] s[i])
}

/// Every obstacle lies within the admitted position range.
pub open spec fn obstacles_wf(s: Seq<Obstacle>) -> bool {
    forall|i: int| 0 <= i < s.len() ==> vec2_in_range(#[trigger] s[i].position, POS_LIMIT as int)
}

/// The three neighbour channels (separation, alignment, cohesion) hold no
/// leftover contributions.
pub open spec fn neighbor_channels_cleared(d: FishData) -> bool {
    &&& d.f_sep.x == 0 && d.f_sep.y == 0 && d.f_sep_count == 0
    &&& d.f_align.x == 0 && d.f_align.y == 0 && d.f_align_count == 0
    &&& d.f_cohesion.x == 0 && d.f_cohesion.y == 0 && d.f_cohesion_count == 0
}

/// The obstacle channel holds no leftover contributions.
pub open spec fn avoid_channel_cleared(d: FishData) -> bool {
    d.f_avoid.x == 0 && d.f_avoid.y == 0 && d.f_avoid_count == 0
}

/// All four accumulators are zero, as they must be at a frame boundary.
pub open spec fn data_cleared(d: FishData) -> bool {
    neighbor_channels_cleared(d) && avoid_channel_cleared(d)
}

pub open spec fn flock_neighbor_cleared(s: Seq<Fish>) -> bool {
    forall|i: int| 0 <= i < s.len() ==> neighbor_channels_cleared(#[trigger] s[i].data)
}

pub open spec fn flock_avoid_cleared(s: Seq<Fish>) -> bool {
    forall|i: int| 0 <= i < s.len() ==> avoid_channel_cleared(#[trigger] s[i].data)
}

pub open spec fn flock_cleared(s: Seq<Fish>) -> bool {
    forall|i: int| 0 <= i < s.len() ==> data_cleared(#[trigger] s[i].data)
}

/// The three neighbour channels hold plausible accumulation results: counts
/// nonnegative and within the flock limit, each sum bounded per contribution
/// (a separation entry is a `SCALE`-scaled unit vector, an alignment entry a
/// velocity, a cohesion entry a position).
pub open spec fn neighbor_data_wf(d: FishData) -> bool {
    &&& 0 <= d.f_sep_count <= FLOCK_LIMIT
    &&& -d.f_sep_count * SCALE <= d.f_sep.x <= d.f_sep_count * SCALE
    &&& -d.f_sep_count * SCALE <= d.f_sep.y <= d.f_sep_count * SCALE
    &&& 0 <= d.f_align_count <= FLOCK_LIMIT
    &&& -d.f_align_count * VEL_LIMIT <= d.f_align.x <= d.f_align_count * VEL_LIMIT
    &&& -d.f_align_count * VEL_LIMIT <= d.f_align.y <= d.f_align_count * VEL_LIMIT
    &&& 0 <= d.f_cohesion_count <= FLOCK_LIMIT
    &&& -d.f_cohesion_count * POS_LIMIT <= d.f_cohesion.x <= d.f_cohesion_count * POS_LIMIT
    &&& -d.f_cohesion_count * POS_LIMIT <= d.f_cohesion.y <= d.f_cohesion_count * POS_LIMIT
}

/// The obstacle channel holds a plausible accumulation result.
pub open spec fn avoid_data_wf(d: FishData) -> bool {
    &&& 0 <= d.f_avoid_count <= OBSTACLE_LIMIT
    &&& -d.f_avoid_count * SCALE <= d.f_avoid.x <= d.f_avoid_count * SCALE
    &&& -d.f_avoid_count * SCALE <= d.f_avoid.y <= d.f_avoid_count * SCALE
}

/// All four accumulators hold plausible accumulation results.
pub open spec fn data_wf(d: FishData) -> bool {
    neighbor_data_wf(d) && avoid_data_wf(d)
}

pub open spec fn flock_data_wf(s: Seq<Fish>) -> bool {
    forall|i: int| 0 <= i < s.len() ==> data_wf(#[trigger] s[i].data)
}

/// Parameter ranges the configuration collaborator documents: radii in
/// [0, 100], weights in [0, 10], speed cap in [0, 10], force cap in [0, 1].
pub open spec fn physics_wf(p: Physics) -> bool {
    &&& 0 <= p.align_radius <= 100 * SCALE
    &&& 0 <= p.cohesion_radius <= 100 * SCALE
    &&& 0 <= p.separation_radius <= 100 * SCALE
    &&& 0 <= p.align_factor <= 10 * SCALE
    &&& 0 <= p.cohesion_factor <= 10 * SCALE
    &&& 0 <= p.separation_factor <= 10 * SCALE
    &&& 0 <= p.velocity_mag <= 10 * SCALE
    &&& 0 <= p.max_force <= 1 * SCALE
}

/// Time multipliers in [0, 100].
pub open spec fn simulation_wf(s: Simulation) -> bool {
    &&& 0 <= s.velocity_multiplier <= 100 * SCALE
    &&& 0 <= s.acceleration_multiplier <= 100 * SCALE
}

/// A proper rectangle whose corners lie within the admitted position range.
pub open spec fn bounds_wf(b: Bounds) -> bool {
    &&& b.a.x < b.b.x
    &&& b.a.y < b.b.y
    &&& vec2_in_range(b.a, POS_LIMIT as int)
    &&& vec2_in_range(b.b, POS_LIMIT as int)
}

impl FishData {
    /// Accumulators all zero, the state between frames.
    pub fn cleared() -> (r: FishData)
        ensures
            data_cleared(r),
    {
        FishData {
            f_sep: Vec2 { x: 0, y: 0 },
            f_sep_count: 0,
            f_avoid: Vec2 { x: 0, y: 0 },
            f_avoid_count: 0,
            f_align: Vec2 { x: 0, y: 0 },
            f_align_count: 0,
            f_cohesion: Vec2 { x: 0, y: 0 },
            f_cohesion_count: 0,
        }
    }
}

impl Default for FishData {
    fn default() -> (r: FishData)
        ensures
            data_cleared(r),
    {
        FishData::cleared()
    }
}

impl Default for Physics {
    /// The default tuning: radii 25/50/75 units, weights 0.8/0.1/0.1,
    /// speed cap 1.0, force cap 0.1.
    fn default() -> (r: Physics)
        ensures
            r.align_radius == 50 * SCALE,
            r.cohesion_radius == 75 * SCALE,
            r.separation_radius == 25 * SCALE,
            r.align_factor == SCALE / 10,
            r.cohesion_factor == SCALE / 10,
            r.separation_factor == 8 * SCALE / 10,
            r.velocity_mag == SCALE,
            r.max_force == SCALE / 10,
            physics_wf(r),
    {
        Physics {
            align_radius: 50_000,
            cohesion_radius: 75_000,
            separation_radius: 25_000,
            align_factor: 100,
            cohesion_factor: 100,
            separation_factor: 800,
            velocity_mag: 1000,
            max_force: 100,
        }
    }
}

impl Default for Simulation {
    /// The default time scaling: both multipliers 60.
    fn default() -> (r: Simulation)
        ensures
            r.velocity_multiplier == 60 * SCALE,
            r.acceleration_multiplier == 60 * SCALE,
            simulation_wf(r),
    {
        Simulation { velocity_multiplier: 60_000, acceleration_multiplier: 60_000 }
    }
}

impl Default for FishCount {
    /// The default starting population.
    fn default() -> (r: FishCount)
        ensures
            r.count == 200,
    {
        FishCount { count: 200 }
    }
}

impl Default for Bounds {
    /// The default world: a square 1000 units across, centred on the origin.
    fn default() -> (r: Bounds)
        ensures
            r.a.x == -500 * SCALE,
            r.a.y == -500 * SCALE,
            r.b.x == 500 * SCALE,
            r.b.y == 500 * SCALE,
            bounds_wf(r),
    {
        Bounds {
            a: Vec2 { x: -500_000, y: -500_000 },
            b: Vec2 { x: 500_000, y: 500_000 },
        }
    }
}

/// Bounds recomputed from a viewport size: a rectangle centred at the origin
/// with half-extents of half the width and height.
pub fn set_bounds(width: i64, height: i64) -> (r: Bounds)
    requires
        2 <= width <= 2 * POS_LIMIT,
        2 <= height <= 2 * POS_LIMIT,
    ensures
        r.b.x == width / 2,
        r.b.y == height / 2,
        r.a.x == -r.b.x,
        r.a.y == -r.b.y,
        bounds_wf(r),
{
    let hw: i64 = ((width as u64) / 2) as i64;
    let hh: i64 = ((height as u64) / 2) as i64;
    Bounds {
        a: Vec2 { x: -hw, y: -hh },
        b: Vec2 { x: hw, y: hh },
    }
}

} // verus!
