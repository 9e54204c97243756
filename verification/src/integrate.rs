//! Integration stage.
//!
//! For each fish, independently: the acceleration (scaled by the frame time
//! and the acceleration multiplier) is added to the velocity; the velocity
//! is renormalized to exactly the speed cap (a zero velocity stays zero
//! rather than producing an undefined direction); the position advances by
//! the velocity scaled by the frame time and the velocity multiplier; the
//! position wraps toroidally at the bounds, each axis independently; the
//! acceleration resets to zero.  The facing of a fish is the direction of
//! its velocity; extracting a display angle from it is the renderer's
//! concern and not part of the core.

use vstd::prelude::*;

use crate::agent::{Bounds, Fish, Physics, Simulation, bounds_wf, flock_wf, physics_wf,
    simulation_wf};
use crate::math::{div_trunc, div_tz};
use crate::vec2::{V2, Vec2, lemma_div_tz_bound, lemma_mul_abs_bound, scale_to, scale_to_spec,
    v2_zero};
use crate::SCALE;

verus! {

/// Fixed-point product: `a * b` in world units, truncated toward zero.
pub open spec fn mul_fp(a: int, b: int) -> int {
    div_tz(a * b, SCALE as int)
}

/// The velocity after the acceleration is applied, before renormalization:
/// `velocity + acceleration * delta_time * acceleration_multiplier`.
pub open spec fn vel_plus_accel(g: Fish, sim: Simulation, delta_time: int) -> V2 {
    V2 {
        x: g.velocity@.x + mul_fp(mul_fp(g.acceleration@.x, delta_time),
            sim.acceleration_multiplier as int),
        y: g.velocity@.y + mul_fp(mul_fp(g.acceleration@.y, delta_time),
            sim.acceleration_multiplier as int),
    }
}

/// The velocity the stage writes: renormalized to exactly the speed cap,
/// the zero vector staying zero.
pub open spec fn new_velocity(g: Fish, p: Physics, sim: Simulation, delta_time: int) -> V2 {
    scale_to_spec(vel_plus_accel(g, sim, delta_time), p.velocity_mag as int)
}

/// One axis of the position advance: `v * delta_time * velocity_multiplier`.
pub open spec fn pos_step(v: int, sim: Simulation, delta_time: int) -> int {
    mul_fp(mul_fp(v, delta_time), sim.velocity_multiplier as int)
}

/// Toroidal wrap of one coordinate: crossing an edge teleports to the
/// opposite edge; a coordinate inside `[lo, hi]` is untouched.
pub open spec fn wrap_coord(x: int, lo: int, hi: int) -> int {
    if x < lo {
        hi
    } else if x > hi {
        lo
    } else {
        x
    }
}

/// The position before wrapping.
pub open spec fn raw_position(g: Fish, p: Physics, sim: Simulation, delta_time: int) -> V2 {
    let v = new_velocity(g, p, sim, delta_time);
    V2 {
        x: g.position@.x + pos_step(v.x, sim, delta_time),
        y: g.position@.y + pos_step(v.y, sim, delta_time),
    }
}

/// The position the stage writes: advanced, then wrapped per axis.
pub open spec fn new_position(g: Fish, p: Physics, sim: Simulation, delta_time: int, b: Bounds)
    -> V2 {
    let raw = raw_position(g, p, sim, delta_time);
    V2 {
        x: wrap_coord(raw.x, b.a@.x, b.b@.x),
        y: wrap_coord(raw.y, b.a@.y, b.b@.y),
    }
}

/// Fish `f` is `s0[k]` after the stage: velocity renormalized, position
/// advanced and wrapped, acceleration cleared, accumulators untouched.
pub open spec fn integrated(s0: Seq<Fish>, f: Fish, p: Physics, sim: Simulation, delta_time: int,
    b: Bounds, k: int) -> bool {
    let g = s0[k];
    &&& f.velocity@ == new_velocity(g, p, sim, delta_time)
    &&& f.position@ == new_position(g, p, sim, delta_time, b)
    &&& f.acceleration@ == v2_zero()
    &&& f.data == g.data
}

/// Toroidal wrap law: a coordinate under the lower edge is relocated to
/// exactly the upper edge, one over the upper edge to exactly the lower
/// edge, and one inside the bounds is untouched; each axis wraps alone.
pub proof fn lemma_toroidal_wrap(x: int, lo: int, hi: int)
    requires
        lo <= hi,
    ensures
        x < lo ==> wrap_coord(x, lo, hi) == hi,
        x > hi ==> wrap_coord(x, lo, hi) == lo,
        lo <= x <= hi ==> wrap_coord(x, lo, hi) == x,
        lo <= wrap_coord(x, lo, hi) <= hi,
{
}

/// Speed-cap law: the renormalized velocity never exceeds the speed cap in
/// fixed-point length; for a non-zero velocity it equals the cap up to a
/// truncation error of at most 3 ticks, and a velocity that collapsed to
/// zero stays at zero instead of acquiring an undefined direction.
pub proof fn lemma_speed_cap(g: Fish, p: Physics, sim: Simulation, delta_time: int)
    requires
        physics_wf(p),
    ensures
        crate::vec2::v2_len(new_velocity(g, p, sim, delta_time)) <= p.velocity_mag,
        vel_plus_accel(g, sim, delta_time) != v2_zero() && p.velocity_mag >= 5
            ==> crate::vec2::v2_len(new_velocity(g, p, sim, delta_time)) >= p.velocity_mag - 3,
        vel_plus_accel(g, sim, delta_time) == v2_zero()
            ==> new_velocity(g, p, sim, delta_time) == v2_zero(),
{
    crate::vec2::lemma_scale_to_len_cap(vel_plus_accel(g, sim, delta_time),
        p.velocity_mag as int);
}

/// Integration stage: applies each fish's acceleration to its velocity,
/// caps the speed, advances and wraps the position, and clears the
/// acceleration.  `delta_time` is the frame time in fixed-point seconds; the
/// one-second cap is overflow headroom for the fixed-point products, not a
/// behavioural limit.
pub fn fish_update(fish: &mut Vec<Fish>, physics: &Physics, simulation: &Simulation,
    delta_time: i64, bounds: &Bounds)
    requires
        flock_wf(old(fish)@),
        physics_wf(*physics),
        simulation_wf(*simulation),
        bounds_wf(*bounds),
        0 <= delta_time <= SCALE,
    ensures
        final(fish)@.len() == old(fish)@.len(),
        forall|k: int| 0 <= k < old(fish)@.len()
            ==> integrated(old(fish)@, #[trigger] final(fish)@[k], *physics, *simulation,
                delta_time as int, *bounds, k),
        flock_wf(final(fish)@),
        forall|k: int| 0 <= k < final(fish)@.len() ==> {
            let f = #[trigger] final(fish)@[k];
            bounds.a@.x <= f.position@.x <= bounds.b@.x
                && bounds.a@.y <= f.position@.y <= bounds.b@.y
        },
{
    let n: usize = fish.len();
    let mut i: usize = 0;
    while i < n
        invariant
            n == old(fish)@.len(),
            fish@.len() == n,
            0 <= i <= n,
            flock_wf(old(fish)@),
            physics_wf(*physics),
            simulation_wf(*simulation),
            bounds_wf(*bounds),
            0 <= delta_time <= SCALE,
            forall|k: int| 0 <= k < i ==> integrated(old(fish)@, #[trigger] fish@[k], *physics,
                *simulation, delta_time as int, *bounds, k)
                && crate::agent::fish_wf(fish@[k])
                && bounds.a@.x <= fish@[k].position@.x <= bounds.b@.x
                && bounds.a@.y <= fish@[k].position@.y <= bounds.b@.y,
            forall|k: int| i <= k < n ==> #[trigger] fish@[k] == old(fish)@[k],
        decreases n - i,
    {
        let fi: Fish = fish[i];
        let ghost g = old(fish)@[i as int];

        proof {
            lemma_mul_abs_bound(g.acceleration@.x, delta_time as int, 1_000_000, SCALE as int);
            lemma_mul_abs_bound(g.acceleration@.y, delta_time as int, 1_000_000, SCALE as int);
            lemma_div_tz_bound(g.acceleration@.x * delta_time, SCALE as int, 1_000_000);
            lemma_div_tz_bound(g.acceleration@.y * delta_time, SCALE as int, 1_000_000);
        }
        let hx: i64 = div_trunc(fi.acceleration.x * delta_time, SCALE);
        let hy: i64 = div_trunc(fi.acceleration.y * delta_time, SCALE);
        proof {
            lemma_mul_abs_bound(hx as int, simulation.acceleration_multiplier as int, 1_000_000,
                100 * SCALE as int);
            lemma_mul_abs_bound(hy as int, simulation.acceleration_multiplier as int, 1_000_000,
                100 * SCALE as int);
            lemma_div_tz_bound(hx as int * simulation.acceleration_multiplier as int,
                SCALE as int, 100_000_000);
            lemma_div_tz_bound(hy as int * simulation.acceleration_multiplier as int,
                SCALE as int, 100_000_000);
        }
        let dvx: i64 = div_trunc(hx * simulation.acceleration_multiplier, SCALE);
        let dvy: i64 = div_trunc(hy * simulation.acceleration_multiplier, SCALE);
        let vel: Vec2 = scale_to(&Vec2 { x: fi.velocity.x + dvx, y: fi.velocity.y + dvy },
            physics.velocity_mag);

        proof {
            lemma_mul_abs_bound(vel.x as int, delta_time as int, 10 * SCALE as int, SCALE as int);
            lemma_mul_abs_bound(vel.y as int, delta_time as int, 10 * SCALE as int, SCALE as int);
            lemma_div_tz_bound(vel.x as int * delta_time, SCALE as int, 10 * SCALE as int);
            lemma_div_tz_bound(vel.y as int * delta_time, SCALE as int, 10 * SCALE as int);
        }
        let sx: i64 = div_trunc(vel.x * delta_time, SCALE);
        let sy: i64 = div_trunc(vel.y * delta_time, SCALE);
        proof {
            lemma_mul_abs_bound(sx as int, simulation.velocity_multiplier as int,
                10 * SCALE as int, 100 * SCALE as int);
            lemma_mul_abs_bound(sy as int, simulation.velocity_multiplier as int,
                10 * SCALE as int, 100 * SCALE as int);
            lemma_div_tz_bound(sx as int * simulation.velocity_multiplier as int, SCALE as int,
                1_000_000);
            lemma_div_tz_bound(sy as int * simulation.velocity_multiplier as int, SCALE as int,
                1_000_000);
        }
        let dx: i64 = div_trunc(sx * simulation.velocity_multiplier, SCALE);
        let dy: i64 = div_trunc(sy * simulation.velocity_multiplier, SCALE);

        let mut px: i64 = fi.position.x + dx;
        let mut py: i64 = fi.position.y + dy;
        if px < bounds.a.x {
            px = bounds.b.x;
        } else if px > bounds.b.x {
            px = bounds.a.x;
        }
        if py < bounds.a.y {
            py = bounds.b.y;
        } else if py > bounds.b.y {
            py = bounds.a.y;
        }

        let mut nfi: Fish = fi;
        nfi.velocity = vel;
        nfi.position = Vec2 { x: px, y: py };
        nfi.acceleration = Vec2 { x: 0, y: 0 };
        fish[i] = nfi;
        i = i + 1;
    }
}

} // verus!
