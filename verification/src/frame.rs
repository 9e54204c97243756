//! One full simulation frame: force accumulation and obstacle avoidance
//! (which touch disjoint accumulator channels and may run in either order),
//! then steering normalization, then integration.  Each stage completes
//! before the next reads what it wrote.

use vstd::prelude::*;

use crate::agent::{Bounds, Fish, Obstacle, Physics, Simulation, FLOCK_LIMIT, OBSTACLE_LIMIT,
    bounds_wf, flock_cleared, flock_data_wf, flock_wf, obstacles_wf, physics_wf, simulation_wf};
use crate::forces::{accumulated_upto, avoided_upto, fish_avoid_obstacles, fish_calculate_force};
use crate::integrate::{fish_update, integrated};
use crate::steering::{fish_normalize_force, normalized};
use crate::SCALE;

verus! {

/// The flock `s4` is `s0` taken through one whole frame, via the
/// intermediate flocks `s1` (after force accumulation), `s2` (after obstacle
/// avoidance) and `s3` (after steering normalization).  Each step is the
/// corresponding stage's exact per-fish relation, so together the five
/// flocks pin every field of every fish in `s4` from `s0` alone.
pub open spec fn frame_stages(s0: Seq<Fish>, s1: Seq<Fish>, s2: Seq<Fish>, s3: Seq<Fish>,
    s4: Seq<Fish>, obs: Seq<Obstacle>, p: Physics, sim: Simulation, dt: int, b: Bounds) -> bool {
    &&& s1.len() == s0.len()
    &&& s2.len() == s0.len()
    &&& s3.len() == s0.len()
    &&& s4.len() == s0.len()
    &&& forall|k: int| 0 <= k < s0.len()
        ==> accumulated_upto(s0, #[trigger] s1[k], p, k, s0.len() as int)
    &&& forall|k: int| 0 <= k < s0.len()
        ==> avoided_upto(s1, obs, #[trigger] s2[k], k, obs.len() as int)
    &&& forall|k: int| 0 <= k < s0.len() ==> normalized(s2, #[trigger] s3[k], p, k)
    &&& forall|k: int| 0 <= k < s0.len() ==> integrated(s3, #[trigger] s4[k], p, sim, dt, b, k)
}

/// Runs the four stages of one frame in their required order.  The final
/// flock is the composition of the four exact stage relations (witnessed by
/// the intermediate flocks of `frame_stages`); at the frame boundary the
/// accumulators and accelerations are zero again and every fish sits inside
/// the bounds.
pub fn run_frame(fish: &mut Vec<Fish>, obstacles: &Vec<Obstacle>, physics: &Physics,
    simulation: &Simulation, delta_time: i64, bounds: &Bounds)
    requires
        flock_wf(old(fish)@),
        flock_cleared(old(fish)@),
        old(fish)@.len() <= FLOCK_LIMIT,
        obstacles_wf(obstacles@),
        obstacles@.len() <= OBSTACLE_LIMIT,
        physics_wf(*physics),
        simulation_wf(*simulation),
        bounds_wf(*bounds),
        0 <= delta_time <= SCALE,
    ensures
        final(fish)@.len() == old(fish)@.len(),
        exists|s1: Seq<Fish>, s2: Seq<Fish>, s3: Seq<Fish>|
            #[trigger] frame_stages(old(fish)@, s1, s2, s3, final(fish)@, obstacles@, *physics,
                *simulation, delta_time as int, *bounds),
        flock_wf(final(fish)@),
        flock_cleared(final(fish)@),
        forall|k: int| 0 <= k < final(fish)@.len() ==> {
            let f = #[trigger] final(fish)@[k];
            &&& f.acceleration.x == 0 && f.acceleration.y == 0
            &&& bounds.a.x <= f.position.x <= bounds.b.x
            &&& bounds.a.y <= f.position.y <= bounds.b.y
        },
{
    fish_calculate_force(fish, physics);
    assert(crate::agent::flock_avoid_cleared(fish@));
    let ghost s1 = fish@;
    fish_avoid_obstacles(fish, obstacles);
    assert(flock_data_wf(fish@));
    let ghost s2 = fish@;
    fish_normalize_force(fish, physics);
    let ghost s3 = fish@;
    fish_update(fish, physics, simulation, delta_time, bounds);
    proof {
        assert(frame_stages(old(fish)@, s1, s2, s3, fish@, obstacles@, *physics, *simulation,
            delta_time as int, *bounds));
    }
}

} // verus!
