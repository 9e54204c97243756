//! Steering normalization stage.
//!
//! For each fish, independently: every accumulator channel with a non-zero
//! count is averaged, turned into a unit steering correction against the
//! current velocity (a zero inner vector steers not at all), and weighted by
//! the channel's factor; the four weighted steerings are summed, the sum is
//! rescaled to exactly the force cap when non-zero, the result becomes the
//! fish's acceleration, and all four accumulators are reset to zero.

use vstd::prelude::*;

use crate::agent::{Fish, FishData, Physics, AVOID_FACTOR, data_cleared, flock_data_wf, flock_wf,
    physics_wf};
use crate::math::{div_trunc, div_tz};
use crate::vec2::{V2, Vec2, lemma_div_tz_bound, lemma_mul_abs_bound, scale_to, scale_to_spec,
    v2_add, v2_sub, v2_zero};
use crate::SCALE;

verus! {

/// Average of an accumulated sum over its contribution count.
pub open spec fn avg_of(sum: V2, count: int) -> V2
    recommends
        count > 0,
{
    V2 { x: div_tz(sum.x, count), y: div_tz(sum.y, count) }
}

/// A unit steering vector scaled by a channel weight (fixed-point product).
pub open spec fn weighted(u: V2, w: int) -> V2 {
    V2 { x: div_tz(u.x * w, SCALE as int), y: div_tz(u.y * w, SCALE as int) }
}

/// Steering of a channel whose average is compared with the velocity
/// directly (separation, alignment, avoidance): zero when the channel is
/// empty, else the `SCALE`-scaled unit vector of `average - velocity`,
/// weighted by `w`.
pub open spec fn channel_steer(sum: V2, count: int, velocity: V2, w: int) -> V2 {
    if count > 0 {
        weighted(scale_to_spec(v2_sub(avg_of(sum, count), velocity), SCALE as int), w)
    } else {
        v2_zero()
    }
}

/// Cohesion steering: the average is a location, so the desired direction is
/// `average - position`, compared with the velocity and weighted by `w`.
pub open spec fn cohesion_steer(sum: V2, count: int, position: V2, velocity: V2, w: int) -> V2 {
    if count > 0 {
        weighted(scale_to_spec(v2_sub(v2_sub(avg_of(sum, count), position), velocity),
            SCALE as int), w)
    } else {
        v2_zero()
    }
}

/// The four weighted steerings summed, in the order separation, cohesion,
/// alignment, avoidance.
pub open spec fn combined_force(g: Fish, p: Physics) -> V2 {
    v2_add(v2_add(v2_add(
        channel_steer(g.data.f_sep@, g.data.f_sep_count as int, g.velocity@,
            p.separation_factor as int),
        cohesion_steer(g.data.f_cohesion@, g.data.f_cohesion_count as int, g.position@,
            g.velocity@, p.cohesion_factor as int)),
        channel_steer(g.data.f_align@, g.data.f_align_count as int, g.velocity@,
            p.align_factor as int)),
        channel_steer(g.data.f_avoid@, g.data.f_avoid_count as int, g.velocity@,
            AVOID_FACTOR as int))
}

/// The acceleration the stage writes: the combined force rescaled to exactly
/// the force cap, or zero when the combined force is zero.
pub open spec fn steering_accel(g: Fish, p: Physics) -> V2 {
    scale_to_spec(combined_force(g, p), p.max_force as int)
}

/// Force-cap law: however the four channels combine, the fixed-point length
/// of the acceleration the stage writes never exceeds the force cap, and
/// for a non-zero combined steering it equals the cap up to a truncation
/// error of at most 3 ticks.
pub proof fn lemma_force_cap(g: Fish, p: Physics)
    requires
        physics_wf(p),
    ensures
        crate::vec2::v2_len(steering_accel(g, p)) <= p.max_force,
        combined_force(g, p) != v2_zero() && p.max_force >= 5
            ==> crate::vec2::v2_len(steering_accel(g, p)) >= p.max_force - 3,
{
    crate::vec2::lemma_scale_to_len_cap(combined_force(g, p), p.max_force as int);
}

/// A fish whose accumulators are all empty steers nowhere: the stage writes
/// an acceleration of exactly zero.
pub proof fn lemma_no_contributions_no_steering(g: Fish, p: Physics)
    requires
        data_cleared(g.data),
    ensures
        steering_accel(g, p) == v2_zero(),
{
}

/// Fish `f` is `s0[k]` after the stage: kinematics kept, acceleration set to
/// the capped combined steering, accumulators reset.
pub open spec fn normalized(s0: Seq<Fish>, f: Fish, p: Physics, k: int) -> bool {
    let g = s0[k];
    &&& f.position == g.position
    &&& f.velocity == g.velocity
    &&& f.acceleration@ == steering_accel(g, p)
    &&& data_cleared(f.data)
}

/// Steering-normalization stage: converts every fish's raw accumulators into
/// one capped acceleration and resets the accumulators to zero.
pub fn fish_normalize_force(fish: &mut Vec<Fish>, physics: &Physics)
    requires
        flock_wf(old(fish)@),
        flock_data_wf(old(fish)@),
        physics_wf(*physics),
    ensures
        final(fish)@.len() == old(fish)@.len(),
        forall|k: int| 0 <= k < old(fish)@.len()
            ==> normalized(old(fish)@, #[trigger] final(fish)@[k], *physics, k),
        flock_wf(final(fish)@),
{
    let n: usize = fish.len();
    let mut i: usize = 0;
    while i < n
        invariant
            n == old(fish)@.len(),
            fish@.len() == n,
            0 <= i <= n,
            flock_wf(old(fish)@),
            flock_data_wf(old(fish)@),
            physics_wf(*physics),
            forall|k: int| 0 <= k < i
                ==> normalized(old(fish)@, #[trigger] fish@[k], *physics, k),
            forall|k: int| i <= k < n ==> #[trigger] fish@[k] == old(fish)@[k],
        decreases n - i,
    {
        let fi: Fish = fish[i];
        let ghost g = old(fish)@[i as int];

        let mut sep_steer: Vec2 = Vec2 { x: 0, y: 0 };
        if fi.data.f_sep_count > 0 {
            proof {
                lemma_div_tz_bound(g.data.f_sep@.x, g.data.f_sep_count as int, SCALE as int);
                lemma_div_tz_bound(g.data.f_sep@.y, g.data.f_sep_count as int, SCALE as int);
            }
            let ax: i64 = div_trunc(fi.data.f_sep.x, fi.data.f_sep_count);
            let ay: i64 = div_trunc(fi.data.f_sep.y, fi.data.f_sep_count);
            let u: Vec2 = scale_to(&Vec2 { x: ax - fi.velocity.x, y: ay - fi.velocity.y }, SCALE);
            proof {
                lemma_mul_abs_bound(u.x as int, physics.separation_factor as int, SCALE as int,
                    10 * SCALE as int);
                lemma_mul_abs_bound(u.y as int, physics.separation_factor as int, SCALE as int,
                    10 * SCALE as int);
                lemma_div_tz_bound(u.x as int * physics.separation_factor as int, SCALE as int,
                    10 * SCALE as int);
                lemma_div_tz_bound(u.y as int * physics.separation_factor as int, SCALE as int,
                    10 * SCALE as int);
            }
            sep_steer = Vec2 {
                x: div_trunc(u.x * physics.separation_factor, SCALE),
                y: div_trunc(u.y * physics.separation_factor, SCALE),
            };
        }
        assert(sep_steer@ == channel_steer(g.data.f_sep@, g.data.f_sep_count as int, g.velocity@,
            physics.separation_factor as int));
        assert(-10 * SCALE <= sep_steer.x <= 10 * SCALE && -10 * SCALE <= sep_steer.y
            <= 10 * SCALE);

        let mut coh_steer: Vec2 = Vec2 { x: 0, y: 0 };
        if fi.data.f_cohesion_count > 0 {
            proof {
                lemma_div_tz_bound(g.data.f_cohesion@.x, g.data.f_cohesion_count as int,
                    crate::agent::POS_LIMIT as int);
                lemma_div_tz_bound(g.data.f_cohesion@.y, g.data.f_cohesion_count as int,
                    crate::agent::POS_LIMIT as int);
            }
            let ax: i64 = div_trunc(fi.data.f_cohesion.x, fi.data.f_cohesion_count);
            let ay: i64 = div_trunc(fi.data.f_cohesion.y, fi.data.f_cohesion_count);
            let dx: i64 = ax - fi.position.x;
            let dy: i64 = ay - fi.position.y;
            let u: Vec2 = scale_to(&Vec2 { x: dx - fi.velocity.x, y: dy - fi.velocity.y }, SCALE);
            proof {
                lemma_mul_abs_bound(u.x as int, physics.cohesion_factor as int, SCALE as int,
                    10 * SCALE as int);
                lemma_mul_abs_bound(u.y as int, physics.cohesion_factor as int, SCALE as int,
                    10 * SCALE as int);
                lemma_div_tz_bound(u.x as int * physics.cohesion_factor as int, SCALE as int,
                    10 * SCALE as int);
                lemma_div_tz_bound(u.y as int * physics.cohesion_factor as int, SCALE as int,
                    10 * SCALE as int);
            }
            coh_steer = Vec2 {
                x: div_trunc(u.x * physics.cohesion_factor, SCALE),
                y: div_trunc(u.y * physics.cohesion_factor, SCALE),
            };
        }
        assert(coh_steer@ == cohesion_steer(g.data.f_cohesion@, g.data.f_cohesion_count as int,
            g.position@, g.velocity@, physics.cohesion_factor as int));
        assert(-10 * SCALE <= coh_steer.x <= 10 * SCALE && -10 * SCALE <= coh_steer.y
            <= 10 * SCALE);

        let mut align_steer: Vec2 = Vec2 { x: 0, y: 0 };
        if fi.data.f_align_count > 0 {
            proof {
                lemma_div_tz_bound(g.data.f_align@.x, g.data.f_align_count as int,
                    crate::agent::VEL_LIMIT as int);
                lemma_div_tz_bound(g.data.f_align@.y, g.data.f_align_count as int,
                    crate::agent::VEL_LIMIT as int);
            }
            let ax: i64 = div_trunc(fi.data.f_align.x, fi.data.f_align_count);
            let ay: i64 = div_trunc(fi.data.f_align.y, fi.data.f_align_count);
            let u: Vec2 = scale_to(&Vec2 { x: ax - fi.velocity.x, y: ay - fi.velocity.y }, SCALE);
            proof {
                lemma_mul_abs_bound(u.x as int, physics.align_factor as int, SCALE as int,
                    10 * SCALE as int);
                lemma_mul_abs_bound(u.y as int, physics.align_factor as int, SCALE as int,
                    10 * SCALE as int);
                lemma_div_tz_bound(u.x as int * physics.align_factor as int, SCALE as int,
                    10 * SCALE as int);
                lemma_div_tz_bound(u.y as int * physics.align_factor as int, SCALE as int,
                    10 * SCALE as int);
            }
            align_steer = Vec2 {
                x: div_trunc(u.x * physics.align_factor, SCALE),
                y: div_trunc(u.y * physics.align_factor, SCALE),
            };
        }
        assert(align_steer@ == channel_steer(g.data.f_align@, g.data.f_align_count as int,
            g.velocity@, physics.align_factor as int));
        assert(-10 * SCALE <= align_steer.x <= 10 * SCALE && -10 * SCALE <= align_steer.y
            <= 10 * SCALE);

        let mut avoid_steer: Vec2 = Vec2 { x: 0, y: 0 };
        if fi.data.f_avoid_count > 0 {
            proof {
                lemma_div_tz_bound(g.data.f_avoid@.x, g.data.f_avoid_count as int, SCALE as int);
                lemma_div_tz_bound(g.data.f_avoid@.y, g.data.f_avoid_count as int, SCALE as int);
            }
            let ax: i64 = div_trunc(fi.data.f_avoid.x, fi.data.f_avoid_count);
            let ay: i64 = div_trunc(fi.data.f_avoid.y, fi.data.f_avoid_count);
            let u: Vec2 = scale_to(&Vec2 { x: ax - fi.velocity.x, y: ay - fi.velocity.y }, SCALE);
            proof {
                lemma_mul_abs_bound(u.x as int, AVOID_FACTOR as int, SCALE as int,
                    10 * SCALE as int);
                lemma_mul_abs_bound(u.y as int, AVOID_FACTOR as int, SCALE as int,
                    10 * SCALE as int);
                lemma_div_tz_bound(u.x as int * AVOID_FACTOR as int, SCALE as int,
                    10 * SCALE as int);
                lemma_div_tz_bound(u.y as int * AVOID_FACTOR as int, SCALE as int,
                    10 * SCALE as int);
            }
            avoid_steer = Vec2 {
                x: div_trunc(u.x * AVOID_FACTOR, SCALE),
                y: div_trunc(u.y * AVOID_FACTOR, SCALE),
            };
        }
        assert(avoid_steer@ == channel_steer(g.data.f_avoid@, g.data.f_avoid_count as int,
            g.velocity@, AVOID_FACTOR as int));
        assert(-10 * SCALE <= avoid_steer.x <= 10 * SCALE && -10 * SCALE <= avoid_steer.y
            <= 10 * SCALE);

        let force: Vec2 = Vec2 {
            x: sep_steer.x + coh_steer.x + align_steer.x + avoid_steer.x,
            y: sep_steer.y + coh_steer.y + align_steer.y + avoid_steer.y,
        };
        assert(force@ == combined_force(g, *physics));
        let acc: Vec2 = scale_to(&force, physics.max_force);

        let mut nfi: Fish = fi;
        nfi.acceleration = acc;
        nfi.data = FishData::cleared();
        fish[i] = nfi;
        i = i + 1;
    }
    proof {
        assert forall|k: int| 0 <= k < n implies crate::agent::fish_wf(fish@[k]) by {
            crate::vec2::lemma_scale_to_component_bound(
                combined_force(old(fish)@[k], *physics), physics.max_force as int);
        }
    }
}

} // verus!
