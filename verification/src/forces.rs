//! The two accumulation stages of a frame.
//!
//! Force accumulation scans every unordered pair of distinct fish once; a
//! pair at distance `d` contributes to a channel exactly when `d != 0` and
//! `d` is under the channel's radius (a coincident pair is skipped, so no
//! direction is ever divided out of a zero distance).  Obstacle avoidance
//! scans every fish/obstacle pair the same way under the fixed avoidance
//! radius.  Both stages write only each fish's own accumulators and leave
//! all kinematic state untouched, so they may run in either order.

use vstd::prelude::*;

use crate::agent::{Fish, Obstacle, Physics, AVOID_RADIUS, FLOCK_LIMIT, OBSTACLE_LIMIT, POS_LIMIT,
    VEL_LIMIT, flock_avoid_cleared, flock_neighbor_cleared, flock_wf, obstacles_wf, physics_wf};
use crate::math::{div_trunc, lemma_sqrt_floor_bounds};
use crate::vec2::{V2, Vec2, dist, dist2, lemma_component_le_len, lemma_dist_symmetric,
    lemma_div_tz_bound, lemma_div_tz_neg, lemma_mul_abs_bound,
    norm2, unit_toward, v2_add, v2_sub, v2_zero};
use crate::SCALE;

verus! {

/// A pair at distance `d` contributes to a channel of radius `r` exactly
/// when the two positions differ and lie closer than `r`.
pub open spec fn within(d: int, r: int) -> bool {
    d != 0 && d < r
}

/// 1 when the pair `(i, j)` contributes under radius `r`, else 0.
pub open spec fn pair_count(s: Seq<Fish>, i: int, j: int, r: int) -> int {
    if within(dist(s[i].position@, s[j].position@), r) {
        1
    } else {
        0
    }
}

/// Separation contribution of fish `j` to fish `i`: the unit vector from `j`
/// toward `i`, or zero when the pair is out of range or coincident.
pub open spec fn sep_pair(s: Seq<Fish>, i: int, j: int, r: int) -> V2 {
    let d = dist(s[i].position@, s[j].position@);
    if within(d, r) {
        unit_toward(s[i].position@, s[j].position@, d)
    } else {
        v2_zero()
    }
}

/// Alignment contribution of fish `j` to fish `i`: `j`'s velocity.
pub open spec fn align_pair(s: Seq<Fish>, i: int, j: int, r: int) -> V2 {
    if within(dist(s[i].position@, s[j].position@), r) {
        s[j].velocity@
    } else {
        v2_zero()
    }
}

/// Cohesion contribution of fish `j` to fish `i`: `j`'s position.
pub open spec fn coh_pair(s: Seq<Fish>, i: int, j: int, r: int) -> V2 {
    if within(dist(s[i].position@, s[j].position@), r) {
        s[j].position@
    } else {
        v2_zero()
    }
}

/// Number of fish `j < upto`, `j != i`, contributing to `i` under radius `r`.
pub open spec fn count_total(s: Seq<Fish>, i: int, upto: int, r: int) -> int
    decreases upto,
{
    if upto <= 0 {
        0
    } else {
        count_total(s, i, upto - 1, r) + if upto - 1 == i {
            0
        } else {
            pair_count(s, i, upto - 1, r)
        }
    }
}

/// Separation sum over all fish `j < upto`, `j != i`.
pub open spec fn sep_total(s: Seq<Fish>, i: int, upto: int, r: int) -> V2
    decreases upto,
{
    if upto <= 0 {
        v2_zero()
    } else {
        v2_add(sep_total(s, i, upto - 1, r), if upto - 1 == i {
            v2_zero()
        } else {
            sep_pair(s, i, upto - 1, r)
        })
    }
}

/// Alignment sum over all fish `j < upto`, `j != i`.
pub open spec fn align_total(s: Seq<Fish>, i: int, upto: int, r: int) -> V2
    decreases upto,
{
    if upto <= 0 {
        v2_zero()
    } else {
        v2_add(align_total(s, i, upto - 1, r), if upto - 1 == i {
            v2_zero()
        } else {
            align_pair(s, i, upto - 1, r)
        })
    }
}

/// Cohesion sum over all fish `j < upto`, `j != i`.
pub open spec fn coh_total(s: Seq<Fish>, i: int, upto: int, r: int) -> V2
    decreases upto,
{
    if upto <= 0 {
        v2_zero()
    } else {
        v2_add(coh_total(s, i, upto - 1, r), if upto - 1 == i {
            v2_zero()
        } else {
            coh_pair(s, i, upto - 1, r)
        })
    }
}

/// Avoidance contribution of obstacle `j` to fish `i`: the unit vector from
/// the obstacle toward the fish, under the fixed avoidance radius.
pub open spec fn avoid_pair(s: Seq<Fish>, obs: Seq<Obstacle>, i: int, j: int) -> V2 {
    let d = dist(s[i].position@, obs[j].position@);
    if within(d, AVOID_RADIUS as int) {
        unit_toward(s[i].position@, obs[j].position@, d)
    } else {
        v2_zero()
    }
}

/// 1 when obstacle `j` contributes to fish `i`, else 0.
pub open spec fn avoid_pair_count(s: Seq<Fish>, obs: Seq<Obstacle>, i: int, j: int) -> int {
    if within(dist(s[i].position@, obs[j].position@), AVOID_RADIUS as int) {
        1
    } else {
        0
    }
}

/// Avoidance sum over all obstacles `j < upto`.
pub open spec fn avoid_total(s: Seq<Fish>, obs: Seq<Obstacle>, i: int, upto: int) -> V2
    decreases upto,
{
    if upto <= 0 {
        v2_zero()
    } else {
        v2_add(avoid_total(s, obs, i, upto - 1), avoid_pair(s, obs, i, upto - 1))
    }
}

/// Number of obstacles `j < upto` contributing to fish `i`.
pub open spec fn avoid_count_total(s: Seq<Fish>, obs: Seq<Obstacle>, i: int, upto: int) -> int
    decreases upto,
{
    if upto <= 0 {
        0
    } else {
        avoid_count_total(s, obs, i, upto - 1) + avoid_pair_count(s, obs, i, upto - 1)
    }
}

/// A unit vector's components are at most `SCALE` in magnitude, and a
/// nonzero distance is positive.
pub proof fn lemma_unit_toward_bounded(a: V2, b: V2)
    requires
        dist(a, b) != 0,
    ensures
        dist(a, b) > 0,
        -SCALE <= unit_toward(a, b, dist(a, b)).x <= SCALE,
        -SCALE <= unit_toward(a, b, dist(a, b)).y <= SCALE,
{
    let w = v2_sub(a, b);
    let d = dist(a, b);
    assert(norm2(w) >= 0) by (nonlinear_arith) {}
    lemma_sqrt_floor_bounds(norm2(w));
    lemma_component_le_len(w);
    lemma_mul_abs_bound(w.x, SCALE as int, d, SCALE as int);
    lemma_mul_abs_bound(w.y, SCALE as int, d, SCALE as int);
    lemma_div_tz_bound(w.x * SCALE, d, SCALE as int);
    lemma_div_tz_bound(w.y * SCALE, d, SCALE as int);
}

/// The contribution count over a prefix lies between 0 and the prefix length.
pub proof fn lemma_count_total_bounds(s: Seq<Fish>, i: int, upto: int, r: int)
    requires
        upto >= 0,
    ensures
        0 <= count_total(s, i, upto, r) <= upto,
    decreases upto,
{
    if upto > 0 {
        lemma_count_total_bounds(s, i, upto - 1, r);
    }
}

/// The separation sum is bounded by `SCALE` per contribution.
pub proof fn lemma_sep_total_bound(s: Seq<Fish>, i: int, upto: int, r: int)
    requires
        upto >= 0,
    ensures
        -count_total(s, i, upto, r) * SCALE <= sep_total(s, i, upto, r).x
            <= count_total(s, i, upto, r) * SCALE,
        -count_total(s, i, upto, r) * SCALE <= sep_total(s, i, upto, r).y
            <= count_total(s, i, upto, r) * SCALE,
    decreases upto,
{
    if upto > 0 {
        lemma_sep_total_bound(s, i, upto - 1, r);
        lemma_count_total_bounds(s, i, upto - 1, r);
        if upto - 1 != i && within(dist(s[i].position@, s[upto - 1].position@), r) {
            lemma_unit_toward_bounded(s[i].position@, s[upto - 1].position@);
        }
    }
}

/// The alignment sum is bounded by `VEL_LIMIT` per contribution.
pub proof fn lemma_align_total_bound(s: Seq<Fish>, i: int, upto: int, r: int)
    requires
        upto >= 0,
        flock_wf(s),
        upto <= s.len(),
    ensures
        -count_total(s, i, upto, r) * VEL_LIMIT <= align_total(s, i, upto, r).x
            <= count_total(s, i, upto, r) * VEL_LIMIT,
        -count_total(s, i, upto, r) * VEL_LIMIT <= align_total(s, i, upto, r).y
            <= count_total(s, i, upto, r) * VEL_LIMIT,
    decreases upto,
{
    if upto > 0 {
        lemma_align_total_bound(s, i, upto - 1, r);
        lemma_count_total_bounds(s, i, upto - 1, r);
    }
}

/// The cohesion sum is bounded by `POS_LIMIT` per contribution.
pub proof fn lemma_coh_total_bound(s: Seq<Fish>, i: int, upto: int, r: int)
    requires
        upto >= 0,
        flock_wf(s),
        upto <= s.len(),
    ensures
        -count_total(s, i, upto, r) * POS_LIMIT <= coh_total(s, i, upto, r).x
            <= count_total(s, i, upto, r) * POS_LIMIT,
        -count_total(s, i, upto, r) * POS_LIMIT <= coh_total(s, i, upto, r).y
            <= count_total(s, i, upto, r) * POS_LIMIT,
    decreases upto,
{
    if upto > 0 {
        lemma_coh_total_bound(s, i, upto - 1, r);
        lemma_count_total_bounds(s, i, upto - 1, r);
    }
}

/// The avoidance count over a prefix lies between 0 and the prefix length.
pub proof fn lemma_avoid_count_total_bounds(s: Seq<Fish>, obs: Seq<Obstacle>, i: int, upto: int)
    requires
        upto >= 0,
    ensures
        0 <= avoid_count_total(s, obs, i, upto) <= upto,
    decreases upto,
{
    if upto > 0 {
        lemma_avoid_count_total_bounds(s, obs, i, upto - 1);
    }
}

/// The avoidance sum is bounded by `SCALE` per contribution.
pub proof fn lemma_avoid_total_bound(s: Seq<Fish>, obs: Seq<Obstacle>, i: int, upto: int)
    requires
        upto >= 0,
    ensures
        -avoid_count_total(s, obs, i, upto) * SCALE <= avoid_total(s, obs, i, upto).x
            <= avoid_count_total(s, obs, i, upto) * SCALE,
        -avoid_count_total(s, obs, i, upto) * SCALE <= avoid_total(s, obs, i, upto).y
            <= avoid_count_total(s, obs, i, upto) * SCALE,
    decreases upto,
{
    if upto > 0 {
        lemma_avoid_total_bound(s, obs, i, upto - 1);
        lemma_avoid_count_total_bounds(s, obs, i, upto - 1);
        if within(dist(s[i].position@, obs[upto - 1].position@), AVOID_RADIUS as int) {
            lemma_unit_toward_bounded(s[i].position@, obs[upto - 1].position@);
        }
    }
}

/// Symmetry law: for two distinct fish within a radius, the separation
/// contribution added to one is the exact negation of the contribution added
/// to the other, their contribution counts agree, and the alignment and
/// cohesion contributions are each the partner's velocity and position, not
/// negations.
pub proof fn lemma_pair_symmetry(s: Seq<Fish>, i: int, j: int, r: int)
    requires
        0 <= i < s.len(),
        0 <= j < s.len(),
        i != j,
    ensures
        sep_pair(s, i, j, r) == crate::vec2::v2_neg(sep_pair(s, j, i, r)),
        pair_count(s, i, j, r) == pair_count(s, j, i, r),
        within(dist(s[i].position@, s[j].position@), r)
            ==> align_pair(s, i, j, r) == s[j].velocity@
                && align_pair(s, j, i, r) == s[i].velocity@
                && coh_pair(s, i, j, r) == s[j].position@
                && coh_pair(s, j, i, r) == s[i].position@,
{
    let a = s[i].position@;
    let b = s[j].position@;
    lemma_dist_symmetric(a, b);
    let d = dist(a, b);
    if within(d, r) {
        lemma_unit_toward_bounded(a, b);
        lemma_div_tz_neg((a.x - b.x) * SCALE, d);
        lemma_div_tz_neg((a.y - b.y) * SCALE, d);
    }
}

/// Zero-distance exclusion law: a coincident pair of fish contributes
/// nothing to any channel of either fish.
pub proof fn lemma_zero_distance_excluded(s: Seq<Fish>, i: int, j: int, r: int)
    requires
        0 <= i < s.len(),
        0 <= j < s.len(),
        s[i].position == s[j].position,
    ensures
        sep_pair(s, i, j, r) == v2_zero(),
        align_pair(s, i, j, r) == v2_zero(),
        coh_pair(s, i, j, r) == v2_zero(),
        pair_count(s, i, j, r) == 0,
{
    assert(dist2(s[i].position@, s[j].position@) == 0) by (nonlinear_arith)
        requires
            s[i].position@ == s[j].position@,
    {}
}

/// Zero-distance exclusion law for obstacles: an obstacle at a fish's exact
/// position contributes nothing to the fish's avoidance channel.
pub proof fn lemma_zero_distance_obstacle_excluded(s: Seq<Fish>, obs: Seq<Obstacle>, i: int,
    j: int)
    requires
        0 <= i < s.len(),
        0 <= j < obs.len(),
        s[i].position == obs[j].position,
    ensures
        avoid_pair(s, obs, i, j) == v2_zero(),
        avoid_pair_count(s, obs, i, j) == 0,
{
    assert(dist2(s[i].position@, obs[j].position@) == 0) by (nonlinear_arith)
        requires
            s[i].position@ == obs[j].position@,
    {}
}

/// Fish `f` agrees with `s0[k]` on all kinematic state and the obstacle
/// channel, and its three neighbour channels hold exactly the contributions
/// of the fish before `upto`.
pub open spec fn accumulated_upto(s0: Seq<Fish>, f: Fish, p: Physics, k: int, upto: int) -> bool {
    let g = s0[k];
    &&& f.position == g.position
    &&& f.velocity == g.velocity
    &&& f.acceleration == g.acceleration
    &&& f.data.f_avoid == g.data.f_avoid
    &&& f.data.f_avoid_count == g.data.f_avoid_count
    &&& f.data.f_sep@ == sep_total(s0, k, upto, p.separation_radius as int)
    &&& f.data.f_sep_count == count_total(s0, k, upto, p.separation_radius as int)
    &&& f.data.f_align@ == align_total(s0, k, upto, p.align_radius as int)
    &&& f.data.f_align_count == count_total(s0, k, upto, p.align_radius as int)
    &&& f.data.f_cohesion@ == coh_total(s0, k, upto, p.cohesion_radius as int)
    &&& f.data.f_cohesion_count == count_total(s0, k, upto, p.cohesion_radius as int)
}

/// Force-accumulation stage: one scan over every unordered pair of distinct
/// fish, filling the separation, alignment and cohesion accumulators.
/// Kinematic state and the obstacle channel are untouched.
pub fn fish_calculate_force(fish: &mut Vec<Fish>, physics: &Physics)
    requires
        flock_wf(old(fish)@),
        flock_neighbor_cleared(old(fish)@),
        old(fish)@.len() <= FLOCK_LIMIT,
        physics_wf(*physics),
    ensures
        final(fish)@.len() == old(fish)@.len(),
        forall|k: int| 0 <= k < old(fish)@.len()
            ==> accumulated_upto(old(fish)@, #[trigger] final(fish)@[k], *physics, k,
                old(fish)@.len() as int),
        flock_wf(final(fish)@),
        forall|k: int| 0 <= k < old(fish)@.len()
            ==> crate::agent::neighbor_data_wf(#[trigger] final(fish)@[k].data),
{
    let n: usize = fish.len();
    let mut i: usize = 0;
    while i < n
        invariant
            n == old(fish)@.len(),
            fish@.len() == n,
            0 <= i <= n,
            n <= FLOCK_LIMIT,
            flock_wf(old(fish)@),
            flock_neighbor_cleared(old(fish)@),
            physics_wf(*physics),
            forall|k: int| 0 <= k < i
                ==> accumulated_upto(old(fish)@, #[trigger] fish@[k], *physics, k, n as int),
            forall|k: int| i <= k < n
                ==> accumulated_upto(old(fish)@, #[trigger] fish@[k], *physics, k, i as int),
        decreases n - i,
    {
        let ghost s0 = old(fish)@;
        let mut j: usize = i + 1;
        while j < n
            invariant
                s0 == old(fish)@,
                n == s0.len(),
                fish@.len() == n,
                0 <= i < n,
                i < j <= n,
                n <= FLOCK_LIMIT,
                flock_wf(s0),
                flock_neighbor_cleared(s0),
                physics_wf(*physics),
                forall|k: int| 0 <= k < i
                    ==> accumulated_upto(s0, #[trigger] fish@[k], *physics, k, n as int),
                accumulated_upto(s0, fish@[i as int], *physics, i as int, j as int),
                forall|k: int| i < k < j
                    ==> accumulated_upto(s0, #[trigger] fish@[k], *physics, k, i as int + 1),
                forall|k: int| j <= k < n
                    ==> accumulated_upto(s0, #[trigger] fish@[k], *physics, k, i as int),
            decreases n - j,
        {
            let fi: Fish = fish[i];
            let fj: Fish = fish[j];
            let d: i64 = crate::vec2::distance(&fi.position, &fj.position);
            proof {
                assert(fi.position == s0[i as int].position);
                assert(fj.position == s0[j as int].position);
                lemma_dist_symmetric(s0[i as int].position@, s0[j as int].position@);
            }
            if d != 0 {
                let mut nfi: Fish = fi;
                let mut nfj: Fish = fj;
                proof {
                    lemma_unit_toward_bounded(s0[i as int].position@, s0[j as int].position@);
                    lemma_unit_toward_bounded(s0[j as int].position@, s0[i as int].position@);
                    lemma_div_tz_neg((s0[i as int].position@.x - s0[j as int].position@.x) * SCALE,
                        d as int);
                    lemma_div_tz_neg((s0[i as int].position@.y - s0[j as int].position@.y) * SCALE,
                        d as int);
                    lemma_count_total_bounds(s0, i as int, j as int, physics.separation_radius as int);
                    lemma_count_total_bounds(s0, j as int, i as int, physics.separation_radius as int);
                    lemma_sep_total_bound(s0, i as int, j as int, physics.separation_radius as int);
                    lemma_sep_total_bound(s0, j as int, i as int, physics.separation_radius as int);
                    lemma_count_total_bounds(s0, i as int, j as int, physics.align_radius as int);
                    lemma_count_total_bounds(s0, j as int, i as int, physics.align_radius as int);
                    lemma_align_total_bound(s0, i as int, j as int, physics.align_radius as int);
                    lemma_align_total_bound(s0, j as int, i as int, physics.align_radius as int);
                    lemma_count_total_bounds(s0, i as int, j as int, physics.cohesion_radius as int);
                    lemma_count_total_bounds(s0, j as int, i as int, physics.cohesion_radius as int);
                    lemma_coh_total_bound(s0, i as int, j as int, physics.cohesion_radius as int);
                    lemma_coh_total_bound(s0, j as int, i as int, physics.cohesion_radius as int);
                }
                if d < physics.separation_radius {
                    let ux: i64 = div_trunc((fi.position.x - fj.position.x) * SCALE, d);
                    let uy: i64 = div_trunc((fi.position.y - fj.position.y) * SCALE, d);
                    nfi.data.f_sep = Vec2 { x: nfi.data.f_sep.x + ux, y: nfi.data.f_sep.y + uy };
                    nfi.data.f_sep_count = nfi.data.f_sep_count + 1;
                    nfj.data.f_sep = Vec2 { x: nfj.data.f_sep.x - ux, y: nfj.data.f_sep.y - uy };
                    nfj.data.f_sep_count = nfj.data.f_sep_count + 1;
                }
                if d < physics.align_radius {
                    nfi.data.f_align = Vec2 {
                        x: nfi.data.f_align.x + fj.velocity.x,
                        y: nfi.data.f_align.y + fj.velocity.y,
                    };
                    nfi.data.f_align_count = nfi.data.f_align_count + 1;
                    nfj.data.f_align = Vec2 {
                        x: nfj.data.f_align.x + fi.velocity.x,
                        y: nfj.data.f_align.y + fi.velocity.y,
                    };
                    nfj.data.f_align_count = nfj.data.f_align_count + 1;
                }
                if d < physics.cohesion_radius {
                    nfi.data.f_cohesion = Vec2 {
                        x: nfi.data.f_cohesion.x + fj.position.x,
                        y: nfi.data.f_cohesion.y + fj.position.y,
                    };
                    nfi.data.f_cohesion_count = nfi.data.f_cohesion_count + 1;
                    nfj.data.f_cohesion = Vec2 {
                        x: nfj.data.f_cohesion.x + fi.position.x,
                        y: nfj.data.f_cohesion.y + fi.position.y,
                    };
                    nfj.data.f_cohesion_count = nfj.data.f_cohesion_count + 1;
                }
                fish[i] = nfi;
                fish[j] = nfj;
            }
            j = j + 1;
        }
        i = i + 1;
    }
    proof {
        let s0 = old(fish)@;
        assert forall|k: int| 0 <= k < s0.len() implies
            crate::agent::neighbor_data_wf(fish@[k].data) by {
            lemma_count_total_bounds(s0, k, n as int, physics.separation_radius as int);
            lemma_sep_total_bound(s0, k, n as int, physics.separation_radius as int);
            lemma_count_total_bounds(s0, k, n as int, physics.align_radius as int);
            lemma_align_total_bound(s0, k, n as int, physics.align_radius as int);
            lemma_count_total_bounds(s0, k, n as int, physics.cohesion_radius as int);
            lemma_coh_total_bound(s0, k, n as int, physics.cohesion_radius as int);
        }
    }
}

/// Obstacle-avoidance stage: for every fish, one scan over the obstacles,
/// filling the obstacle channel.  Kinematic state and the three neighbour
/// channels are untouched.
pub fn fish_avoid_obstacles(fish: &mut Vec<Fish>, obstacles: &Vec<Obstacle>)
    requires
        flock_wf(old(fish)@),
        flock_avoid_cleared(old(fish)@),
        obstacles_wf(obstacles@),
        obstacles@.len() <= OBSTACLE_LIMIT,
    ensures
        final(fish)@.len() == old(fish)@.len(),
        forall|k: int| 0 <= k < old(fish)@.len() ==> {
            let f = #[trigger] final(fish)@[k];
            let g = old(fish)@[k];
            &&& f.position == g.position
            &&& f.velocity == g.velocity
            &&& f.acceleration == g.acceleration
            &&& f.data.f_sep == g.data.f_sep
            &&& f.data.f_sep_count == g.data.f_sep_count
            &&& f.data.f_align == g.data.f_align
            &&& f.data.f_align_count == g.data.f_align_count
            &&& f.data.f_cohesion == g.data.f_cohesion
            &&& f.data.f_cohesion_count == g.data.f_cohesion_count
            &&& f.data.f_avoid@ == avoid_total(old(fish)@, obstacles@, k, obstacles@.len() as int)
            &&& f.data.f_avoid_count == avoid_count_total(old(fish)@, obstacles@, k,
                obstacles@.len() as int)
        },
        flock_wf(final(fish)@),
        forall|k: int| 0 <= k < old(fish)@.len()
            ==> crate::agent::avoid_data_wf(#[trigger] final(fish)@[k].data),
{
    let n: usize = fish.len();
    let m: usize = obstacles.len();
    let mut i: usize = 0;
    while i < n
        invariant
            n == old(fish)@.len(),
            fish@.len() == n,
            m == obstacles@.len(),
            0 <= i <= n,
            m <= OBSTACLE_LIMIT,
            flock_wf(old(fish)@),
            flock_avoid_cleared(old(fish)@),
            obstacles_wf(obstacles@),
            forall|k: int| 0 <= k < i ==> avoided_upto(old(fish)@, obstacles@,
                #[trigger] fish@[k], k, m as int),
            forall|k: int| i <= k < n ==> #[trigger] fish@[k] == old(fish)@[k],
        decreases n - i,
    {
        let ghost s0 = old(fish)@;
        let mut j: usize = 0;
        while j < m
            invariant
                s0 == old(fish)@,
                n == s0.len(),
                fish@.len() == n,
                m == obstacles@.len(),
                0 <= i < n,
                0 <= j <= m,
                m <= OBSTACLE_LIMIT,
                flock_wf(s0),
                flock_avoid_cleared(s0),
                obstacles_wf(obstacles@),
                forall|k: int| 0 <= k < i ==> avoided_upto(s0, obstacles@,
                    #[trigger] fish@[k], k, m as int),
                avoided_upto(s0, obstacles@, fish@[i as int], i as int, j as int),
                forall|k: int| i < k < n ==> #[trigger] fish@[k] == s0[k],
            decreases m - j,
        {
            let fi: Fish = fish[i];
            let ob: Obstacle = obstacles[j];
            let d: i64 = crate::vec2::distance(&fi.position, &ob.position);
            if d != 0 && d < AVOID_RADIUS {
                proof {
                    lemma_unit_toward_bounded(s0[i as int].position@, obstacles@[j as int].position@);
                    lemma_avoid_count_total_bounds(s0, obstacles@, i as int, j as int);
                    lemma_avoid_total_bound(s0, obstacles@, i as int, j as int);
                }
                let mut nfi: Fish = fi;
                let ux: i64 = div_trunc((fi.position.x - ob.position.x) * SCALE, d);
                let uy: i64 = div_trunc((fi.position.y - ob.position.y) * SCALE, d);
                nfi.data.f_avoid = Vec2 { x: nfi.data.f_avoid.x + ux, y: nfi.data.f_avoid.y + uy };
                nfi.data.f_avoid_count = nfi.data.f_avoid_count + 1;
                fish[i] = nfi;
            }
            j = j + 1;
        }
        i = i + 1;
    }
    proof {
        let s0 = old(fish)@;
        assert forall|k: int| 0 <= k < s0.len() implies
            crate::agent::avoid_data_wf(fish@[k].data) by {
            lemma_avoid_count_total_bounds(s0, obstacles@, k, m as int);
            lemma_avoid_total_bound(s0, obstacles@, k, m as int);
        }
    }
}

/// Fish `f` agrees with `s0[k]` on all state except the obstacle channel,
/// which holds exactly the contributions of the obstacles before `upto`.
pub open spec fn avoided_upto(s0: Seq<Fish>, obs: Seq<Obstacle>, f: Fish, k: int, upto: int) -> bool {
    let g = s0[k];
    &&& f.position == g.position
    &&& f.velocity == g.velocity
    &&& f.acceleration == g.acceleration
    &&& f.data.f_sep == g.data.f_sep
    &&& f.data.f_sep_count == g.data.f_sep_count
    &&& f.data.f_align == g.data.f_align
    &&& f.data.f_align_count == g.data.f_align_count
    &&& f.data.f_cohesion == g.data.f_cohesion
    &&& f.data.f_cohesion_count == g.data.f_cohesion_count
    &&& f.data.f_avoid@ == avoid_total(s0, obs, k, upto)
    &&& f.data.f_avoid_count == avoid_count_total(s0, obs, k, upto)
}

} // verus!
