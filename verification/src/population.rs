//! Population control and obstacle placement.
//!
//! Between frames the desired fish count is compared with the flock: missing
//! fish are spawned with a position drawn uniformly inside the bounds and a
//! small random initial velocity, excess fish are removed from the end.  A
//! pointer click is mapped into world coordinates and, when strictly inside
//! the bounds, becomes one obstacle.

use vstd::prelude::*;

use crate::agent::{Bounds, Fish, FishCount, FishData, Obstacle, FLOCK_LIMIT, POS_LIMIT,
    bounds_wf, data_cleared, fish_wf};
use crate::vec2::Vec2;

verus! {

/// Half-width of the initial-velocity range: components are drawn from
/// `[-4, 4)` world units.
pub const SPAWN_VEL_RANGE: i64 = 4_000;

/// Relies on rand::thread_rng and rand::Rng::gen_range: a sample drawn
/// uniformly from the half-open range `[lo, hi)` (gen_range panics only on
/// an empty range, which the precondition rules out).
#[verifier::external_body]
fn rand_in_range(lo: i64, hi: i64) -> (r: i64)
    requires
        lo < hi,
    ensures
        lo <= r < hi,
{
    rand::Rng::gen_range(&mut rand::thread_rng(), lo..hi)
}

/// A freshly spawned fish: position inside `b`, velocity in the initial
/// range, no acceleration, accumulators clear.
pub open spec fn spawned_fish_ok(f: Fish, b: Bounds) -> bool {
    &&& b.a.x <= f.position.x < b.b.x
    &&& b.a.y <= f.position.y < b.b.y
    &&& -SPAWN_VEL_RANGE <= f.velocity.x < SPAWN_VEL_RANGE
    &&& -SPAWN_VEL_RANGE <= f.velocity.y < SPAWN_VEL_RANGE
    &&& f.acceleration.x == 0 && f.acceleration.y == 0
    &&& data_cleared(f.data)
}

/// One new fish with randomized position inside the bounds and randomized
/// initial velocity.
pub fn spawn_fish(bounds: &Bounds) -> (f: Fish)
    requires
        bounds_wf(*bounds),
    ensures
        spawned_fish_ok(f, *bounds),
        fish_wf(f),
{
    let x: i64 = rand_in_range(bounds.a.x, bounds.b.x);
    let y: i64 = rand_in_range(bounds.a.y, bounds.b.y);
    let vx: i64 = rand_in_range(-SPAWN_VEL_RANGE, SPAWN_VEL_RANGE);
    let vy: i64 = rand_in_range(-SPAWN_VEL_RANGE, SPAWN_VEL_RANGE);
    Fish {
        position: Vec2 { x: x, y: y },
        velocity: Vec2 { x: vx, y: vy },
        acceleration: Vec2 { x: 0, y: 0 },
        data: FishData::cleared(),
    }
}

/// Population control: spawns fish until the flock reaches the desired
/// count, or removes fish from the end down to it.  Fish below the desired
/// count are untouched; every spawned fish starts inside the bounds with a
/// small random velocity and clear accumulators.
pub fn on_fish_count_change(fish: &mut Vec<Fish>, fish_count: &FishCount, bounds: &Bounds)
    requires
        0 <= fish_count.count <= FLOCK_LIMIT,
        bounds_wf(*bounds),
    ensures
        final(fish)@.len() == fish_count.count,
        forall|k: int| 0 <= k < old(fish)@.len() && k < fish_count.count
            ==> #[trigger] final(fish)@[k] == old(fish)@[k],
        forall|k: int| old(fish)@.len() <= k < fish_count.count
            ==> spawned_fish_ok(#[trigger] final(fish)@[k], *bounds)
                && fish_wf(final(fish)@[k]),
{
    let desired: usize = fish_count.count as usize;
    if fish.len() < desired {
        while fish.len() < desired
            invariant
                old(fish)@.len() <= fish@.len() <= desired,
                desired == fish_count.count,
                bounds_wf(*bounds),
                forall|k: int| 0 <= k < old(fish)@.len()
                    ==> #[trigger] fish@[k] == old(fish)@[k],
                forall|k: int| old(fish)@.len() <= k < fish@.len()
                    ==> spawned_fish_ok(#[trigger] fish@[k], *bounds) && fish_wf(fish@[k]),
            decreases desired - fish@.len(),
        {
            let f: Fish = spawn_fish(bounds);
            fish.push(f);
        }
    } else {
        while fish.len() > desired
            invariant
                desired <= fish@.len() <= old(fish)@.len(),
                desired == fish_count.count,
                forall|k: int| 0 <= k < fish@.len() ==> #[trigger] fish@[k] == old(fish)@[k],
            decreases fish@.len(),
        {
            fish.pop();
        }
    }
}

/// Obstacle placement from a pointer click: the screen coordinate is mapped
/// into world coordinates relative to the bounds; strictly inside them it
/// becomes one obstacle, otherwise nothing is placed.
pub fn obstacle_from_click(cursor: &Vec2, bounds: &Bounds) -> (r: Option<Obstacle>)
    requires
        bounds_wf(*bounds),
        -POS_LIMIT <= cursor.x <= POS_LIMIT,
        -POS_LIMIT <= cursor.y <= POS_LIMIT,
    ensures
        ({
            let wx = cursor.x + bounds.a.x;
            let wy = -(cursor.y + bounds.a.y);
            &&& (r is Some <==> bounds.a.x < wx < bounds.b.x && bounds.a.y < wy < bounds.b.y)
            &&& (r is Some ==> r->Some_0.position.x == wx && r->Some_0.position.y == wy)
        }),
{
    let wx: i64 = cursor.x + bounds.a.x;
    let wy: i64 = -(cursor.y + bounds.a.y);
    if wx > bounds.a.x && wx < bounds.b.x && wy > bounds.a.y && wy < bounds.b.y {
        Some(Obstacle { position: Vec2 { x: wx, y: wy } })
    } else {
        None
    }
}

} // verus!
