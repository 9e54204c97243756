use boids_core::agent::{set_bounds, Bounds, FishCount, Physics, Simulation};
use boids_core::math::{div_trunc, isqrt};
use boids_core::population::{obstacle_from_click, on_fish_count_change, SPAWN_VEL_RANGE};
use boids_core::vec2::{distance, scale_to, Vec2};

#[test]
fn defaults_match_documented_tuning() {
    let p = Physics::default();
    assert_eq!(p.align_radius, 50_000);
    assert_eq!(p.cohesion_radius, 75_000);
    assert_eq!(p.separation_radius, 25_000);
    assert_eq!(p.align_factor, 100);
    assert_eq!(p.cohesion_factor, 100);
    assert_eq!(p.separation_factor, 800);
    assert_eq!(p.velocity_mag, 1000);
    assert_eq!(p.max_force, 100);
    let s = Simulation::default();
    assert_eq!(s.velocity_multiplier, 60_000);
    assert_eq!(s.acceleration_multiplier, 60_000);
    assert_eq!(FishCount::default().count, 200);
    let b = Bounds::default();
    assert_eq!(b.a, Vec2 { x: -500_000, y: -500_000 });
    assert_eq!(b.b, Vec2 { x: 500_000, y: 500_000 });
}

#[test]
fn isqrt_exact_values() {
    assert_eq!(isqrt(0), 0);
    assert_eq!(isqrt(1), 1);
    assert_eq!(isqrt(143), 11);
    assert_eq!(isqrt(144), 12);
    assert_eq!(isqrt(145), 12);
    assert_eq!(isqrt(10_000_000_000), 100_000);
}

#[test]
fn div_trunc_rounds_toward_zero() {
    assert_eq!(div_trunc(7, 2), 3);
    assert_eq!(div_trunc(-7, 2), -3);
    assert_eq!(div_trunc(0, 5), 0);
    assert_eq!(div_trunc(-1, 1000), 0);
}

#[test]
fn distance_of_a_right_triangle() {
    let a = Vec2 { x: 0, y: 0 };
    let b = Vec2 { x: 3000, y: 4000 };
    assert_eq!(distance(&a, &b), 5000);
    assert_eq!(distance(&b, &a), 5000);
    assert_eq!(distance(&a, &a), 0);
}

#[test]
fn scale_to_keeps_direction_and_caps_length() {
    let v = Vec2 { x: 3000, y: 4000 };
    assert_eq!(scale_to(&v, 1000), Vec2 { x: 600, y: 800 });
    let w = Vec2 { x: -3000, y: 4000 };
    assert_eq!(scale_to(&w, 1000), Vec2 { x: -600, y: 800 });
    let z = Vec2 { x: 0, y: 0 };
    assert_eq!(scale_to(&z, 1000), Vec2 { x: 0, y: 0 });
    // A diagonal that does not divide evenly still never exceeds the cap.
    let d = Vec2 { x: 1, y: 1 };
    let r = scale_to(&d, 1000);
    assert!(r.x * r.x + r.y * r.y <= 1000 * 1000);
}

#[test]
fn growing_the_flock_spawns_inside_bounds() {
    let bounds = Bounds::default();
    let mut fish = Vec::new();
    on_fish_count_change(&mut fish, &FishCount { count: 200 }, &bounds);
    assert_eq!(fish.len(), 200);
    let before = fish.clone();
    on_fish_count_change(&mut fish, &FishCount { count: 250 }, &bounds);
    assert_eq!(fish.len(), 250);
    for k in 0..200 {
        assert_eq!(fish[k].position, before[k].position);
        assert_eq!(fish[k].velocity, before[k].velocity);
    }
    for f in &fish {
        assert!(bounds.a.x <= f.position.x && f.position.x < bounds.b.x);
        assert!(bounds.a.y <= f.position.y && f.position.y < bounds.b.y);
        assert!(-SPAWN_VEL_RANGE <= f.velocity.x && f.velocity.x < SPAWN_VEL_RANGE);
        assert!(-SPAWN_VEL_RANGE <= f.velocity.y && f.velocity.y < SPAWN_VEL_RANGE);
        assert_eq!(f.acceleration, Vec2 { x: 0, y: 0 });
        assert_eq!(f.data.f_sep_count, 0);
        assert_eq!(f.data.f_align_count, 0);
        assert_eq!(f.data.f_cohesion_count, 0);
        assert_eq!(f.data.f_avoid_count, 0);
    }
}

#[test]
fn shrinking_the_flock_removes_from_the_end() {
    let bounds = Bounds::default();
    let mut fish = Vec::new();
    on_fish_count_change(&mut fish, &FishCount { count: 250 }, &bounds);
    assert_eq!(fish.len(), 250);
    let before = fish.clone();
    on_fish_count_change(&mut fish, &FishCount { count: 200 }, &bounds);
    assert_eq!(fish.len(), 200);
    for k in 0..200 {
        assert_eq!(fish[k].position, before[k].position);
        assert_eq!(fish[k].velocity, before[k].velocity);
    }
}

#[test]
fn bounds_from_viewport_are_centred() {
    let b = set_bounds(1_920_000, 1_080_000);
    assert_eq!(b.a, Vec2 { x: -960_000, y: -540_000 });
    assert_eq!(b.b, Vec2 { x: 960_000, y: 540_000 });
}

#[test]
fn click_inside_bounds_places_an_obstacle() {
    let bounds = Bounds::default();
    let cursor = Vec2 { x: 600_000, y: 200_000 };
    let r = obstacle_from_click(&cursor, &bounds);
    let o = r.expect("click maps inside the bounds");
    assert_eq!(o.position, Vec2 { x: 100_000, y: 300_000 });
}

#[test]
fn click_outside_bounds_places_nothing() {
    let bounds = Bounds::default();
    // Maps to the left edge exactly, which is not strictly inside.
    assert!(obstacle_from_click(&Vec2 { x: 0, y: 200_000 }, &bounds).is_none());
    // Maps far past the right edge.
    assert!(obstacle_from_click(&Vec2 { x: 10_000_000, y: 200_000 }, &bounds).is_none());
}
