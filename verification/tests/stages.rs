use boids_core::agent::{Bounds, Fish, FishData, Obstacle, Physics, Simulation};
use boids_core::forces::{fish_avoid_obstacles, fish_calculate_force};
use boids_core::frame::run_frame;
use boids_core::integrate::fish_update;
use boids_core::steering::fish_normalize_force;
use boids_core::vec2::Vec2;

fn fish_at(x: i64, y: i64, vx: i64, vy: i64) -> Fish {
    Fish {
        position: Vec2 { x, y },
        velocity: Vec2 { x: vx, y: vy },
        acceleration: Vec2 { x: 0, y: 0 },
        data: FishData::cleared(),
    }
}

#[test]
fn separation_scenario_two_fish() {
    // Two fish at (0,0) and (10,0) world units, separation radius 25.
    let physics = Physics::default();
    assert_eq!(physics.separation_radius, 25_000);
    let mut fish = vec![fish_at(0, 0, 0, 0), fish_at(10_000, 0, 0, 0)];
    fish_calculate_force(&mut fish, &physics);
    assert_eq!(fish[0].data.f_sep, Vec2 { x: -1000, y: 0 });
    assert_eq!(fish[0].data.f_sep_count, 1);
    assert_eq!(fish[1].data.f_sep, Vec2 { x: 1000, y: 0 });
    assert_eq!(fish[1].data.f_sep_count, 1);
}

#[test]
fn pair_contributions_are_symmetric() {
    let physics = Physics::default();
    let mut fish = vec![fish_at(0, 0, 10, 20), fish_at(3000, 4000, 30, 40)];
    fish_calculate_force(&mut fish, &physics);
    // Separation: exact negation (distance 5 world units).
    assert_eq!(fish[0].data.f_sep, Vec2 { x: -600, y: -800 });
    assert_eq!(fish[1].data.f_sep, Vec2 { x: 600, y: 800 });
    // Alignment: each accumulates the partner's velocity, not a negation.
    assert_eq!(fish[0].data.f_align, Vec2 { x: 30, y: 40 });
    assert_eq!(fish[1].data.f_align, Vec2 { x: 10, y: 20 });
    assert_eq!(fish[0].data.f_align_count, 1);
    assert_eq!(fish[1].data.f_align_count, 1);
    // Cohesion: each accumulates the partner's position.
    assert_eq!(fish[0].data.f_cohesion, Vec2 { x: 3000, y: 4000 });
    assert_eq!(fish[1].data.f_cohesion, Vec2 { x: 0, y: 0 });
    assert_eq!(fish[0].data.f_cohesion_count, 1);
    assert_eq!(fish[1].data.f_cohesion_count, 1);
}

#[test]
fn coincident_fish_contribute_nothing() {
    let physics = Physics::default();
    let mut fish = vec![fish_at(500, 500, 10, 0), fish_at(500, 500, 0, 10)];
    fish_calculate_force(&mut fish, &physics);
    for f in &fish {
        assert_eq!(f.data.f_sep, Vec2 { x: 0, y: 0 });
        assert_eq!(f.data.f_sep_count, 0);
        assert_eq!(f.data.f_align, Vec2 { x: 0, y: 0 });
        assert_eq!(f.data.f_align_count, 0);
        assert_eq!(f.data.f_cohesion, Vec2 { x: 0, y: 0 });
        assert_eq!(f.data.f_cohesion_count, 0);
    }
}

#[test]
fn obstacle_within_radius_repels() {
    let mut fish = vec![fish_at(0, 0, 0, 0)];
    let obstacles = vec![Obstacle { position: Vec2 { x: 3000, y: 4000 } }];
    fish_avoid_obstacles(&mut fish, &obstacles);
    assert_eq!(fish[0].data.f_avoid, Vec2 { x: -600, y: -800 });
    assert_eq!(fish[0].data.f_avoid_count, 1);
}

#[test]
fn obstacle_at_fish_position_is_skipped() {
    let mut fish = vec![fish_at(1234, -999, 0, 0)];
    let obstacles = vec![Obstacle { position: Vec2 { x: 1234, y: -999 } }];
    fish_avoid_obstacles(&mut fish, &obstacles);
    assert_eq!(fish[0].data.f_avoid, Vec2 { x: 0, y: 0 });
    assert_eq!(fish[0].data.f_avoid_count, 0);
}

#[test]
fn obstacle_outside_radius_is_ignored() {
    // Distance exactly 50 world units is not within the strict radius.
    let mut fish = vec![fish_at(0, 0, 0, 0)];
    let obstacles = vec![Obstacle { position: Vec2 { x: 30_000, y: 40_000 } }];
    fish_avoid_obstacles(&mut fish, &obstacles);
    assert_eq!(fish[0].data.f_avoid_count, 0);
}

#[test]
fn normalize_caps_force_and_resets_accumulators() {
    let physics = Physics::default();
    let mut fish = vec![fish_at(0, 0, 0, 0)];
    fish[0].data.f_avoid = Vec2 { x: 1000, y: 0 };
    fish[0].data.f_avoid_count = 1;
    fish_normalize_force(&mut fish, &physics);
    // One avoidance contribution steers at full weight; the combined force is
    // then rescaled to exactly max_force (0.1 world units).
    assert_eq!(fish[0].acceleration, Vec2 { x: 100, y: 0 });
    // Idempotent reset: all four accumulators are zero afterwards.
    assert_eq!(fish[0].data, FishData::cleared());
}

#[test]
fn normalize_resets_accumulators_whatever_they_held() {
    let physics = Physics::default();
    let mut fish = vec![fish_at(100, 200, 300, 400)];
    fish[0].data.f_sep = Vec2 { x: 777, y: -777 };
    fish[0].data.f_sep_count = 3;
    fish[0].data.f_align = Vec2 { x: -5, y: 5 };
    fish[0].data.f_align_count = 2;
    fish[0].data.f_cohesion = Vec2 { x: 10_000, y: 10_000 };
    fish[0].data.f_cohesion_count = 4;
    fish[0].data.f_avoid = Vec2 { x: 9, y: 9 };
    fish[0].data.f_avoid_count = 1;
    fish_normalize_force(&mut fish, &physics);
    assert_eq!(fish[0].data, FishData::cleared());
    // The force cap holds: |acceleration| <= max_force in each component,
    // and the squared length never exceeds max_force^2.
    let a = fish[0].acceleration;
    assert!(a.x * a.x + a.y * a.y <= 100 * 100);
}

#[test]
fn lone_fish_gets_zero_acceleration_and_keeps_direction() {
    let physics = Physics::default();
    let simulation = Simulation::default();
    let bounds = Bounds::default();
    let mut fish = vec![fish_at(0, 0, 3000, 4000)];
    let obstacles: Vec<Obstacle> = Vec::new();
    fish_calculate_force(&mut fish, &physics);
    fish_avoid_obstacles(&mut fish, &obstacles);
    fish_normalize_force(&mut fish, &physics);
    assert_eq!(fish[0].acceleration, Vec2 { x: 0, y: 0 });
    // Integration only renormalizes the velocity to velocity_mag (1.0):
    // (3, 4) becomes (0.6, 0.8), the direction kept.
    fish_update(&mut fish, &physics, &simulation, 1000, &bounds);
    assert_eq!(fish[0].velocity, Vec2 { x: 600, y: 800 });
    // One second at 60x multiplier advances the position by 60 * velocity.
    assert_eq!(fish[0].position, Vec2 { x: 36_000, y: 48_000 });
    assert_eq!(fish[0].acceleration, Vec2 { x: 0, y: 0 });
}

#[test]
fn zero_velocity_stays_zero() {
    let physics = Physics::default();
    let simulation = Simulation::default();
    let bounds = Bounds::default();
    let mut fish = vec![fish_at(100, 100, 0, 0)];
    fish_update(&mut fish, &physics, &simulation, 1000, &bounds);
    assert_eq!(fish[0].velocity, Vec2 { x: 0, y: 0 });
    assert_eq!(fish[0].position, Vec2 { x: 100, y: 100 });
}

#[test]
fn wrap_right_edge_to_left() {
    let physics = Physics::default();
    let simulation = Simulation::default();
    let bounds = Bounds::default();
    let mut fish = vec![fish_at(499_000, 123, 1000, 0)];
    fish_update(&mut fish, &physics, &simulation, 1000, &bounds);
    // Raw position 559.0 exceeds the right edge 500.0: teleported to the
    // left edge; y is unaffected by an x-crossing.
    assert_eq!(fish[0].position.x, -500_000);
    assert_eq!(fish[0].position.y, 123);
}

#[test]
fn wrap_bottom_edge_to_top() {
    let physics = Physics::default();
    let simulation = Simulation::default();
    let bounds = Bounds::default();
    let mut fish = vec![fish_at(321, -499_000, 0, -1000)];
    fish_update(&mut fish, &physics, &simulation, 1000, &bounds);
    assert_eq!(fish[0].position.x, 321);
    assert_eq!(fish[0].position.y, 500_000);
}

#[test]
fn full_frame_leaves_accumulators_clear_and_fish_in_bounds() {
    let physics = Physics::default();
    let simulation = Simulation::default();
    let bounds = Bounds::default();
    let mut fish = vec![
        fish_at(0, 0, 1000, 0),
        fish_at(5000, 0, 0, 1000),
        fish_at(-400_000, 300_000, -500, -500),
    ];
    let obstacles = vec![Obstacle { position: Vec2 { x: 2000, y: 2000 } }];
    run_frame(&mut fish, &obstacles, &physics, &simulation, 16, &bounds);
    assert_eq!(fish.len(), 3);
    for f in &fish {
        assert_eq!(f.data, FishData::cleared());
        assert_eq!(f.acceleration, Vec2 { x: 0, y: 0 });
        assert!(bounds.a.x <= f.position.x && f.position.x <= bounds.b.x);
        assert!(bounds.a.y <= f.position.y && f.position.y <= bounds.b.y);
        // Speed cap: after a frame the squared speed never exceeds
        // velocity_mag^2.
        assert!(f.velocity.x * f.velocity.x + f.velocity.y * f.velocity.y
            <= physics.velocity_mag * physics.velocity_mag);
    }
}
