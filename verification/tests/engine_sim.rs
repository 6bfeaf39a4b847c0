//! Tests of the simulation engine: integration, wake scheduling, gating,
//! spawning, and the long-run scenario.

use bitoids::config::{standard_config, Config};
use bitoids::engine::{Extent, Simulation, DT_LIMIT_US};
use bitoids::vec2::Vec2;

fn zero() -> Vec2 {
    Vec2 { x: 0, y: 0 }
}

fn wide() -> Extent {
    Extent { half_width: 100_000_000, half_height: 100_000_000 }
}

fn norm2(v: Vec2) -> i64 {
    v.x * v.x + v.y * v.y
}

fn in_band(v: Vec2, c: &Config) -> bool {
    let n2 = norm2(v);
    c.min_velocity * c.min_velocity - 4 * c.min_velocity <= n2
        && n2 <= c.max_velocity * c.max_velocity + 2 * c.max_velocity
}

#[test]
fn integrator_clamps_spawn_velocity_into_band() {
    // A spawn velocity far over the band is normalized by the next
    // integration step.
    let c = standard_config();
    let mut sim = Simulation::new(c);
    sim.spawn(zero(), Vec2 { x: 50_000, y: 0 }, zero());
    sim.boid_move_system(16_667);
    let b = sim.get_boid(0);
    assert!(in_band(b.velocity, &c));
    assert_eq!(b.velocity, Vec2 { x: 1400, y: 0 });
}

#[test]
fn integrator_advances_position_by_scaled_velocity() {
    // dt 16667 us at speed 200 gives a frame factor of 3333/1000; the
    // in-band velocity (1000, 0) moves the boid by 1000 * 3333 / 1000.
    let mut sim = Simulation::new(standard_config());
    sim.spawn(Vec2 { x: 5, y: 7 }, Vec2 { x: 1000, y: 0 }, zero());
    sim.boid_move_system(16_667);
    let b = sim.get_boid(0);
    assert_eq!(b.velocity, Vec2 { x: 1000, y: 0 });
    assert_eq!(b.position, Vec2 { x: 5 + 3333, y: 7 });
}

#[test]
fn integrator_stretches_slow_velocity_to_band_bottom() {
    // A tiny but nonzero velocity is rescaled up onto the bottom of the
    // band instead of being left to stall.
    let c = standard_config();
    let mut sim = Simulation::new(c);
    sim.spawn(zero(), Vec2 { x: 1, y: 0 }, zero());
    sim.boid_move_system(16_667);
    let b = sim.get_boid(0);
    assert_eq!(b.velocity, Vec2 { x: 800, y: 0 });
    assert!(in_band(b.velocity, &c));
}

#[test]
fn integrator_keeps_zero_velocity_zero() {
    let mut sim = Simulation::new(standard_config());
    sim.spawn(Vec2 { x: 11, y: 22 }, zero(), zero());
    sim.boid_move_system(16_667);
    let b = sim.get_boid(0);
    assert_eq!(b.velocity, zero());
    assert_eq!(b.position, Vec2 { x: 11, y: 22 });
}

#[test]
fn integrator_adds_acceleration_before_clamping() {
    let c = standard_config();
    let mut sim = Simulation::new(c);
    sim.spawn(zero(), Vec2 { x: 1000, y: 0 }, Vec2 { x: 100, y: 100 });
    sim.boid_move_system(16_667);
    let b = sim.get_boid(0);
    assert_eq!(b.velocity, Vec2 { x: 1100, y: 100 });
    assert!(in_band(b.velocity, &c));
}

#[test]
fn solver_pass_is_time_gated() {
    let mut sim = Simulation::new(standard_config());
    sim.spawn(zero(), zero(), zero());
    // The first frame exceeds the minimum interval since the last pass;
    // a following tiny frame does not.
    assert!(sim.step(16_667, wide()));
    assert!(!sim.step(100, wide()));
    assert!(!sim.step(100, wide()));
    assert!(sim.step(16_667, wide()));
}

#[test]
fn wake_coverage_over_one_period() {
    // With wake period 4 and eight isolated boids, four gated passes wake
    // each boid exactly once: its acceleration picks up the bias vector,
    // everyone else's stays untouched that pass.
    let mut c = standard_config();
    c.wake_period = 4;
    let mut sim = Simulation::new(c);
    for i in 0..8i64 {
        sim.spawn(Vec2 { x: i * 1_000_000, y: -80_000_000 }, zero(), zero());
    }
    let mut wakes = [0usize; 8];
    for _pass in 0..4 {
        let before: Vec<Vec2> = (0..8).map(|i| sim.get_boid(i).acceleration).collect();
        assert!(sim.step(16_667, wide()));
        for i in 0..8 {
            if sim.get_boid(i).acceleration != before[i] {
                wakes[i] += 1;
            }
        }
    }
    assert_eq!(wakes, [1usize; 8]);
}

#[test]
fn inactive_boids_keep_their_acceleration_exactly() {
    let mut c = standard_config();
    c.wake_period = 3;
    let mut sim = Simulation::new(c);
    for i in 0..6i64 {
        sim.spawn(Vec2 { x: i * 1_000_000, y: 0 }, zero(), Vec2 { x: 5, y: -5 });
    }
    let before: Vec<Vec2> = (0..6).map(|i| sim.get_boid(i).acceleration).collect();
    assert!(sim.step(16_667, wide()));
    // Pass counter is now 1: exactly ids 1 and 4 are active.
    for i in 0..6 {
        if i % 3 == 1 {
            assert_ne!(sim.get_boid(i).acceleration, before[i]);
        } else {
            assert_eq!(sim.get_boid(i).acceleration, before[i]);
        }
    }
}

#[test]
fn force_clamp_after_solver_pass() {
    // Crowd many boids together so the cohesion and separation sums are
    // large; after the pass every acceleration respects the force cap,
    // within the fixed-point tolerance.
    let c = standard_config();
    let mut sim = Simulation::new(c);
    for i in 0..30i64 {
        sim.spawn(
            Vec2 { x: (i % 6) * 2000, y: (i / 6) * 2000 },
            Vec2 { x: 1000, y: -500 },
            zero(),
        );
    }
    assert!(sim.step(16_667, wide()));
    let cap = c.max_force * c.max_force + 2 * c.max_force;
    for i in 0..30 {
        assert!(norm2(sim.get_boid(i).acceleration) <= cap);
    }
}

#[test]
fn spawn_assigns_dense_ids() {
    let mut sim = Simulation::new(standard_config());
    assert_eq!(sim.count(), 0);
    let a = sim.spawn(zero(), zero(), zero());
    let b = sim.spawn(Vec2 { x: 1, y: 2 }, zero(), zero());
    assert_eq!((a, b), (0, 1));
    assert_eq!(sim.count(), 2);
    assert_eq!(sim.get_boid(0).id, 0);
    assert_eq!(sim.get_boid(1).id, 1);
}

#[test]
fn spawn_boids_batch_lands_inside_extent() {
    let c = standard_config();
    let mut sim = Simulation::new(c);
    let ext = Extent { half_width: 990_000, half_height: 600_000 };
    let spawned = sim.spawn_boids(ext);
    assert_eq!(spawned, c.spawn_batch_size);
    assert_eq!(sim.count(), c.spawn_batch_size);
    let first = sim.get_boid(0);
    for i in 0..sim.count() {
        let b = sim.get_boid(i);
        // The whole batch shares one random position.
        assert_eq!(b.position, first.position);
        assert!(b.position.x.abs() <= ext.half_width);
        assert!(b.position.y.abs() <= ext.half_height);
        assert!(b.velocity.x.abs() <= c.max_velocity / 2);
        assert!(b.velocity.y.abs() <= c.max_velocity / 2);
        // The acceleration draw is half a unit per axis, far inside the
        // stock force cap, so the clamp leaves it as drawn.
        assert!(b.acceleration.x.abs() <= 500);
        assert!(b.acceleration.y.abs() <= 500);
    }
}

#[test]
fn scenario_hundred_boids_sixty_passes() {
    // One hundred boids scattered over a 1000 x 1000 area with spawn
    // velocities within 50 units per axis, wake period 20, sixty gated
    // passes: every position stays a finite world coordinate and every
    // velocity stays in the configured band (within the fixed-point
    // tolerance).
    let mut c = standard_config();
    c.wake_period = 20;
    let mut sim = Simulation::new(c);
    let mut seed: i64 = 12_345;
    let mut next = |range: i64| -> i64 {
        seed = (seed.wrapping_mul(6_364_136_223_846_793) ^ (seed >> 17)) & 0x7fff_ffff;
        seed % (2 * range + 1) - range
    };
    for _ in 0..100 {
        let pos = Vec2 { x: next(500_000), y: next(500_000) };
        let vel = Vec2 { x: next(50_000), y: next(50_000) };
        sim.spawn(pos, vel, zero());
    }
    let ext = Extent { half_width: 500_000, half_height: 500_000 };
    let mut gated: usize = 0;
    while gated < 60 {
        assert!(16_667 <= DT_LIMIT_US);
        if sim.step(16_667, ext) {
            gated += 1;
        }
    }
    for i in 0..100 {
        let b = sim.get_boid(i);
        assert!(b.position.x.abs() <= 500_000 && b.position.y.abs() <= 500_000);
        let v = b.velocity;
        assert!(v != Vec2 { x: 0, y: 0 });
        assert!(in_band(v, &c));
    }
}
