//! Tests of the wrap and bounce boundary policies.

use bitoids::config::{standard_config, BoundaryPolicy};
use bitoids::engine::{Extent, Simulation};
use bitoids::vec2::Vec2;

fn zero() -> Vec2 {
    Vec2 { x: 0, y: 0 }
}

#[test]
fn wrap_teleports_past_right_border() {
    // A boid one milli-unit past the half width reappears at the
    // opposite border.
    let mut sim = Simulation::new(standard_config());
    let half: i64 = 990_000;
    sim.spawn(Vec2 { x: half + 1, y: 0 }, zero(), zero());
    sim.collision_system(Extent { half_width: half, half_height: 600_000 });
    assert_eq!(sim.get_boid(0).position, Vec2 { x: -half, y: 0 });
}

#[test]
fn wrap_teleports_past_left_and_vertical_borders() {
    let mut sim = Simulation::new(standard_config());
    let ext = Extent { half_width: 990_000, half_height: 600_000 };
    sim.spawn(Vec2 { x: -990_001, y: 0 }, zero(), zero());
    sim.spawn(Vec2 { x: 0, y: 600_001 }, zero(), zero());
    sim.spawn(Vec2 { x: 0, y: -600_001 }, zero(), zero());
    sim.collision_system(ext);
    assert_eq!(sim.get_boid(0).position, Vec2 { x: 990_000, y: 0 });
    assert_eq!(sim.get_boid(1).position, Vec2 { x: 0, y: -600_000 });
    assert_eq!(sim.get_boid(2).position, Vec2 { x: 0, y: 600_000 });
}

#[test]
fn wrap_leaves_inside_positions_alone() {
    let mut sim = Simulation::new(standard_config());
    sim.spawn(Vec2 { x: 123, y: -456 }, Vec2 { x: 7, y: 8 }, zero());
    sim.collision_system(Extent { half_width: 990_000, half_height: 600_000 });
    assert_eq!(sim.get_boid(0).position, Vec2 { x: 123, y: -456 });
    assert_eq!(sim.get_boid(0).velocity, Vec2 { x: 7, y: 8 });
}

fn bounce_config() -> bitoids::config::Config {
    let mut c = standard_config();
    c.boundary_policy = BoundaryPolicy::Bounce;
    c
}

#[test]
fn bounce_inverts_x_velocity_at_right_border() {
    // Moving right just inside the border: the collision box (half size
    // 140 milli-units) already crosses it, so the x velocity flips sign.
    let mut sim = Simulation::new(bounce_config());
    let half: i64 = 500_000;
    sim.spawn(Vec2 { x: half - 10, y: 0 }, Vec2 { x: 900, y: 0 }, zero());
    sim.collision_system(Extent { half_width: half, half_height: half });
    assert_eq!(sim.get_boid(0).velocity, Vec2 { x: -900, y: 0 });
    assert_eq!(sim.get_boid(0).position, Vec2 { x: half - 10, y: 0 });
}

#[test]
fn bounce_inverts_y_velocity_at_floor() {
    let mut sim = Simulation::new(bounce_config());
    let half: i64 = 500_000;
    sim.spawn(Vec2 { x: 0, y: -half + 10 }, Vec2 { x: 0, y: -700 }, zero());
    sim.collision_system(Extent { half_width: half, half_height: half });
    assert_eq!(sim.get_boid(0).velocity, Vec2 { x: 0, y: 700 });
}

#[test]
fn bounce_zeroes_y_velocity_at_ceiling() {
    // The ceiling is asymmetric on purpose: upward velocity is zeroed,
    // not inverted.
    let mut sim = Simulation::new(bounce_config());
    let half: i64 = 500_000;
    sim.spawn(Vec2 { x: 0, y: half - 10 }, Vec2 { x: 300, y: 700 }, zero());
    sim.collision_system(Extent { half_width: half, half_height: half });
    assert_eq!(sim.get_boid(0).velocity, Vec2 { x: 300, y: 0 });
}

#[test]
fn bounce_away_from_borders_changes_nothing() {
    let mut sim = Simulation::new(bounce_config());
    let half: i64 = 500_000;
    sim.spawn(Vec2 { x: 0, y: 0 }, Vec2 { x: 300, y: -700 }, zero());
    sim.collision_system(Extent { half_width: half, half_height: half });
    assert_eq!(sim.get_boid(0).velocity, Vec2 { x: 300, y: -700 });
    assert_eq!(sim.get_boid(0).position, Vec2 { x: 0, y: 0 });
}

#[test]
fn bounce_floor_flip_wins_in_a_viewport_shorter_than_the_boid() {
    // With a half height smaller than the boid's own half size, a
    // downward boid crosses floor and ceiling at once; both rules read
    // the velocity the pass started with, so the floor flips it and the
    // ceiling, which only zeroes upward velocity, leaves it alone.
    let mut sim = Simulation::new(bounce_config());
    sim.spawn(Vec2 { x: 0, y: 0 }, Vec2 { x: 0, y: -700 }, zero());
    sim.spawn(Vec2 { x: 0, y: 0 }, Vec2 { x: 0, y: 700 }, zero());
    sim.collision_system(Extent { half_width: 500_000, half_height: 100 });
    assert_eq!(sim.get_boid(0).velocity, Vec2 { x: 0, y: 700 });
    assert_eq!(sim.get_boid(1).velocity, Vec2 { x: 0, y: 0 });
}

#[test]
fn bounce_inverts_x_velocity_moving_left_at_left_border() {
    let mut sim = Simulation::new(bounce_config());
    let half: i64 = 500_000;
    sim.spawn(Vec2 { x: -half + 10, y: 0 }, Vec2 { x: -900, y: 0 }, zero());
    sim.collision_system(Extent { half_width: half, half_height: half });
    assert_eq!(sim.get_boid(0).velocity, Vec2 { x: 900, y: 0 });
}
