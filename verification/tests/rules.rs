//! Tests of the three flocking rules on concrete neighbor lists.

use bitoids::boid::BoidObject;
use bitoids::solver::{boids_alignment, boids_cohesion, boids_separation};
use bitoids::vec2::Vec2;

fn record(id: u64, px: i64, py: i64, vx: i64, vy: i64) -> BoidObject {
    BoidObject { id, pos: Vec2 { x: px, y: py }, velocity: Vec2 { x: vx, y: vy } }
}

#[test]
fn alignment_empty_neighbors_is_zero() {
    let nbs: Vec<BoidObject> = Vec::new();
    let r = boids_alignment(Vec2 { x: 123, y: -456 }, &nbs, 10);
    assert_eq!(r, Vec2 { x: 0, y: 0 });
}

#[test]
fn cohesion_empty_neighbors_is_zero() {
    let nbs: Vec<BoidObject> = Vec::new();
    let r = boids_cohesion(Vec2 { x: 123, y: -456 }, &nbs, 40, 30_000);
    assert_eq!(r, Vec2 { x: 0, y: 0 });
}

#[test]
fn separation_empty_neighbors_is_zero() {
    let nbs: Vec<BoidObject> = Vec::new();
    let r = boids_separation(Vec2 { x: 123, y: -456 }, &nbs, 10, 20);
    assert_eq!(r, Vec2 { x: 0, y: 0 });
}

#[test]
fn alignment_exact_value() {
    // Mean neighbor velocity (2000, 0) normalizes exactly to (1000, 0);
    // adding the boid's own velocity (100, 200) and scaling by the weight
    // 10 gives (11000, 2000).
    let nbs = vec![record(1, 0, 0, 1000, 0), record(2, 0, 0, 3000, 0)];
    let r = boids_alignment(Vec2 { x: 100, y: 200 }, &nbs, 10);
    assert_eq!(r, Vec2 { x: 11_000, y: 2_000 });
}

#[test]
fn alignment_zero_mean_velocity_stays_defined() {
    // Opposite neighbor velocities average to the zero vector, which
    // normalizes to zero rather than blowing up.
    let nbs = vec![record(1, 0, 0, 500, 0), record(2, 0, 0, -500, 0)];
    let r = boids_alignment(Vec2 { x: 100, y: 200 }, &nbs, 10);
    assert_eq!(r, Vec2 { x: 1000, y: 2000 });
}

#[test]
fn cohesion_exact_value() {
    // Neighbors at (1000, 0) and (3000, 2000): centroid (2000, 1000),
    // offset from the origin scaled by the weight 40.
    let nbs = vec![record(1, 1000, 0, 0, 0), record(2, 3000, 2000, 0, 0)];
    let r = boids_cohesion(Vec2 { x: 0, y: 0 }, &nbs, 40, 30_000);
    assert_eq!(r, Vec2 { x: 80_000, y: 40_000 });
}

#[test]
fn separation_exact_value() {
    // One neighbor at (300, 400), distance 500: the contribution is
    // (300, 400) * 1000 / (500 * 10) = (60, 80), negated and scaled by
    // the weight 20.
    let nbs = vec![record(1, 300, 400, 0, 0)];
    let r = boids_separation(Vec2 { x: 0, y: 0 }, &nbs, 10, 20);
    assert_eq!(r, Vec2 { x: -1200, y: -1600 });
}

#[test]
fn separation_coincident_neighbor_is_guarded() {
    // A neighbor at exactly the boid's own position has distance zero;
    // the divisor clamps to one and the offset is zero, so the
    // contribution is zero rather than a division by zero.
    let nbs = vec![record(1, 0, 0, 0, 0), record(2, 300, 400, 0, 0)];
    let r = boids_separation(Vec2 { x: 0, y: 0 }, &nbs, 10, 20);
    assert_eq!(r, Vec2 { x: -1200, y: -1600 });
}

#[test]
fn separation_near_neighbors_dominate() {
    let near = vec![record(1, 30, 40, 0, 0)];
    let far = vec![record(1, 3000, 4000, 0, 0)];
    let rn = boids_separation(Vec2 { x: 0, y: 0 }, &near, 10, 20);
    let rf = boids_separation(Vec2 { x: 0, y: 0 }, &far, 10, 20);
    assert!(rn.x.abs() + rn.y.abs() >= rf.x.abs() + rf.y.abs());
    assert!(rn.x < 0 && rn.y < 0);
}
