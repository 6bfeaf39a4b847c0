//! The simulated entities and the per-tick snapshot records.

use vstd::prelude::*;
use crate::vec2::{Vec2, norm2};
use crate::config::Config;

verus! {

/// Largest position component the world model admits, in milli-units.
/// Wrap restores positions to the viewport; under bounce a boid can
/// overshoot the border by at most one integration step, so the limit is
/// far beyond any reachable viewport.
pub const POS_LIMIT: i64 = 0x1000_0000;

/// Largest velocity component the store admits, in milli-units. Spawn
/// velocities may exceed the configured band but not this machine bound;
/// the next integration step clamps them into the band.
pub const VEL_LIMIT: i64 = 0x10_0000;

/// A single flocking entity. The store owns the only live copy; the
/// spatial snapshot carries read-only copies valid for one tick.
#[derive(Clone, Copy, Debug, PartialEq, Eq, Structural)]
pub struct Boid {
    /// Stable identifier, equal to the index in the store.
    pub id: u64,
    pub position: Vec2,
    pub velocity: Vec2,
    pub acceleration: Vec2,
}

/// A read-only point record of the spatial snapshot: enough to answer the
/// neighbor queries of one solver pass.
#[derive(Clone, Copy, Debug, PartialEq, Eq, Structural)]
pub struct BoidObject {
    pub id: u64,
    pub pos: Vec2,
    pub velocity: Vec2,
}

/// Per-boid well-formedness: positions and velocities within the machine
/// bounds of the world model, and the acceleration within the configured
/// force cap (up to the fixed-point clamp tolerance).
pub open spec fn boid_wf(b: Boid, cfg: Config) -> bool {
    &&& -POS_LIMIT <= b.position.x <= POS_LIMIT
    &&& -POS_LIMIT <= b.position.y <= POS_LIMIT
    &&& -VEL_LIMIT <= b.velocity.x <= VEL_LIMIT
    &&& -VEL_LIMIT <= b.velocity.y <= VEL_LIMIT
    &&& norm2(b.acceleration) <= cfg.max_force * cfg.max_force + 2 * cfg.max_force
}

/// The acceleration band bounds each acceleration component by one more
/// than the force cap.
pub proof fn lemma_acc_comp_bound(b: Boid, cfg: Config)
    by (nonlinear_arith)
    requires
        boid_wf(b, cfg),
        1 <= cfg.max_force,
    ensures
        -(cfg.max_force + 1) <= b.acceleration.x <= cfg.max_force + 1,
        -(cfg.max_force + 1) <= b.acceleration.y <= cfg.max_force + 1,
{
}

} // verus!
