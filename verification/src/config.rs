//! Simulation configuration: the startup-time constants of the flock.
//!
//! Validation is a startup concern: every engine entry point requires a
//! well-formed configuration, and the per-frame hot path assumes it.

use vstd::prelude::*;
use crate::math::SQRT_SCALE;

verus! {

/// Which rule corrects a boid at the viewport border.
#[derive(Clone, Copy, Debug, PartialEq, Eq, Structural)]
pub enum BoundaryPolicy {
    /// Teleport to the opposite border (torus topology).
    Wrap,
    /// Reflect off the borders, with the asymmetric ceiling rule.
    Bounce,
}

/// All startup constants of the simulation, in fixed-point milli-units
/// where the quantity is a length or a speed, and as plain multipliers or
/// divisors where it is a weight.
#[derive(Clone, Copy, Debug)]
pub struct Config {
    /// Upper bound of the velocity magnitude band, in milli-units.
    pub max_velocity: i64,
    /// Lower bound of the velocity magnitude band, in milli-units.
    pub min_velocity: i64,
    /// Cap on the acceleration magnitude, in milli-units.
    pub max_force: i64,
    /// Multiplier of the steer toward the local flock centroid.
    pub cohesion_weight: i64,
    /// Multiplier of the steer away from nearby neighbors.
    pub separation_weight: i64,
    /// Divisor applied to the distance in the separation rule.
    pub separation_distance: i64,
    /// Neighbors beyond this distance are ignored, in milli-units.
    pub perception_radius: i64,
    /// Multiplier of the steer toward the neighbors' mean heading.
    pub alignment_weight: i64,
    /// Dimensionless speed multiplier applied with the frame time.
    pub speed_constant: i64,
    /// Turn rate of the facing interpolation, in milli-radians per second;
    /// consumed by the host's renderer, which derives facing from velocity.
    pub rotation_rate: i64,
    /// A boid recomputes its forces once every this many solver passes.
    pub wake_period: u64,
    /// At most this many neighbors feed one boid's force computation.
    pub group_size: usize,
    /// A solver pass runs only after this much simulated time, in
    /// microseconds, has elapsed since the previous pass.
    pub pass_interval_us: u64,
    /// Border correction rule.
    pub boundary_policy: BoundaryPolicy,
    /// How many boids one spawn request inserts.
    pub spawn_batch_size: usize,
}

impl Config {
    /// Validated configuration: the bounds the per-frame hot path relies
    /// on, checked once at startup by the host.
    pub open spec fn wf(self) -> bool {
        &&& 1 <= self.min_velocity <= self.max_velocity <= SQRT_SCALE
        &&& 1 <= self.max_force <= SQRT_SCALE
        &&& 0 <= self.alignment_weight <= 1024
        &&& 0 <= self.cohesion_weight <= 1024
        &&& 0 <= self.separation_weight <= 1024
        &&& 1 <= self.separation_distance <= 1024
        &&& 0 <= self.perception_radius <= 0x20_0000
        &&& 1 <= self.speed_constant <= 1024
        &&& 0 <= self.rotation_rate <= 0x10_0000
        &&& 1 <= self.wake_period
        &&& 1 <= self.group_size <= 1024
        &&& 1 <= self.spawn_batch_size <= 1024
    }
}

/// The stock configuration of the demo flock: velocity band 0.8 to 1.4
/// units, force cap 10, perception 30 units, twenty-pass wake cycle,
/// wrap-around borders.
pub open spec fn spec_standard_config() -> Config {
    Config {
        max_velocity: 1400,
        min_velocity: 800,
        max_force: 10000,
        cohesion_weight: 40,
        separation_weight: 20,
        separation_distance: 10,
        perception_radius: 30000,
        alignment_weight: 10,
        speed_constant: 200,
        rotation_rate: 5000,
        wake_period: 20,
        group_size: 20,
        pass_interval_us: 1667,
        boundary_policy: BoundaryPolicy::Wrap,
        spawn_batch_size: 5,
    }
}

/// Builds the stock configuration.
pub fn standard_config() -> (c: Config)
    ensures
        c == spec_standard_config(),
        c.wf(),
{
    Config {
        max_velocity: 1400,
        min_velocity: 800,
        max_force: 10000,
        cohesion_weight: 40,
        separation_weight: 20,
        separation_distance: 10,
        perception_radius: 30000,
        alignment_weight: 10,
        speed_constant: 200,
        rotation_rate: 5000,
        wake_period: 20,
        group_size: 20,
        pass_interval_us: 1667,
        boundary_policy: BoundaryPolicy::Wrap,
        spawn_batch_size: 5,
    }
}

} // verus!
