//! A flocking ("boids") simulation engine on fixed-point coordinates.
//!
//! All world quantities (positions, velocities, accelerations) are carried as
//! signed integers in milli-units: one unit of world space is 1000 in these
//! coordinates. This keeps every step of the simulation within verified
//! integer arithmetic while following the classic alignment / cohesion /
//! separation flocking rules, a staggered wake schedule, velocity and force
//! clamping, and wrap or bounce boundary handling.

pub mod math;
pub mod vec2;
pub mod config;
pub mod boid;
pub mod solver;
pub mod spatial;
pub mod random;
pub mod engine;
pub mod laws;
