//! The simulation engine: entity store, wake scheduling, integration and
//! boundary handling.
//!
//! The host drives one frame as `step(dt, extent)`, which runs the
//! time-gated solver pass, then the integrator for every boid, then the
//! boundary policy. All counters are explicit fields, so independent
//! simulations can run side by side and tests can step deterministically.

use vstd::prelude::*;
use vstd::pervasive::VecAdditionalExecFns;
use crate::math::{UNIT, tdiv, div_trunc, lemma_tdiv_range};
use crate::vec2::{Vec2, norm2, clamp_band_i, vel_in_band, set_velocity, set_max_acc};
use crate::config::{Config, BoundaryPolicy};
use crate::boid::{Boid, BoidObject, boid_wf, lemma_acc_comp_bound, POS_LIMIT, VEL_LIMIT};
use crate::solver::{spec_alignment, spec_cohesion, spec_separation, nbs_wf, nbs_near, record_wf, dist2, boids_alignment, boids_cohesion, boids_separation};
use crate::spatial::{index_points, nearest_of, point_dist2, points_bounded, build_index, query_nearest, SPATIAL_LIMIT};
use crate::vec2::clamp_hi_i;

verus! {

/// Largest frame time one step accepts, in microseconds: a quarter of a
/// second, far above any real frame, keeping every product of frame time
/// and force within machine integers.
pub const DT_LIMIT_US: i64 = 250_000;

/// Half size of a boid's collision box, in milli-units; the bounce policy
/// tests the box edge against the border, as the renderer draws it.
pub const BOID_HALF_SIZE: i64 = 140;

/// Half extents of the simulation rectangle, in milli-units, derived from
/// the viewport and supplied by the host each frame.
#[derive(Clone, Copy, Debug, PartialEq, Eq, Structural)]
pub struct Extent {
    pub half_width: i64,
    pub half_height: i64,
}

/// An extent the world model admits.
pub open spec fn extent_wf(e: Extent) -> bool {
    &&& 0 <= e.half_width <= POS_LIMIT
    &&& 0 <= e.half_height <= POS_LIMIT
}

/// The simulation engine: the entity store and the explicit counters of
/// the wake scheduler.
pub struct Simulation {
    /// Startup constants; validated once, never changed by the engine.
    pub config: Config,
    /// The entity store: the only live copy of every boid.
    pub boids: Vec<Boid>,
    /// Pass counter of the wake scheduler, incremented once per gated
    /// solver pass.
    pub group_id: u64,
    /// Total simulated time, in microseconds.
    pub elapsed_us: u64,
    /// Value of `elapsed_us` when the last solver pass ran.
    pub last_pass_us: u64,
}

impl Simulation {
    /// The engine invariant: validated configuration, every boid within
    /// the world model's bounds with its acceleration inside the force
    /// cap, ids dense and equal to store indices, and the pass clock not
    /// ahead of the simulated clock.
    pub open spec fn wf(self) -> bool {
        &&& self.config.wf()
        &&& forall|i: int|
            0 <= i < self.boids@.len() ==> boid_wf(#[trigger] self.boids@[i], self.config)
        &&& forall|i: int| 0 <= i < self.boids@.len() ==> (#[trigger] self.boids@[i]).id == i as u64
        &&& self.last_pass_us <= self.elapsed_us
    }

    /// Creates an empty simulation from a validated configuration.
    pub fn new(config: Config) -> (s: Simulation)
        requires
            config.wf(),
        ensures
            s.wf(),
            s.config == config,
            s.boids@.len() == 0,
            s.group_id == 0,
            s.elapsed_us == 0,
            s.last_pass_us == 0,
    {
        Simulation { config, boids: Vec::new(), group_id: 0, elapsed_us: 0, last_pass_us: 0 }
    }

    /// Current population count.
    pub fn count(&self) -> (n: usize)
        ensures
            n == self.boids@.len(),
    {
        self.boids.len()
    }

    /// Reads one boid of the store.
    pub fn get_boid(&self, i: usize) -> (b: Boid)
        requires
            i < self.boids@.len(),
        ensures
            b == self.boids@[i as int],
    {
        self.boids[i]
    }

    /// A snapshot of every position, in store order, for the host's
    /// renderer; the facing rotation is derived by the host from the
    /// velocities.
    pub fn positions(&self) -> (r: Vec<(i64, i64)>)
        ensures
            r@.len() == self.boids@.len(),
            forall|i: int|
                0 <= i < self.boids@.len() ==> #[trigger] r@[i] == (
                    self.boids@[i].position.x,
                    self.boids@[i].position.y,
                ),
    {
        let n: usize = self.boids.len();
        let mut r: Vec<(i64, i64)> = Vec::new();
        let mut i: usize = 0;
        while i < n
            invariant
                n == self.boids@.len(),
                0 <= i <= n,
                r@.len() == i,
                forall|j: int|
                    0 <= j < i ==> #[trigger] r@[j] == (
                        self.boids@[j].position.x,
                        self.boids@[j].position.y,
                    ),
            decreases n - i,
        {
            let b = self.boids[i];
            r.push((b.position.x, b.position.y));
            i = i + 1;
        }
        r
    }

    /// Inserts one boid with the next dense id and the given state: the
    /// spawn request of the host. The velocity may lie outside the
    /// configured band (the next integration step clamps it), but the
    /// acceleration must respect the force cap, and every component must
    /// respect the world model's machine bounds.
    pub fn spawn(&mut self, position: Vec2, velocity: Vec2, acceleration: Vec2) -> (id: u64)
        requires
            old(self).wf(),
            old(self).boids@.len() < 0xffff_ffff_ffff,
            -POS_LIMIT <= position.x <= POS_LIMIT,
            -POS_LIMIT <= position.y <= POS_LIMIT,
            -VEL_LIMIT <= velocity.x <= VEL_LIMIT,
            -VEL_LIMIT <= velocity.y <= VEL_LIMIT,
            norm2(acceleration) <= old(self).config.max_force * old(self).config.max_force + 2
                * old(self).config.max_force,
        ensures
            final(self).wf(),
            final(self).config == old(self).config,
            final(self).group_id == old(self).group_id,
            final(self).elapsed_us == old(self).elapsed_us,
            final(self).last_pass_us == old(self).last_pass_us,
            id == old(self).boids@.len(),
            final(self).boids@ == old(self).boids@.push(
                Boid { id, position, velocity, acceleration },
            ),
    {
        let id: u64 = self.boids.len() as u64;
        let b = Boid { id, position, velocity, acceleration };
        self.boids.push(b);
        id
    }

    /// What one spawn draw of a batch can produce, whatever the random
    /// outcome: the batch's shared position, a velocity within half the
    /// band's top on each axis, and an acceleration drawn within half a
    /// unit on each axis and then clamped to the force cap.
    pub open spec fn spawn_draw(b: Boid, batch_pos: Vec2, cfg: Config) -> bool {
        &&& b.position == batch_pos
        &&& -(cfg.max_velocity / 2) <= b.velocity.x <= cfg.max_velocity / 2
        &&& -(cfg.max_velocity / 2) <= b.velocity.y <= cfg.max_velocity / 2
        &&& exists|ax: int, ay: int|
            {
                &&& -(UNIT / 2) <= ax <= UNIT / 2
                &&& -(UNIT / 2) <= ay <= UNIT / 2
                &&& b.acceleration.x == (#[trigger] clamp_hi_i(ax, ay, cfg.max_force as int)).0
                &&& b.acceleration.y == clamp_hi_i(ax, ay, cfg.max_force as int).1
            }
    }

    /// Spawns one batch of boids at a random position of the extent, as a
    /// mouse press does: the whole batch shares one random position, and
    /// each boid draws a random velocity within half the band's top on
    /// each axis and a small random acceleration, clamped into the force
    /// cap (a no-op for the stock configuration, whose cap far exceeds
    /// the spawn range).
    pub fn spawn_boids(&mut self, extent: Extent) -> (spawned: usize)
        requires
            old(self).wf(),
            extent_wf(extent),
            old(self).boids@.len() + old(self).config.spawn_batch_size < 0xffff_ffff_ffff,
        ensures
            final(self).wf(),
            final(self).config == old(self).config,
            final(self).group_id == old(self).group_id,
            final(self).elapsed_us == old(self).elapsed_us,
            final(self).last_pass_us == old(self).last_pass_us,
            spawned == old(self).config.spawn_batch_size,
            final(self).boids@.len() == old(self).boids@.len() + spawned,
            forall|i: int|
                0 <= i < old(self).boids@.len() ==> #[trigger] final(self).boids@[i] == old(
                    self,
                ).boids@[i],
            forall|i: int|
                old(self).boids@.len() <= i < final(self).boids@.len() ==> {
                    &&& -extent.half_width <= (#[trigger] final(self).boids@[i]).position.x
                        <= extent.half_width
                    &&& -extent.half_height <= final(self).boids@[i].position.y
                        <= extent.half_height
                    &&& Self::spawn_draw(
                        final(self).boids@[i],
                        final(self).boids@[old(self).boids@.len() as int].position,
                        old(self).config,
                    )
                },
    {
        let bx: i64 = crate::random::random_in_range(-extent.half_width, extent.half_width);
        let by: i64 = crate::random::random_in_range(-extent.half_height, extent.half_height);
        let position = Vec2 { x: bx, y: by };
        let batch: usize = self.config.spawn_batch_size;
        let half_vel: i64 = self.config.max_velocity / 2;
        let mut spawned: usize = 0;
        while spawned < batch
            invariant
                self.wf(),
                self.config == old(self).config,
                self.group_id == old(self).group_id,
                self.elapsed_us == old(self).elapsed_us,
                self.last_pass_us == old(self).last_pass_us,
                0 <= spawned <= batch,
                batch == old(self).config.spawn_batch_size,
                old(self).boids@.len() + batch < 0xffff_ffff_ffff,
                self.boids@.len() == old(self).boids@.len() + spawned,
                extent_wf(extent),
                -extent.half_width <= position.x <= extent.half_width,
                -extent.half_height <= position.y <= extent.half_height,
                0 <= half_vel <= old(self).config.max_velocity,
                half_vel == old(self).config.max_velocity / 2,
                forall|i: int|
                    0 <= i < old(self).boids@.len() ==> #[trigger] self.boids@[i] == old(
                        self,
                    ).boids@[i],
                forall|i: int|
                    old(self).boids@.len() <= i < self.boids@.len() ==> Self::spawn_draw(
                        #[trigger] self.boids@[i],
                        position,
                        old(self).config,
                    ),
            decreases batch - spawned,
        {
            let vx: i64 = crate::random::random_in_range(-half_vel, half_vel);
            let vy: i64 = crate::random::random_in_range(-half_vel, half_vel);
            let ax: i64 = crate::random::random_in_range(-UNIT / 2, UNIT / 2);
            let ay: i64 = crate::random::random_in_range(-UNIT / 2, UNIT / 2);
            let acc = set_max_acc(self.config.max_force, Vec2 { x: ax, y: ay });
            self.spawn(position, Vec2 { x: vx, y: vy }, acc);
            proof {
                let idx = self.boids@.len() - 1;
                assert(acc.x == clamp_hi_i(ax as int, ay as int, old(self).config.max_force as int).0);
                assert(acc.y == clamp_hi_i(ax as int, ay as int, old(self).config.max_force as int).1);
                assert(Self::spawn_draw(self.boids@[idx], position, old(self).config));
            }
            spawned = spawned + 1;
        }
        proof {
            assert(Self::spawn_draw(
                self.boids@[old(self).boids@.len() as int],
                position,
                old(self).config,
            ));
        }
        spawned
    }

    /// The frame-time factor of the integrator, in thousandths: the
    /// elapsed seconds times the configured speed constant.
    pub open spec fn kperm_of(dt_us: int, speed: int) -> int {
        tdiv(dt_us * speed, 1000)
    }

    /// The clamped velocity a boid integrates to: accumulated
    /// acceleration added into the velocity, then the band clamp.
    pub open spec fn integ_vel(b: Boid, min_v: int, max_v: int) -> (int, int) {
        clamp_band_i(
            b.velocity.x + b.acceleration.x,
            b.velocity.y + b.acceleration.y,
            min_v,
            max_v,
        )
    }

    /// Positions saturate at the world model's bound; unreachable under
    /// wrap, and under bounce reachable only after an absurd excursion.
    pub open spec fn clamp_pos(p: int) -> int {
        if p > POS_LIMIT {
            POS_LIMIT as int
        } else if p < -POS_LIMIT {
            -POS_LIMIT as int
        } else {
            p
        }
    }

    /// The position a boid integrates to: advanced by the clamped
    /// velocity times the frame-time factor.
    pub open spec fn integ_pos(b: Boid, min_v: int, max_v: int, kperm: int) -> (int, int) {
        let v = Self::integ_vel(b, min_v, max_v);
        (
            Self::clamp_pos(b.position.x + tdiv(v.0 * kperm, 1000)),
            Self::clamp_pos(b.position.y + tdiv(v.1 * kperm, 1000)),
        )
    }

    /// The integrator's effect on one boid: velocity and position
    /// advanced, id and acceleration untouched.
    pub open spec fn integrated(old_b: Boid, new_b: Boid, cfg: Config, kperm: int) -> bool {
        &&& new_b.id == old_b.id
        &&& new_b.acceleration == old_b.acceleration
        &&& new_b.velocity.x == Self::integ_vel(old_b, cfg.min_velocity as int, cfg.max_velocity as int).0
        &&& new_b.velocity.y == Self::integ_vel(old_b, cfg.min_velocity as int, cfg.max_velocity as int).1
        &&& new_b.position.x == Self::integ_pos(
            old_b,
            cfg.min_velocity as int,
            cfg.max_velocity as int,
            kperm,
        ).0
        &&& new_b.position.y == Self::integ_pos(
            old_b,
            cfg.min_velocity as int,
            cfg.max_velocity as int,
            kperm,
        ).1
    }

    /// The integrator: every frame, for every boid, adds the accumulated
    /// acceleration into the velocity, clamps the velocity magnitude into
    /// the configured band, and advances the position by the clamped
    /// velocity times the frame-time factor. After the pass every boid
    /// whose pre-clamp velocity was nonzero lies in the velocity band;
    /// a zero vector stays zero rather than being stretched.
    pub fn boid_move_system(&mut self, dt_us: i64)
        requires
            old(self).wf(),
            0 <= dt_us <= DT_LIMIT_US,
        ensures
            final(self).wf(),
            final(self).config == old(self).config,
            final(self).group_id == old(self).group_id,
            final(self).elapsed_us == old(self).elapsed_us,
            final(self).last_pass_us == old(self).last_pass_us,
            final(self).boids@.len() == old(self).boids@.len(),
            Self::integrator_rel(
                old(self).boids@,
                final(self).boids@,
                old(self).config,
                Self::kperm_of(dt_us as int, old(self).config.speed_constant as int),
            ),
            forall|i: int|
                0 <= i < old(self).boids@.len() ==> {
                    let b = old(self).boids@[i];
                    if b.velocity.x + b.acceleration.x == 0 && b.velocity.y + b.acceleration.y
                        == 0 {
                        (#[trigger] final(self).boids@[i]).velocity == (Vec2 { x: 0, y: 0 })
                    } else {
                        vel_in_band(
                            final(self).boids@[i].velocity,
                            old(self).config.min_velocity as int,
                            old(self).config.max_velocity as int,
                        )
                    }
                },
    {
        proof {
            assert(0 <= dt_us * self.config.speed_constant <= 1000 * 256_000) by (nonlinear_arith)
                requires
                    0 <= dt_us <= DT_LIMIT_US,
                    1 <= self.config.speed_constant <= 1024,
                    DT_LIMIT_US == 250_000,
            ;
        }
        let raw: i64 = dt_us * self.config.speed_constant;
        proof {
            lemma_tdiv_range(raw as int, 1000, 0, 256_000);
        }
        let kp: i64 = div_trunc(raw, 1000);
        let n: usize = self.boids.len();
        let mut i: usize = 0;
        while i < n
            invariant
                self.wf(),
                self.config == old(self).config,
                self.group_id == old(self).group_id,
                self.elapsed_us == old(self).elapsed_us,
                self.last_pass_us == old(self).last_pass_us,
                n == self.boids@.len(),
                n == old(self).boids@.len(),
                0 <= i <= n,
                0 <= kp <= 256_000,
                kp == Self::kperm_of(dt_us as int, old(self).config.speed_constant as int),
                forall|j: int|
                    i <= j < n ==> #[trigger] self.boids@[j] == old(self).boids@[j],
                forall|j: int|
                    0 <= j < i ==> Self::integrated(
                        old(self).boids@[j],
                        #[trigger] self.boids@[j],
                        old(self).config,
                        kp as int,
                    ),
                forall|j: int|
                    0 <= j < i ==> {
                        let b = old(self).boids@[j];
                        if b.velocity.x + b.acceleration.x == 0 && b.velocity.y + b.acceleration.y
                            == 0 {
                            (#[trigger] self.boids@[j]).velocity == (Vec2 { x: 0, y: 0 })
                        } else {
                            vel_in_band(
                                self.boids@[j].velocity,
                                old(self).config.min_velocity as int,
                                old(self).config.max_velocity as int,
                            )
                        }
                    },
            decreases n - i,
        {
            let b = self.boids[i];
            proof {
                lemma_acc_comp_bound(b, self.config);
            }
            let sx: i64 = b.velocity.x + b.acceleration.x;
            let sy: i64 = b.velocity.y + b.acceleration.y;
            let v2 = set_velocity(
                self.config.max_velocity,
                self.config.min_velocity,
                Vec2 { x: sx, y: sy },
            );
            proof {
                assert(-0x1_0000_0000_0000int <= (v2.x as int) * (kp as int) <= 0x1_0000_0000_0000int
                    && -0x1_0000_0000_0000int <= (v2.y as int) * (kp as int)
                    <= 0x1_0000_0000_0000int) by (nonlinear_arith)
                    requires
                        -65536 <= v2.x <= 65536,
                        -65536 <= v2.y <= 65536,
                        0 <= kp <= 256_000,
                ;
            }
            let step_x: i64 = div_trunc(v2.x * kp, 1000);
            let step_y: i64 = div_trunc(v2.y * kp, 1000);
            let px1: i64 = b.position.x + step_x;
            let py1: i64 = b.position.y + step_y;
            let npx: i64 = if px1 > POS_LIMIT {
                POS_LIMIT
            } else if px1 < -POS_LIMIT {
                -POS_LIMIT
            } else {
                px1
            };
            let npy: i64 = if py1 > POS_LIMIT {
                POS_LIMIT
            } else if py1 < -POS_LIMIT {
                -POS_LIMIT
            } else {
                py1
            };
            let nb = Boid {
                id: b.id,
                position: Vec2 { x: npx, y: npy },
                velocity: v2,
                acceleration: b.acceleration,
            };
            self.boids.set(i, nb);
            i = i + 1;
        }
    }

    /// The x velocity after the bounce rule: inverted when the boid moves
    /// toward a vertical border its box already crosses.
    pub open spec fn bounce_vel_x(b: Boid, half_width: int) -> int {
        if (b.velocity.x > 0 && b.position.x + BOID_HALF_SIZE > half_width) || (b.velocity.x <= 0
            && b.position.x - BOID_HALF_SIZE < -half_width) {
            -b.velocity.x
        } else {
            b.velocity.x as int
        }
    }

    /// The y velocity after the bounce rule: inverted off the floor, but
    /// zeroed at the ceiling — the asymmetric ceiling is deliberate. Both
    /// tests read the velocity the pass started with, so a downward boid
    /// flipped off the floor is never zeroed by the ceiling in the same
    /// pass, even in a viewport shorter than the boid's own box.
    pub open spec fn bounce_vel_y(b: Boid, half_height: int) -> int {
        if b.position.y + BOID_HALF_SIZE > half_height && b.velocity.y > 0 {
            0
        } else if b.velocity.y < 0 && b.position.y - BOID_HALF_SIZE < -half_height {
            -b.velocity.y
        } else {
            b.velocity.y as int
        }
    }

    /// The bounce boundary policy: velocities flip at the borders,
    /// positions are left as they are.
    pub fn window_bounce_collision_system(&mut self, extent: Extent)
        requires
            old(self).wf(),
            extent_wf(extent),
        ensures
            final(self).wf(),
            final(self).config == old(self).config,
            final(self).group_id == old(self).group_id,
            final(self).elapsed_us == old(self).elapsed_us,
            final(self).last_pass_us == old(self).last_pass_us,
            final(self).boids@.len() == old(self).boids@.len(),
            forall|i: int|
                0 <= i < old(self).boids@.len() ==> {
                    let b = old(self).boids@[i];
                    &&& (#[trigger] final(self).boids@[i]).id == b.id
                    &&& final(self).boids@[i].position == b.position
                    &&& final(self).boids@[i].acceleration == b.acceleration
                    &&& final(self).boids@[i].velocity.x == Self::bounce_vel_x(
                        b,
                        extent.half_width as int,
                    )
                    &&& final(self).boids@[i].velocity.y == Self::bounce_vel_y(
                        b,
                        extent.half_height as int,
                    )
                },
    {
        let n: usize = self.boids.len();
        let mut i: usize = 0;
        while i < n
            invariant
                self.wf(),
                self.config == old(self).config,
                self.group_id == old(self).group_id,
                self.elapsed_us == old(self).elapsed_us,
                self.last_pass_us == old(self).last_pass_us,
                n == self.boids@.len(),
                n == old(self).boids@.len(),
                0 <= i <= n,
                extent_wf(extent),
                forall|j: int|
                    i <= j < n ==> #[trigger] self.boids@[j] == old(self).boids@[j],
                forall|j: int|
                    0 <= j < i ==> {
                        let b = old(self).boids@[j];
                        &&& (#[trigger] self.boids@[j]).id == b.id
                        &&& self.boids@[j].position == b.position
                        &&& self.boids@[j].acceleration == b.acceleration
                        &&& self.boids@[j].velocity.x == Self::bounce_vel_x(
                            b,
                            extent.half_width as int,
                        )
                        &&& self.boids@[j].velocity.y == Self::bounce_vel_y(
                            b,
                            extent.half_height as int,
                        )
                    },
            decreases n - i,
        {
            let b = self.boids[i];
            let x_vel: i64 = b.velocity.x;
            let y_vel: i64 = b.velocity.y;
            let x_pos: i64 = b.position.x;
            let y_pos: i64 = b.position.y;
            let mut new_vx: i64 = x_vel;
            let mut new_vy: i64 = y_vel;
            if (x_vel > 0 && x_pos + BOID_HALF_SIZE > extent.half_width) || (x_vel <= 0 && x_pos
                - BOID_HALF_SIZE < -extent.half_width) {
                new_vx = -x_vel;
            }
            if y_vel < 0 && y_pos - BOID_HALF_SIZE < -extent.half_height {
                new_vy = -y_vel;
            }
            if y_pos + BOID_HALF_SIZE > extent.half_height && y_vel > 0 {
                new_vy = 0;
            }
            let nb = Boid {
                id: b.id,
                position: b.position,
                velocity: Vec2 { x: new_vx, y: new_vy },
                acceleration: b.acceleration,
            };
            proof {
                assert(norm2(nb.velocity) <= norm2(b.velocity)) by (nonlinear_arith)
                    requires
                        nb.velocity.x == b.velocity.x || nb.velocity.x == -b.velocity.x,
                        nb.velocity.y == b.velocity.y || nb.velocity.y == -b.velocity.y || nb.velocity.y == 0,
                        norm2(nb.velocity) == (nb.velocity.x as int) * (nb.velocity.x as int) + (
                        nb.velocity.y as int) * (nb.velocity.y as int),
                        norm2(b.velocity) == (b.velocity.x as int) * (b.velocity.x as int) + (
                        b.velocity.y as int) * (b.velocity.y as int),
                ;
            }
            self.boids.set(i, nb);
            i = i + 1;
        }
    }

    /// The x position after the wrap rule: beyond a vertical border, the
    /// boid reappears at the opposite one.
    pub open spec fn wrap_coord(p: int, half: int) -> int {
        if p > half {
            -half
        } else if p < -half {
            half
        } else {
            p
        }
    }

    /// The wrap boundary policy: positions teleport across the borders,
    /// velocities are left as they are.
    pub fn window_teleport_collision_system(&mut self, extent: Extent)
        requires
            old(self).wf(),
            extent_wf(extent),
        ensures
            final(self).wf(),
            final(self).config == old(self).config,
            final(self).group_id == old(self).group_id,
            final(self).elapsed_us == old(self).elapsed_us,
            final(self).last_pass_us == old(self).last_pass_us,
            final(self).boids@.len() == old(self).boids@.len(),
            forall|i: int|
                0 <= i < old(self).boids@.len() ==> {
                    let b = old(self).boids@[i];
                    &&& (#[trigger] final(self).boids@[i]).id == b.id
                    &&& final(self).boids@[i].velocity == b.velocity
                    &&& final(self).boids@[i].acceleration == b.acceleration
                    &&& final(self).boids@[i].position.x == Self::wrap_coord(
                        b.position.x as int,
                        extent.half_width as int,
                    )
                    &&& final(self).boids@[i].position.y == Self::wrap_coord(
                        b.position.y as int,
                        extent.half_height as int,
                    )
                },
    {
        let n: usize = self.boids.len();
        let mut i: usize = 0;
        while i < n
            invariant
                self.wf(),
                self.config == old(self).config,
                self.group_id == old(self).group_id,
                self.elapsed_us == old(self).elapsed_us,
                self.last_pass_us == old(self).last_pass_us,
                n == self.boids@.len(),
                n == old(self).boids@.len(),
                0 <= i <= n,
                extent_wf(extent),
                forall|j: int|
                    i <= j < n ==> #[trigger] self.boids@[j] == old(self).boids@[j],
                forall|j: int|
                    0 <= j < i ==> {
                        let b = old(self).boids@[j];
                        &&& (#[trigger] self.boids@[j]).id == b.id
                        &&& self.boids@[j].velocity == b.velocity
                        &&& self.boids@[j].acceleration == b.acceleration
                        &&& self.boids@[j].position.x == Self::wrap_coord(
                            b.position.x as int,
                            extent.half_width as int,
                        )
                        &&& self.boids@[j].position.y == Self::wrap_coord(
                            b.position.y as int,
                            extent.half_height as int,
                        )
                    },
            decreases n - i,
        {
            let b = self.boids[i];
            let mut npx: i64 = b.position.x;
            let mut npy: i64 = b.position.y;
            if npx > extent.half_width {
                npx = -extent.half_width;
            } else if npx < -extent.half_width {
                npx = extent.half_width;
            }
            if npy > extent.half_height {
                npy = -extent.half_height;
            } else if npy < -extent.half_height {
                npy = extent.half_height;
            }
            let nb = Boid {
                id: b.id,
                position: Vec2 { x: npx, y: npy },
                velocity: b.velocity,
                acceleration: b.acceleration,
            };
            self.boids.set(i, nb);
            i = i + 1;
        }
    }

    /// One point record of the spatial snapshot: entity id and position.
    pub open spec fn snapshot_points(boids: Seq<Boid>) -> Seq<(u64, i64, i64)> {
        boids.map_values(|b: Boid| (b.id, b.position.x, b.position.y))
    }

    /// The wake schedule: entity `id` recomputes its forces on pass `gid`
    /// exactly when `id` and `gid` agree modulo the wake period.
    pub open spec fn wake_active(id: int, gid: int, w: int) -> bool {
        id % w == gid % w
    }

    /// The pass counter after one more gated pass.
    pub open spec fn next_gid(g: u64) -> u64 {
        if g == u64::MAX {
            0
        } else {
            (g + 1) as u64
        }
    }

    /// The neighbor list built from a query result: the query records
    /// without the acting boid itself and without anything beyond the
    /// perception radius, each joined with its live velocity from the
    /// store.
    pub open spec fn neighbor_list(
        q: Seq<(u64, i64, i64)>,
        boids: Seq<Boid>,
        self_id: u64,
        pos: Vec2,
        r: int,
    ) -> Seq<BoidObject>
        decreases q.len(),
    {
        if q.len() == 0 {
            Seq::empty()
        } else {
            let pre = Self::neighbor_list(q.drop_last(), boids, self_id, pos, r);
            let p = q.last();
            if p.0 != self_id && point_dist2(p, pos.x as int, pos.y as int) <= r * r {
                pre.push(
                    BoidObject {
                        id: p.0,
                        pos: Vec2 { x: p.1, y: p.2 },
                        velocity: boids[p.0 as int].velocity,
                    },
                )
            } else {
                pre
            }
        }
    }

    /// The neighbors that feed one boid's force computation: the nearest
    /// `group_size` records of the snapshot, filtered to exclude the boid
    /// itself and anything beyond the perception radius.
    pub open spec fn neighbors_for(boids: Seq<Boid>, cfg: Config, i: int) -> Seq<BoidObject> {
        let b = boids[i];
        let q = nearest_of(
            Self::snapshot_points(boids),
            b.position.x as int,
            b.position.y as int,
            cfg.group_size as int,
        );
        Self::neighbor_list(q, boids, b.id, b.position, cfg.perception_radius as int)
    }

    /// The acceleration a woken boid accumulates to: the three rule
    /// vectors plus the per-entity bias (its sign set by the parity of the
    /// id, forming two counter-rotating sub-flocks), scaled by the
    /// frame-time factor, added into the previous acceleration, and
    /// clamped to the force cap.
    pub open spec fn new_acc(boids: Seq<Boid>, cfg: Config, i: int, kperm: int) -> (int, int) {
        let b = boids[i];
        let nbs = Self::neighbors_for(boids, cfg, i);
        let al = spec_alignment(b.velocity, nbs, cfg.alignment_weight as int);
        let co = spec_cohesion(b.position, nbs, cfg.cohesion_weight as int);
        let se = spec_separation(
            b.position,
            nbs,
            cfg.separation_distance as int,
            cfg.separation_weight as int,
        );
        let bias = tdiv(200 * kperm, 1000);
        let sx = al.0 + co.0 + se.0 + if b.id % 2 == 0 {
            bias
        } else {
            -bias
        };
        let sy = al.1 + co.1 + se.1 + if b.id % 2 == 0 {
            bias
        } else {
            -bias
        };
        clamp_hi_i(
            b.acceleration.x + tdiv(sx * kperm, 1000),
            b.acceleration.y + tdiv(sy * kperm, 1000),
            cfg.max_force as int,
        )
    }

    /// The solver pass's effect on the whole store: length, ids,
    /// positions and velocities unchanged; the active wake bucket's
    /// accelerations recomputed from the pre-pass store, all others
    /// untouched.
    pub open spec fn solver_pass_rel(
        pre: Seq<Boid>,
        post: Seq<Boid>,
        cfg: Config,
        gid: int,
        kperm: int,
    ) -> bool {
        &&& post.len() == pre.len()
        &&& forall|i: int|
            0 <= i < pre.len() ==> {
                let b = pre[i];
                &&& (#[trigger] post[i]).id == b.id
                &&& post[i].position == b.position
                &&& post[i].velocity == b.velocity
                &&& (Self::wake_active(i, gid, cfg.wake_period as int) ==> post[i].acceleration.x
                    == Self::new_acc(pre, cfg, i, kperm).0 && post[i].acceleration.y
                    == Self::new_acc(pre, cfg, i, kperm).1)
                &&& (!Self::wake_active(i, gid, cfg.wake_period as int) ==> post[i].acceleration
                    == b.acceleration)
            }
    }

    /// The integrator's effect on the whole store: every boid integrated.
    pub open spec fn integrator_rel(pre: Seq<Boid>, post: Seq<Boid>, cfg: Config, kperm: int) -> bool {
        &&& post.len() == pre.len()
        &&& forall|i: int|
            0 <= i < pre.len() ==> Self::integrated(pre[i], #[trigger] post[i], cfg, kperm)
    }

    /// The configured boundary policy's effect on the whole store.
    pub open spec fn boundary_rel(pre: Seq<Boid>, post: Seq<Boid>, cfg: Config, extent: Extent) -> bool {
        &&& post.len() == pre.len()
        &&& forall|i: int|
            0 <= i < pre.len() ==> {
                let b = pre[i];
                &&& (#[trigger] post[i]).id == b.id
                &&& post[i].acceleration == b.acceleration
                &&& (cfg.boundary_policy == BoundaryPolicy::Bounce ==> post[i].position
                    == b.position && post[i].velocity.x == Self::bounce_vel_x(
                    b,
                    extent.half_width as int,
                ) && post[i].velocity.y == Self::bounce_vel_y(b, extent.half_height as int))
                &&& (cfg.boundary_policy == BoundaryPolicy::Wrap ==> post[i].velocity == b.velocity
                    && post[i].position.x == Self::wrap_coord(
                    b.position.x as int,
                    extent.half_width as int,
                ) && post[i].position.y == Self::wrap_coord(
                    b.position.y as int,
                    extent.half_height as int,
                ))
            }
    }

    /// A record of the snapshot comes from the store entry its id names.
    proof fn lemma_point_from_snapshot(boids: Seq<Boid>, cfg: Config, p: (u64, i64, i64))
        requires
            boids.len() < 0x1_0000_0000_0000_0000,
            forall|i: int| 0 <= i < boids.len() ==> boid_wf(#[trigger] boids[i], cfg),
            forall|i: int| 0 <= i < boids.len() ==> (#[trigger] boids[i]).id == i as u64,
            Self::snapshot_points(boids).contains(p),
        ensures
            0 <= p.0 < boids.len(),
            p.1 == boids[p.0 as int].position.x,
            p.2 == boids[p.0 as int].position.y,
            -POS_LIMIT <= p.1 <= POS_LIMIT,
            -POS_LIMIT <= p.2 <= POS_LIMIT,
    {
        let pts = Self::snapshot_points(boids);
        let m = choose|m: int| 0 <= m < pts.len() && pts[m] == p;
        assert(pts[m] == (boids[m].id, boids[m].position.x, boids[m].position.y));
        assert(0 <= m < 0x1_0000_0000_0000_0000int);
        assert(boids[m].id == m as u64);
        assert(p.0 as int == m);
        assert(boid_wf(boids[m], cfg));
    }

    /// The snapshot of a well-formed store fits the spatial index's
    /// coordinate bound.
    proof fn lemma_snapshot_bounded(boids: Seq<Boid>, cfg: Config)
        requires
            forall|i: int| 0 <= i < boids.len() ==> boid_wf(#[trigger] boids[i], cfg),
        ensures
            points_bounded(Self::snapshot_points(boids)),
    {
        let pts = Self::snapshot_points(boids);
        assert forall|i: int| 0 <= i < pts.len() implies {
            &&& -SPATIAL_LIMIT <= (#[trigger] pts[i]).1 <= SPATIAL_LIMIT
            &&& -SPATIAL_LIMIT <= pts[i].2 <= SPATIAL_LIMIT
        } by {
            assert(boid_wf(boids[i], cfg));
        }
    }

    /// The solver pass: time-gated force recomputation for the active
    /// wake bucket. When at least `pass_interval_us` of simulated time has
    /// passed since the previous pass, the pass counter advances, the
    /// spatial index is rebuilt from all current positions, and every boid
    /// whose id falls in the active bucket recomputes its acceleration
    /// from its nearest neighbors; all other boids, and every position and
    /// velocity, stay untouched. Afterwards every acceleration in the
    /// store respects the force cap. Returns whether the pass ran.
    pub fn boid_acceleration_system(&mut self, dt_us: i64) -> (ran: bool)
        requires
            old(self).wf(),
            0 <= dt_us <= DT_LIMIT_US,
        ensures
            final(self).wf(),
            final(self).config == old(self).config,
            final(self).elapsed_us == old(self).elapsed_us,
            final(self).boids@.len() == old(self).boids@.len(),
            ran == (old(self).elapsed_us - old(self).last_pass_us
                >= old(self).config.pass_interval_us),
            !ran ==> final(self).boids@ == old(self).boids@ && final(self).group_id == old(
                self,
            ).group_id && final(self).last_pass_us == old(self).last_pass_us,
            ran ==> {
                &&& final(self).group_id == Self::next_gid(old(self).group_id)
                &&& final(self).last_pass_us == old(self).elapsed_us
                &&& Self::solver_pass_rel(
                    old(self).boids@,
                    final(self).boids@,
                    old(self).config,
                    Self::next_gid(old(self).group_id) as int,
                    Self::kperm_of(dt_us as int, old(self).config.speed_constant as int),
                )
            },
            forall|i: int|
                0 <= i < final(self).boids@.len() ==> norm2(
                    (#[trigger] final(self).boids@[i]).acceleration,
                ) <= old(self).config.max_force * old(self).config.max_force + 2 * old(
                    self,
                ).config.max_force,
    {
        if self.elapsed_us - self.last_pass_us < self.config.pass_interval_us {
            return false;
        }
        self.last_pass_us = self.elapsed_us;
        let gid: u64 = if self.group_id == u64::MAX {
            0
        } else {
            self.group_id + 1
        };
        self.group_id = gid;
        proof {
            assert(0 <= dt_us * self.config.speed_constant <= 1000 * 256_000) by (nonlinear_arith)
                requires
                    0 <= dt_us <= DT_LIMIT_US,
                    1 <= self.config.speed_constant <= 1024,
                    DT_LIMIT_US == 250_000,
            ;
        }
        let raw: i64 = dt_us * self.config.speed_constant;
        proof {
            lemma_tdiv_range(raw as int, 1000, 0, 256_000);
        }
        let kp: i64 = div_trunc(raw, 1000);
        proof {
            lemma_tdiv_range(200 * (kp as int), 1000, 0, 51_200);
        }
        let bias: i64 = div_trunc(200 * kp, 1000);
        let n: usize = self.boids.len();
        let mut pts: Vec<(u64, i64, i64)> = Vec::new();
        let mut i: usize = 0;
        while i < n
            invariant
                self.wf(),
                n == self.boids@.len(),
                0 <= i <= n,
                pts@ == Self::snapshot_points(self.boids@.take(i as int)),
            decreases n - i,
        {
            let b = self.boids[i];
            proof {
                assert(self.boids@.take(i + 1).map_values(
                    |bb: Boid| (bb.id, bb.position.x, bb.position.y),
                ) =~= self.boids@.take(i as int).map_values(
                    |bb: Boid| (bb.id, bb.position.x, bb.position.y),
                ).push((b.id, b.position.x, b.position.y)));
            }
            pts.push((b.id, b.position.x, b.position.y));
            i = i + 1;
        }
        proof {
            assert(self.boids@.take(n as int) =~= self.boids@);
            Self::lemma_snapshot_bounded(self.boids@, self.config);
        }
        let tree = build_index(pts);
        let ghost boids0 = self.boids@;
        let mut i: usize = 0;
        while i < n
            invariant
                self.wf(),
                old(self).wf(),
                self.config == old(self).config,
                self.group_id == gid,
                self.elapsed_us == old(self).elapsed_us,
                self.last_pass_us == old(self).elapsed_us,
                boids0 == old(self).boids@,
                n == self.boids@.len(),
                n == boids0.len(),
                0 <= i <= n,
                0 <= kp <= 256_000,
                kp == Self::kperm_of(dt_us as int, old(self).config.speed_constant as int),
                0 <= bias <= 51_200,
                bias == tdiv(200 * (kp as int), 1000),
                index_points(tree) == Self::snapshot_points(boids0),
                points_bounded(index_points(tree)),
                forall|j: int|
                    0 <= j < n ==> {
                        let b = boids0[j];
                        &&& (#[trigger] self.boids@[j]).id == b.id
                        &&& self.boids@[j].position == b.position
                        &&& self.boids@[j].velocity == b.velocity
                    },
                forall|j: int| i <= j < n ==> (#[trigger] self.boids@[j]).acceleration == boids0[j].acceleration,
                forall|j: int|
                    0 <= j < i ==> {
                        &&& (Self::wake_active(
                            j,
                            gid as int,
                            old(self).config.wake_period as int,
                        ) ==> (#[trigger] self.boids@[j]).acceleration.x == Self::new_acc(
                            boids0,
                            old(self).config,
                            j,
                            kp as int,
                        ).0 && self.boids@[j].acceleration.y == Self::new_acc(
                            boids0,
                            old(self).config,
                            j,
                            kp as int,
                        ).1)
                        &&& (!Self::wake_active(
                            j,
                            gid as int,
                            old(self).config.wake_period as int,
                        ) ==> (#[trigger] self.boids@[j]).acceleration == boids0[j].acceleration)
                    },
            decreases n - i,
        {
            let b = self.boids[i];
            let active: bool = b.id % self.config.wake_period == gid % self.config.wake_period;
            proof {
                assert(b.id == i as u64);
                assert(active == Self::wake_active(
                    i as int,
                    gid as int,
                    old(self).config.wake_period as int,
                ));
            }
            if active {
                let px: i64 = b.position.x;
                let py: i64 = b.position.y;
                let raw_nbs = query_nearest(&tree, px, py, self.config.group_size);
                let r: i64 = self.config.perception_radius;
                assert(0 <= (r as int) * (r as int) <= 0x400_0000_0000int) by (nonlinear_arith)
                    requires
                        0 <= r <= 0x20_0000,
                ;
                let r2: i64 = r * r;
                let m: usize = raw_nbs.len();
                let mut local: Vec<BoidObject> = Vec::new();
                let mut j: usize = 0;
                while j < m
                    invariant
                        self.wf(),
                        old(self).wf(),
                        boids0 == old(self).boids@,
                        n == self.boids@.len(),
                        n == boids0.len(),
                        px == b.position.x,
                        py == b.position.y,
                        forall|jj: int|
                            0 <= jj < n ==> {
                                let bb = boids0[jj];
                                &&& (#[trigger] self.boids@[jj]).id == bb.id
                                &&& self.boids@[jj].position == bb.position
                                &&& self.boids@[jj].velocity == bb.velocity
                            },
                        m == raw_nbs@.len(),
                        0 <= j <= m,
                        m <= old(self).config.group_size,
                        old(self).config.group_size <= 1024,
                        r == old(self).config.perception_radius,
                        0 <= r <= 0x20_0000,
                        r2 == (r as int) * (r as int),
                        b == boids0[i as int],
                        0 <= i < n,
                        forall|jj: int|
                            0 <= jj < m ==> Self::snapshot_points(boids0).contains(
                                #[trigger] raw_nbs@[jj],
                            ),
                        local@ == Self::neighbor_list(
                            raw_nbs@.take(j as int),
                            boids0,
                            b.id,
                            b.position,
                            r as int,
                        ),
                        local@.len() <= j,
                        nbs_wf(local@),
                        nbs_near(local@, b.position, r as int),
                    decreases m - j,
                {
                    let p: (u64, i64, i64) = raw_nbs[j];
                    proof {
                        Self::lemma_point_from_snapshot(boids0, old(self).config, p);
                        assert(raw_nbs@.take(j + 1).drop_last() =~= raw_nbs@.take(j as int));
                        assert(raw_nbs@.take(j + 1).last() == raw_nbs@[j as int]);
                    }
                    if p.0 != b.id {
                        let dx: i64 = p.1 - px;
                        let dy: i64 = p.2 - py;
                        assert(0 <= (dx as int) * (dx as int) <= 0x400_0000_0000_0000int
                            && 0 <= (dy as int) * (dy as int) <= 0x400_0000_0000_0000int)
                            by (nonlinear_arith)
                            requires
                                -0x2000_0000 <= dx <= 0x2000_0000,
                                -0x2000_0000 <= dy <= 0x2000_0000,
                        ;
                        let d2: i64 = dx * dx + dy * dy;
                        assert(d2 == point_dist2(p, b.position.x as int, b.position.y as int));
                        if d2 <= r2 {
                            let vid: usize = p.0 as usize;
                            let vb = self.boids[vid];
                            local.push(
                                BoidObject { id: p.0, pos: Vec2 { x: p.1, y: p.2 }, velocity: vb.velocity },
                            );
                            proof {
                                assert(record_wf(local@.last()));
                                assert(dist2(local@.last().pos, b.position) <= (r as int) * (
                                r as int));
                            }
                        }
                    }
                    j = j + 1;
                }
                proof {
                    assert(raw_nbs@.take(m as int) =~= raw_nbs@);
                    assert(local@ == Self::neighbors_for(boids0, old(self).config, i as int));
                }
                let alignment = boids_alignment(b.velocity, &local, self.config.alignment_weight);
                let cohesion = boids_cohesion(b.position, &local, self.config.cohesion_weight, r);
                let separation = boids_separation(
                    b.position,
                    &local,
                    self.config.separation_distance,
                    self.config.separation_weight,
                );
                let sx: i64 = alignment.x + cohesion.x + separation.x;
                let sy: i64 = alignment.y + cohesion.y + separation.y;
                let sxb: i64 = if b.id % 2 == 0 {
                    sx + bias
                } else {
                    sx - bias
                };
                let syb: i64 = if b.id % 2 == 0 {
                    sy + bias
                } else {
                    sy - bias
                };
                proof {
                    assert(-0x8_0000_0000_0000int <= (sxb as int) * (kp as int)
                        <= 0x8_0000_0000_0000int && -0x8_0000_0000_0000int <= (syb as int) * (
                    kp as int) <= 0x8_0000_0000_0000int) by (nonlinear_arith)
                        requires
                            -0x1_8000_c800i64 <= sxb <= 0x1_8000_c800i64,
                            -0x1_8000_c800i64 <= syb <= 0x1_8000_c800i64,
                            0 <= kp <= 256_000,
                    ;
                }
                let prod_x: i64 = sxb * kp;
                let prod_y: i64 = syb * kp;
                proof {
                    lemma_tdiv_range(prod_x as int, 1000, -0x2000_0000_0000, 0x2000_0000_0000);
                    lemma_tdiv_range(prod_y as int, 1000, -0x2000_0000_0000, 0x2000_0000_0000);
                    lemma_acc_comp_bound(b, self.config);
                }
                let dxa: i64 = div_trunc(prod_x, 1000);
                let dya: i64 = div_trunc(prod_y, 1000);
                let acc1 = Vec2 { x: b.acceleration.x + dxa, y: b.acceleration.y + dya };
                let new_acc_v = set_max_acc(self.config.max_force, acc1);
                let nb = Boid {
                    id: b.id,
                    position: b.position,
                    velocity: b.velocity,
                    acceleration: new_acc_v,
                };
                self.boids.set(i, nb);
                proof {
                    assert(self.boids@[i as int].acceleration.x == Self::new_acc(
                        boids0,
                        old(self).config,
                        i as int,
                        kp as int,
                    ).0);
                }
            }
            i = i + 1;
        }
        true
    }

    /// One frame of the simulation, in the fixed order the host drives:
    /// advance the simulated clock, run the time-gated solver pass, then
    /// the integrator for every boid, then the boundary policy. Returns
    /// whether the solver pass ran this frame.
    pub fn step(&mut self, dt_us: i64, extent: Extent) -> (ran: bool)
        requires
            old(self).wf(),
            0 <= dt_us <= DT_LIMIT_US,
            extent_wf(extent),
        ensures
            final(self).wf(),
            final(self).config == old(self).config,
            final(self).boids@.len() == old(self).boids@.len(),
            final(self).elapsed_us == if old(self).elapsed_us + dt_us <= u64::MAX {
                old(self).elapsed_us + dt_us
            } else {
                u64::MAX as int
            },
            ran == (final(self).elapsed_us - old(self).last_pass_us
                >= old(self).config.pass_interval_us),
            !ran ==> final(self).group_id == old(self).group_id && final(self).last_pass_us
                == old(self).last_pass_us,
            ran ==> final(self).group_id == Self::next_gid(old(self).group_id)
                && final(self).last_pass_us == final(self).elapsed_us,
            exists|after_solver: Seq<Boid>, after_move: Seq<Boid>|
                {
                    &&& if ran {
                        Self::solver_pass_rel(
                            old(self).boids@,
                            after_solver,
                            old(self).config,
                            Self::next_gid(old(self).group_id) as int,
                            Self::kperm_of(dt_us as int, old(self).config.speed_constant as int),
                        )
                    } else {
                        after_solver == old(self).boids@
                    }
                    &&& #[trigger] Self::integrator_rel(
                        after_solver,
                        after_move,
                        old(self).config,
                        Self::kperm_of(dt_us as int, old(self).config.speed_constant as int),
                    )
                    &&& Self::boundary_rel(after_move, final(self).boids@, old(self).config, extent)
                },
    {
        let dt: u64 = dt_us as u64;
        if dt <= u64::MAX - self.elapsed_us {
            self.elapsed_us = self.elapsed_us + dt;
        } else {
            self.elapsed_us = u64::MAX;
        }
        let ran = self.boid_acceleration_system(dt_us);
        let ghost after_solver = self.boids@;
        self.boid_move_system(dt_us);
        let ghost after_move = self.boids@;
        self.collision_system(extent);
        proof {
            assert(Self::integrator_rel(
                after_solver,
                after_move,
                old(self).config,
                Self::kperm_of(dt_us as int, old(self).config.speed_constant as int),
            ));
            assert(Self::boundary_rel(after_move, self.boids@, old(self).config, extent));
        }
        ran
    }

    /// Corrects out-of-bounds boids by the configured boundary policy.
    pub fn collision_system(&mut self, extent: Extent)
        requires
            old(self).wf(),
            extent_wf(extent),
        ensures
            final(self).wf(),
            final(self).config == old(self).config,
            final(self).group_id == old(self).group_id,
            final(self).elapsed_us == old(self).elapsed_us,
            final(self).last_pass_us == old(self).last_pass_us,
            final(self).boids@.len() == old(self).boids@.len(),
            Self::boundary_rel(old(self).boids@, final(self).boids@, old(self).config, extent),
    {
        let bounce: bool = match self.config.boundary_policy {
            BoundaryPolicy::Bounce => true,
            BoundaryPolicy::Wrap => false,
        };
        if bounce {
            self.window_bounce_collision_system(extent);
        } else {
            self.window_teleport_collision_system(extent);
        }
    }
}

} // verus!
