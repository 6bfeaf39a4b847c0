//! The flocking rules: alignment, cohesion and separation.
//!
//! Each rule takes the acting boid's own state and a bounded list of
//! neighbor records, already filtered to exclude the boid itself and
//! anything beyond the perception radius, and already capped at the
//! configured group size. An empty neighbor list is a defined base case:
//! all three rules return the zero vector, never dividing by zero.
//!
//! Alignment follows the "normalize then add" policy: the mean neighbor
//! velocity is normalized to unit length, added to the acting boid's own
//! velocity, and scaled by the alignment weight. Cohesion multiplies the
//! offset to the neighbors' mean position by the cohesion weight, and
//! separation multiplies its distance-weighted sum by the separation
//! weight.

use vstd::prelude::*;
use crate::math::{UNIT, SQRT_SCALE, sqrt_floor, tdiv, div_trunc, lemma_tdiv_range, lemma_sqrt_floor_at_least, isqrt};
use crate::vec2::{Vec2, norm2, scale_comp, scale_to};
use crate::boid::{BoidObject, POS_LIMIT, VEL_LIMIT};

verus! {

/// Bound on any component a single rule returns, used by the solver pass
/// to keep the force accumulation within machine integers.
pub const RULE_LIMIT: i64 = 0x8000_0000;

/// Squared distance between two points.
pub open spec fn dist2(a: Vec2, b: Vec2) -> int {
    (a.x - b.x) * (a.x - b.x) + (a.y - b.y) * (a.y - b.y)
}

/// A well-formed neighbor record: position and velocity within the world
/// model's machine bounds.
pub open spec fn record_wf(b: BoidObject) -> bool {
    &&& -POS_LIMIT <= b.pos.x <= POS_LIMIT
    &&& -POS_LIMIT <= b.pos.y <= POS_LIMIT
    &&& -VEL_LIMIT <= b.velocity.x <= VEL_LIMIT
    &&& -VEL_LIMIT <= b.velocity.y <= VEL_LIMIT
}

/// Every record of the list is well formed.
pub open spec fn nbs_wf(nbs: Seq<BoidObject>) -> bool {
    forall|i: int| 0 <= i < nbs.len() ==> record_wf(#[trigger] nbs[i])
}

/// Every record of the list lies within distance `r` of `pos`.
pub open spec fn nbs_near(nbs: Seq<BoidObject>, pos: Vec2, r: int) -> bool {
    forall|i: int| 0 <= i < nbs.len() ==> dist2((#[trigger] nbs[i]).pos, pos) <= r * r
}

/// Sum of the neighbors' velocity x components.
pub open spec fn sum_vel_x(nbs: Seq<BoidObject>) -> int
    decreases nbs.len(),
{
    if nbs.len() == 0 {
        0
    } else {
        sum_vel_x(nbs.drop_last()) + nbs.last().velocity.x
    }
}

/// Sum of the neighbors' velocity y components.
pub open spec fn sum_vel_y(nbs: Seq<BoidObject>) -> int
    decreases nbs.len(),
{
    if nbs.len() == 0 {
        0
    } else {
        sum_vel_y(nbs.drop_last()) + nbs.last().velocity.y
    }
}

/// Sum of the neighbors' position x components.
pub open spec fn sum_pos_x(nbs: Seq<BoidObject>) -> int
    decreases nbs.len(),
{
    if nbs.len() == 0 {
        0
    } else {
        sum_pos_x(nbs.drop_last()) + nbs.last().pos.x
    }
}

/// Sum of the neighbors' position y components.
pub open spec fn sum_pos_y(nbs: Seq<BoidObject>) -> int
    decreases nbs.len(),
{
    if nbs.len() == 0 {
        0
    } else {
        sum_pos_y(nbs.drop_last()) + nbs.last().pos.y
    }
}

/// A vector normalized to `UNIT` magnitude, with the zero vector resolving
/// to the zero vector.
pub open spec fn spec_normalize(x: int, y: int) -> (int, int) {
    if x == 0 && y == 0 {
        (0, 0)
    } else {
        let rk = sqrt_floor((x * x + y * y) * SQRT_SCALE * SQRT_SCALE);
        (scale_comp(x, UNIT as int, rk), scale_comp(y, UNIT as int, rk))
    }
}

/// The alignment rule: normalize the mean neighbor velocity, add the
/// acting boid's own velocity, and scale by the alignment weight; the
/// zero vector when there are no neighbors.
pub open spec fn spec_alignment(velocity: Vec2, nbs: Seq<BoidObject>, weight: int) -> (int, int) {
    if nbs.len() == 0 {
        (0, 0)
    } else {
        let n = nbs.len() as int;
        let u = spec_normalize(tdiv(sum_vel_x(nbs), n), tdiv(sum_vel_y(nbs), n));
        ((u.0 + velocity.x) * weight, (u.1 + velocity.y) * weight)
    }
}

/// The cohesion rule: the offset from the acting boid's position to the
/// neighbors' mean position, scaled by the cohesion weight; the zero
/// vector when there are no neighbors.
pub open spec fn spec_cohesion(position: Vec2, nbs: Seq<BoidObject>, weight: int) -> (int, int) {
    if nbs.len() == 0 {
        (0, 0)
    } else {
        let n = nbs.len() as int;
        ((tdiv(sum_pos_x(nbs), n) - position.x) * weight,
        (tdiv(sum_pos_y(nbs), n) - position.y) * weight)
    }
}

/// The distance divisor of the separation rule, clamped to at least one
/// so that coincident boids never divide by zero.
pub open spec fn sep_dist(position: Vec2, b: BoidObject) -> int {
    let d = sqrt_floor(dist2(b.pos, position));
    if d < 1 {
        1
    } else {
        d
    }
}

/// One neighbor's separation contribution along x: the offset toward the
/// neighbor divided by its distance (scaled by the separation-distance
/// divisor), so that near neighbors dominate.
pub open spec fn sep_contrib_x(position: Vec2, b: BoidObject, sep_d: int) -> int {
    tdiv((b.pos.x - position.x) * UNIT, sep_dist(position, b) * sep_d)
}

/// One neighbor's separation contribution along y.
pub open spec fn sep_contrib_y(position: Vec2, b: BoidObject, sep_d: int) -> int {
    tdiv((b.pos.y - position.y) * UNIT, sep_dist(position, b) * sep_d)
}

/// Accumulated separation along x: contributions point away from the
/// neighbors, so each is subtracted.
pub open spec fn sep_sum_x(position: Vec2, nbs: Seq<BoidObject>, sep_d: int) -> int
    decreases nbs.len(),
{
    if nbs.len() == 0 {
        0
    } else {
        sep_sum_x(position, nbs.drop_last(), sep_d) - sep_contrib_x(position, nbs.last(), sep_d)
    }
}

/// Accumulated separation along y.
pub open spec fn sep_sum_y(position: Vec2, nbs: Seq<BoidObject>, sep_d: int) -> int
    decreases nbs.len(),
{
    if nbs.len() == 0 {
        0
    } else {
        sep_sum_y(position, nbs.drop_last(), sep_d) - sep_contrib_y(position, nbs.last(), sep_d)
    }
}

/// The separation rule: the accumulated distance-weighted offsets away
/// from the neighbors, scaled by the separation weight; the zero vector
/// when there are no neighbors.
pub open spec fn spec_separation(position: Vec2, nbs: Seq<BoidObject>, sep_d: int, weight: int) -> (int, int) {
    (sep_sum_x(position, nbs, sep_d) * weight, sep_sum_y(position, nbs, sep_d) * weight)
}

/// Computes the alignment steering vector for one boid.
pub fn boids_alignment(velocity: Vec2, local_boids: &Vec<BoidObject>, weight: i64) -> (r: Vec2)
    requires
        nbs_wf(local_boids@),
        local_boids@.len() <= 1024,
        0 <= weight <= 1024,
        -VEL_LIMIT <= velocity.x <= VEL_LIMIT,
        -VEL_LIMIT <= velocity.y <= VEL_LIMIT,
    ensures
        r.x == spec_alignment(velocity, local_boids@, weight as int).0,
        r.y == spec_alignment(velocity, local_boids@, weight as int).1,
        local_boids@.len() == 0 ==> r == (Vec2 { x: 0, y: 0 }),
        -RULE_LIMIT <= r.x <= RULE_LIMIT,
        -RULE_LIMIT <= r.y <= RULE_LIMIT,
{
    let n_usize: usize = local_boids.len();
    if n_usize == 0 {
        return Vec2 { x: 0, y: 0 };
    }
    let n: i64 = n_usize as i64;
    let mut svx: i64 = 0;
    let mut svy: i64 = 0;
    let mut i: usize = 0;
    while i < n_usize
        invariant
            n_usize == local_boids@.len(),
            0 <= i <= n_usize,
            n_usize <= 1024,
            nbs_wf(local_boids@),
            svx == sum_vel_x(local_boids@.take(i as int)),
            svy == sum_vel_y(local_boids@.take(i as int)),
            -(i as int) * VEL_LIMIT <= svx <= (i as int) * VEL_LIMIT,
            -(i as int) * VEL_LIMIT <= svy <= (i as int) * VEL_LIMIT,
        decreases n_usize - i,
    {
        let b = local_boids[i];
        proof {
            let pre = local_boids@.take(i as int);
            let post = local_boids@.take(i + 1);
            assert(post.drop_last() =~= pre);
            assert(post.last() == local_boids@[i as int]);
            assert(((i + 1) as int) * VEL_LIMIT == (i as int) * VEL_LIMIT + VEL_LIMIT)
                by (nonlinear_arith);
        }
        svx = svx + b.velocity.x;
        svy = svy + b.velocity.y;
        i = i + 1;
    }
    proof {
        assert(local_boids@.take(n_usize as int) =~= local_boids@);
        assert((n as int) * -VEL_LIMIT == -((n as int) * VEL_LIMIT)) by (nonlinear_arith);
        lemma_tdiv_range(svx as int, n as int, -VEL_LIMIT as int, VEL_LIMIT as int);
        lemma_tdiv_range(svy as int, n as int, -VEL_LIMIT as int, VEL_LIMIT as int);
        assert(-0x4000_0000_0000int <= svx && -0x4000_0000_0000int <= svy) by (nonlinear_arith)
            requires
                -(n_usize as int) * VEL_LIMIT <= svx,
                -(n_usize as int) * VEL_LIMIT <= svy,
                0 <= n_usize <= 1024,
                VEL_LIMIT == 0x10_0000,
        ;
    }
    let mx: i64 = div_trunc(svx, n);
    let my: i64 = div_trunc(svy, n);
    let u: Vec2 = if mx == 0 && my == 0 {
        Vec2 { x: 0, y: 0 }
    } else {
        let mean = Vec2 { x: mx, y: my };
        proof {
            assert(norm2(mean) >= 1) by (nonlinear_arith)
                requires
                    !(mean.x == 0 && mean.y == 0),
                    norm2(mean) == (mean.x as int) * (mean.x as int) + (mean.y as int) * (
                    mean.y as int),
            ;
        }
        scale_to(mean, UNIT)
    };
    assert(u.x as int == spec_normalize(mx as int, my as int).0);
    assert(u.y as int == spec_normalize(mx as int, my as int).1);
    let sx: i64 = u.x + velocity.x;
    let sy: i64 = u.y + velocity.y;
    assert(-RULE_LIMIT <= (sx as int) * (weight as int) <= RULE_LIMIT
        && -RULE_LIMIT <= (sy as int) * (weight as int) <= RULE_LIMIT) by (nonlinear_arith)
        requires
            -(VEL_LIMIT + UNIT) <= sx <= VEL_LIMIT + UNIT,
            -(VEL_LIMIT + UNIT) <= sy <= VEL_LIMIT + UNIT,
            0 <= weight <= 1024,
            VEL_LIMIT == 0x10_0000,
            UNIT == 1000,
            RULE_LIMIT == 0x8000_0000,
    ;
    Vec2 { x: sx * weight, y: sy * weight }
}

/// Computes the cohesion steering vector for one boid.
pub fn boids_cohesion(position: Vec2, local_boids: &Vec<BoidObject>, weight: i64, perception: i64) -> (r: Vec2)
    requires
        nbs_near(local_boids@, position, perception as int),
        local_boids@.len() <= 1024,
        0 <= weight <= 1024,
        0 <= perception <= 0x20_0000,
        -POS_LIMIT <= position.x <= POS_LIMIT,
        -POS_LIMIT <= position.y <= POS_LIMIT,
    ensures
        r.x == spec_cohesion(position, local_boids@, weight as int).0,
        r.y == spec_cohesion(position, local_boids@, weight as int).1,
        local_boids@.len() == 0 ==> r == (Vec2 { x: 0, y: 0 }),
        -RULE_LIMIT <= r.x <= RULE_LIMIT,
        -RULE_LIMIT <= r.y <= RULE_LIMIT,
{
    let n_usize: usize = local_boids.len();
    if n_usize == 0 {
        return Vec2 { x: 0, y: 0 };
    }
    let n: i64 = n_usize as i64;
    let mut spx: i64 = 0;
    let mut spy: i64 = 0;
    let mut i: usize = 0;
    while i < n_usize
        invariant
            n_usize == local_boids@.len(),
            0 <= i <= n_usize,
            n_usize <= 1024,
            nbs_near(local_boids@, position, perception as int),
            0 <= perception <= 0x20_0000,
            -POS_LIMIT <= position.x <= POS_LIMIT,
            -POS_LIMIT <= position.y <= POS_LIMIT,
            spx == sum_pos_x(local_boids@.take(i as int)),
            spy == sum_pos_y(local_boids@.take(i as int)),
            (i as int) * (position.x - perception) <= spx <= (i as int) * (position.x + perception),
            (i as int) * (position.y - perception) <= spy <= (i as int) * (position.y + perception),
        decreases n_usize - i,
    {
        let b = local_boids[i];
        proof {
            let pre = local_boids@.take(i as int);
            let post = local_boids@.take(i + 1);
            assert(post.drop_last() =~= pre);
            assert(post.last() == local_boids@[i as int]);
            assert(dist2(b.pos, position) <= (perception as int) * (perception as int));
            assert(position.x - perception <= b.pos.x <= position.x + perception
                && position.y - perception <= b.pos.y <= position.y + perception)
                by (nonlinear_arith)
                requires
                    dist2(b.pos, position) <= (perception as int) * (perception as int),
                    dist2(b.pos, position) == (b.pos.x - position.x) * (b.pos.x - position.x) + (
                    b.pos.y - position.y) * (b.pos.y - position.y),
                    0 <= perception,
            ;
            assert(((i + 1) as int) * (position.x - perception) == (i as int) * (position.x
                - perception) + (position.x - perception)) by (nonlinear_arith);
            assert(((i + 1) as int) * (position.x + perception) == (i as int) * (position.x
                + perception) + (position.x + perception)) by (nonlinear_arith);
            assert(((i + 1) as int) * (position.y - perception) == (i as int) * (position.y
                - perception) + (position.y - perception)) by (nonlinear_arith);
            assert(((i + 1) as int) * (position.y + perception) == (i as int) * (position.y
                + perception) + (position.y + perception)) by (nonlinear_arith);
            assert(-0x4000_0000_0000int <= (i as int) * (position.x - perception)
                && (i as int) * (position.x + perception) <= 0x4000_0000_0000int
                && -0x4000_0000_0000int <= (i as int) * (position.y - perception)
                && (i as int) * (position.y + perception) <= 0x4000_0000_0000int)
                by (nonlinear_arith)
                requires
                    0 <= i <= 1024,
                    -POS_LIMIT <= position.x <= POS_LIMIT,
                    -POS_LIMIT <= position.y <= POS_LIMIT,
                    0 <= perception <= 0x20_0000,
                    POS_LIMIT == 0x1000_0000,
            ;
        }
        spx = spx + b.pos.x;
        spy = spy + b.pos.y;
        i = i + 1;
    }
    proof {
        assert(local_boids@.take(n_usize as int) =~= local_boids@);
        lemma_tdiv_range(spx as int, n as int, position.x - perception, position.x + perception);
        lemma_tdiv_range(spy as int, n as int, position.y - perception, position.y + perception);
        assert(-0x4000_0000_0000int <= spx && -0x4000_0000_0000int <= spy) by (nonlinear_arith)
            requires
                (n_usize as int) * (position.x - perception) <= spx,
                (n_usize as int) * (position.y - perception) <= spy,
                0 <= n_usize <= 1024,
                -POS_LIMIT <= position.x <= POS_LIMIT,
                -POS_LIMIT <= position.y <= POS_LIMIT,
                0 <= perception <= 0x20_0000,
                POS_LIMIT == 0x1000_0000,
        ;
    }
    let ax: i64 = div_trunc(spx, n);
    let ay: i64 = div_trunc(spy, n);
    let dx: i64 = ax - position.x;
    let dy: i64 = ay - position.y;
    assert(-RULE_LIMIT <= (dx as int) * (weight as int) <= RULE_LIMIT
        && -RULE_LIMIT <= (dy as int) * (weight as int) <= RULE_LIMIT) by (nonlinear_arith)
        requires
            -perception <= dx <= perception,
            -perception <= dy <= perception,
            0 <= perception <= 0x20_0000,
            0 <= weight <= 1024,
            RULE_LIMIT == 0x8000_0000,
    ;
    Vec2 { x: dx * weight, y: dy * weight }
}

/// Computes the separation steering vector for one boid.
pub fn boids_separation(position: Vec2, local_boids: &Vec<BoidObject>, sep_distance: i64, weight: i64) -> (r: Vec2)
    requires
        nbs_wf(local_boids@),
        local_boids@.len() <= 1024,
        1 <= sep_distance <= 1024,
        0 <= weight <= 1024,
        -POS_LIMIT <= position.x <= POS_LIMIT,
        -POS_LIMIT <= position.y <= POS_LIMIT,
    ensures
        r.x == spec_separation(position, local_boids@, sep_distance as int, weight as int).0,
        r.y == spec_separation(position, local_boids@, sep_distance as int, weight as int).1,
        local_boids@.len() == 0 ==> r == (Vec2 { x: 0, y: 0 }),
        -RULE_LIMIT <= r.x <= RULE_LIMIT,
        -RULE_LIMIT <= r.y <= RULE_LIMIT,
{
    let n_usize: usize = local_boids.len();
    let mut accx: i64 = 0;
    let mut accy: i64 = 0;
    let mut i: usize = 0;
    while i < n_usize
        invariant
            n_usize == local_boids@.len(),
            0 <= i <= n_usize,
            n_usize <= 1024,
            nbs_wf(local_boids@),
            1 <= sep_distance <= 1024,
            -POS_LIMIT <= position.x <= POS_LIMIT,
            -POS_LIMIT <= position.y <= POS_LIMIT,
            accx == sep_sum_x(position, local_boids@.take(i as int), sep_distance as int),
            accy == sep_sum_y(position, local_boids@.take(i as int), sep_distance as int),
            -(i as int) * UNIT <= accx <= (i as int) * UNIT,
            -(i as int) * UNIT <= accy <= (i as int) * UNIT,
        decreases n_usize - i,
    {
        let b = local_boids[i];
        let dx: i64 = b.pos.x - position.x;
        let dy: i64 = b.pos.y - position.y;
        assert(0 <= (dx as int) * (dx as int) <= 0x400_0000_0000_0000int
            && 0 <= (dy as int) * (dy as int) <= 0x400_0000_0000_0000int) by (nonlinear_arith)
            requires
                -0x2000_0000 <= dx <= 0x2000_0000,
                -0x2000_0000 <= dy <= 0x2000_0000,
        ;
        let d2: i64 = dx * dx + dy * dy;
        assert(d2 == dist2(b.pos, position));
        let d: u64 = isqrt(d2 as u128);
        assert(d <= 0x4000_0000) by {
            lemma_sqrt_floor_bounded(d2 as int);
        }
        assert(d >= 0);
        let d1: i64 = if d < 1 {
            1
        } else {
            d as i64
        };
        assert(d1 == sep_dist(position, b));
        assert(1 <= (d1 as int) * (sep_distance as int) <= 0x1_0000_0000_0000int)
            by (nonlinear_arith)
            requires
                1 <= d1 <= 0x4000_0000,
                1 <= sep_distance <= 1024,
        ;
        let denom: i64 = d1 * sep_distance;
        let num_x: i64 = dx * UNIT;
        let num_y: i64 = dy * UNIT;
        proof {
            lemma_sep_step_bounds(position, b, dx as int, dy as int, d1 as int,
                sep_distance as int, denom as int);
            lemma_tdiv_range(num_x as int, denom as int, -UNIT as int, UNIT as int);
            lemma_tdiv_range(num_y as int, denom as int, -UNIT as int, UNIT as int);
        }
        let cx: i64 = div_trunc(num_x, denom);
        let cy: i64 = div_trunc(num_y, denom);
        proof {
            let pre = local_boids@.take(i as int);
            let post = local_boids@.take(i + 1);
            assert(post.drop_last() =~= pre);
            assert(post.last() == local_boids@[i as int]);
            assert(((i + 1) as int) * UNIT == (i as int) * UNIT + UNIT) by (nonlinear_arith);
        }
        accx = accx - cx;
        accy = accy - cy;
        i = i + 1;
    }
    proof {
        assert(local_boids@.take(n_usize as int) =~= local_boids@);
    }
    assert(-RULE_LIMIT <= (accx as int) * (weight as int) <= RULE_LIMIT
        && -RULE_LIMIT <= (accy as int) * (weight as int) <= RULE_LIMIT) by (nonlinear_arith)
        requires
            -0x10_0000 <= accx <= 0x10_0000,
            -0x10_0000 <= accy <= 0x10_0000,
            0 <= weight <= 1024,
            RULE_LIMIT == 0x8000_0000,
    ;
    Vec2 { x: accx * weight, y: accy * weight }
}

/// The integer root of a bounded squared distance is bounded.
proof fn lemma_sqrt_floor_bounded(n: int)
    requires
        0 <= n <= 0x1000_0000_0000_0000,
    ensures
        sqrt_floor(n) <= 0x4000_0000,
{
    crate::math::lemma_sqrt_floor(n);
    let r = sqrt_floor(n);
    if r > 0x4000_0000 {
        assert(r * r > 0x1000_0000_0000_0000int) by (nonlinear_arith)
            requires
                r > 0x4000_0000,
        ;
    }
}

/// The numerator of one separation contribution stays within `UNIT` times
/// the denominator, so the contribution itself stays within `UNIT`.
proof fn lemma_sep_step_bounds(position: Vec2, b: BoidObject, dx: int, dy: int, d1: int, sep_d: int, denom: int)
    requires
        dx == b.pos.x - position.x,
        dy == b.pos.y - position.y,
        d1 == sep_dist(position, b),
        1 <= sep_d,
        denom == d1 * sep_d,
    ensures
        denom * -(UNIT as int) <= dx * UNIT <= denom * UNIT,
        denom * -(UNIT as int) <= dy * UNIT <= denom * UNIT,
        1 <= denom,
{
    assert(dist2(b.pos, position) == dx * dx + dy * dy);
    assert(0 <= dx * dx && 0 <= dy * dy) by (nonlinear_arith);
    crate::math::lemma_sqrt_floor(dist2(b.pos, position));
    if dx >= 0 {
        lemma_sqrt_floor_at_least(dist2(b.pos, position), dx);
    } else {
        assert((-dx) * (-dx) == dx * dx) by (nonlinear_arith);
        lemma_sqrt_floor_at_least(dist2(b.pos, position), -dx);
    }
    if dy >= 0 {
        lemma_sqrt_floor_at_least(dist2(b.pos, position), dy);
    } else {
        assert((-dy) * (-dy) == dy * dy) by (nonlinear_arith);
        lemma_sqrt_floor_at_least(dist2(b.pos, position), -dy);
    }
    assert(-d1 <= dx <= d1 && -d1 <= dy <= d1);
    assert(1 <= denom && denom * -(UNIT as int) <= dx * UNIT <= denom * UNIT
        && denom * -(UNIT as int) <= dy * UNIT <= denom * UNIT) by (nonlinear_arith)
        requires
            -d1 <= dx <= d1,
            -d1 <= dy <= d1,
            1 <= d1,
            1 <= sep_d,
            denom == d1 * sep_d,
            UNIT == 1000,
    ;
}

} // verus!
