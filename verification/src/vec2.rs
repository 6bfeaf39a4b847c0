//! Fixed-point 2D vectors and magnitude clamping.
//!
//! A vector is a pair of signed milli-unit components. Clamping a vector
//! into a magnitude band never divides by zero: the zero vector is its own
//! defined base case, and rescaling works on `norm2 * SQRT_SCALE^2` so the
//! integer square root loses at most one part in `SQRT_SCALE`.

use vstd::prelude::*;
use crate::math::{SQRT_SCALE, sqrt_floor, lemma_sqrt_floor_at_least, isqrt};

verus! {

/// Largest component magnitude accepted by the clamping operations; large
/// enough for every intermediate force sum of the solver.
pub const COORD_LIMIT: i64 = 0x4000_0000_0000;

/// A 2D vector in fixed-point milli-units.
#[derive(Clone, Copy, Debug, PartialEq, Eq, Structural)]
pub struct Vec2 {
    pub x: i64,
    pub y: i64,
}

/// Squared magnitude. The clamping rules compare squared magnitudes so the
/// common, in-band path takes no square root.
pub open spec fn norm2(v: Vec2) -> int {
    v.x * v.x + v.y * v.y
}

/// One component of a vector rescaled toward magnitude `t`: the component
/// is multiplied by `t * SQRT_SCALE` and divided by the scaled root,
/// rounding toward zero.
pub open spec fn scale_comp(c: int, t: int, rk: int) -> int {
    if c >= 0 {
        (c * t * SQRT_SCALE) / rk
    } else {
        -(((-c) * t * SQRT_SCALE) / rk)
    }
}

/// A pair of components rescaled toward magnitude `t`.
pub open spec fn scale_to_i(x: int, y: int, t: int) -> (int, int) {
    let rk = sqrt_floor((x * x + y * y) * SQRT_SCALE * SQRT_SCALE);
    (scale_comp(x, t, rk), scale_comp(y, t, rk))
}

/// Both components of `v` rescaled toward magnitude `t`.
pub open spec fn spec_scale_to(v: Vec2, t: int) -> (int, int) {
    scale_to_i(v.x as int, v.y as int, t)
}

/// The magnitude cap on a pair of components: over the cap, rescale onto
/// it; within, pass unchanged.
pub open spec fn clamp_hi_i(x: int, y: int, limit: int) -> (int, int) {
    if x * x + y * y > limit * limit {
        scale_to_i(x, y, limit)
    } else {
        (x, y)
    }
}

/// The magnitude band on a pair of components: over the band, rescale
/// down onto its top; under it and nonzero, rescale up onto its bottom;
/// the zero pair stays zero; inside the band, pass unchanged.
pub open spec fn clamp_band_i(x: int, y: int, min_v: int, max_v: int) -> (int, int) {
    if x * x + y * y > max_v * max_v {
        scale_to_i(x, y, max_v)
    } else if x * x + y * y < min_v * min_v {
        if x == 0 && y == 0 {
            (0, 0)
        } else {
            scale_to_i(x, y, min_v)
        }
    } else {
        (x, y)
    }
}

/// A rescaled component stays within the target magnitude.
proof fn lemma_scale_comp_le(a: int, t: int, k: int, rk: int, q: int)
    by (nonlinear_arith)
    requires
        0 <= a,
        1 <= t,
        1 <= k,
        1 <= rk,
        a * k <= rk,
        q * rk <= a * t * k,
        a * t * k < (q + 1) * rk,
        0 <= q,
    ensures
        q <= t,
{
}

/// Upper bound of the rescaling error: the squared magnitude of the result
/// exceeds `t^2` by at most `2t`.
proof fn lemma_scale_upper(a: int, b: int, t: int, k: int, rk: int, q: int, p: int)
    requires
        0 <= a,
        0 <= b,
        1 <= t,
        1 <= k,
        t <= rk,
        0 <= q,
        0 <= p,
        q * rk <= a * t * k,
        p * rk <= b * t * k,
        (a * a + b * b) * (k * k) < (rk + 1) * (rk + 1),
    ensures
        q * q + p * p <= t * t + 2 * t,
{
    assert((q * q) * (rk * rk) <= ((a * a) * (t * t)) * (k * k)) by (nonlinear_arith)
        requires
            0 <= q,
            1 <= rk,
            q * rk <= a * t * k,
            0 <= a,
            1 <= t,
            1 <= k,
    ;
    assert((p * p) * (rk * rk) <= ((b * b) * (t * t)) * (k * k)) by (nonlinear_arith)
        requires
            0 <= p,
            1 <= rk,
            p * rk <= b * t * k,
            0 <= b,
            1 <= t,
            1 <= k,
    ;
    assert((a * a + b * b) * (k * k) <= rk * rk + 2 * rk) by (nonlinear_arith)
        requires
            (a * a + b * b) * (k * k) < (rk + 1) * (rk + 1),
    ;
    assert(((a * a) * (t * t)) * (k * k) + ((b * b) * (t * t)) * (k * k)
        == ((a * a + b * b) * (k * k)) * (t * t)) by (nonlinear_arith);
    assert(((a * a + b * b) * (k * k)) * (t * t) <= (rk * rk + 2 * rk) * (t * t))
        by (nonlinear_arith)
        requires
            (a * a + b * b) * (k * k) <= rk * rk + 2 * rk,
            0 <= t * t,
    ;
    assert((q * q + p * p) * (rk * rk) == (q * q) * (rk * rk) + (p * p) * (rk * rk))
        by (nonlinear_arith);
    assert((q * q + p * p) * (rk * rk) <= (rk * rk + 2 * rk) * (t * t));
    assert(q * q + p * p <= t * t + 2 * t) by (nonlinear_arith)
        requires
            (q * q + p * p) * (rk * rk) <= (rk * rk + 2 * rk) * (t * t),
            1 <= t,
            t <= rk,
            0 <= q,
            0 <= p,
    ;
}

/// Lower bound of the rescaling error: the squared magnitude of the result
/// falls short of `t^2` by at most `4t`.
#[verifier::rlimit(50)]
proof fn lemma_scale_lower(a: int, b: int, t: int, k: int, rk: int, q: int, p: int)
    requires
        0 <= a,
        0 <= b,
        1 <= t,
        1 <= k,
        1 <= rk,
        0 <= q,
        0 <= p,
        q * rk <= a * t * k,
        a * t * k < (q + 1) * rk,
        p * rk <= b * t * k,
        b * t * k < (p + 1) * rk,
        a * k <= rk,
        b * k <= rk,
        rk * rk <= (a * a + b * b) * (k * k),
    ensures
        q * q + p * p >= t * t - 4 * t,
{
    let ea = a * t * k - q * rk;
    let eb = b * t * k - p * rk;
    assert(0 <= ea < rk) by (nonlinear_arith)
        requires
            ea == a * t * k - q * rk,
            q * rk <= a * t * k,
            a * t * k < (q + 1) * rk,
    ;
    assert(0 <= eb < rk) by (nonlinear_arith)
        requires
            eb == b * t * k - p * rk,
            p * rk <= b * t * k,
            b * t * k < (p + 1) * rk,
    ;
    assert((q * rk) * (q * rk) >= ((a * a) * (t * t)) * (k * k) - 2 * ((a * t * k) * rk))
        by (nonlinear_arith)
        requires
            q * rk == a * t * k - ea,
            0 <= ea < rk,
            0 <= a * t * k,
    ;
    assert((p * rk) * (p * rk) >= ((b * b) * (t * t)) * (k * k) - 2 * ((b * t * k) * rk))
        by (nonlinear_arith)
        requires
            p * rk == b * t * k - eb,
            0 <= eb < rk,
            0 <= b * t * k,
    ;
    assert((a * t * k) * rk + (b * t * k) * rk <= 2 * (t * (rk * rk))) by (nonlinear_arith)
        requires
            a * k <= rk,
            b * k <= rk,
            0 <= a,
            0 <= b,
            1 <= t,
            1 <= k,
            1 <= rk,
    ;
    assert(((a * a) * (t * t)) * (k * k) + ((b * b) * (t * t)) * (k * k) >= (t * t) * (rk * rk))
        by (nonlinear_arith)
        requires
            rk * rk <= (a * a + b * b) * (k * k),
            0 <= t * t,
    ;
    assert((q * rk) * (q * rk) == (q * q) * (rk * rk)) by (nonlinear_arith);
    assert((p * rk) * (p * rk) == (p * p) * (rk * rk)) by (nonlinear_arith);
    assert((q * q + p * p) * (rk * rk) == (q * q) * (rk * rk) + (p * p) * (rk * rk))
        by (nonlinear_arith);
    assert((q * q + p * p) * (rk * rk) >= (t * t) * (rk * rk) - 4 * (t * (rk * rk)));
    assert(q * q + p * p >= t * t - 4 * t) by (nonlinear_arith)
        requires
            (q * q + p * p) * (rk * rk) >= (t * t) * (rk * rk) - 4 * (t * (rk * rk)),
            1 <= rk,
    ;
}

/// Rescales a nonzero vector to magnitude `t`, within the fixed-point
/// tolerance: the squared magnitude of the result lies in
/// `[t^2 - 4t, t^2 + 2t]` and no component exceeds `t`.
pub fn scale_to(v: Vec2, t: i64) -> (r: Vec2)
    requires
        1 <= t <= SQRT_SCALE,
        -COORD_LIMIT <= v.x <= COORD_LIMIT,
        -COORD_LIMIT <= v.y <= COORD_LIMIT,
        norm2(v) >= 1,
    ensures
        r.x == spec_scale_to(v, t as int).0,
        r.y == spec_scale_to(v, t as int).1,
        t * t - 4 * t <= norm2(r) <= t * t + 2 * t,
        -t <= r.x <= t,
        -t <= r.y <= t,
{
    let ax: i64 = if v.x >= 0 { v.x } else { -v.x };
    let ay: i64 = if v.y >= 0 { v.y } else { -v.y };
    assert((ax as int) * (ax as int) == (v.x as int) * (v.x as int)) by (nonlinear_arith)
        requires
            ax == if v.x >= 0 { v.x as int } else { -(v.x as int) },
    ;
    assert((ay as int) * (ay as int) == (v.y as int) * (v.y as int)) by (nonlinear_arith)
        requires
            ay == if v.y >= 0 { v.y as int } else { -(v.y as int) },
    ;
    assert((ax as int) * (ax as int) + (ay as int) * (ay as int) <= 0x4000_0000_0000_0000_0000_0000int)
        by (nonlinear_arith)
        requires
            0 <= ax <= COORD_LIMIT,
            0 <= ay <= COORD_LIMIT,
    ;
    let n2: u128 = (ax as u128) * (ax as u128) + (ay as u128) * (ay as u128);
    assert(n2 == norm2(v));
    let m: u128 = n2 * ((SQRT_SCALE as u128) * (SQRT_SCALE as u128));
    assert(m == norm2(v) * (SQRT_SCALE as int) * (SQRT_SCALE as int)) by (nonlinear_arith)
        requires
            m == n2 * ((SQRT_SCALE as int) * (SQRT_SCALE as int)),
            n2 == norm2(v),
    ;
    let rk: u64 = isqrt(m);
    proof {
        lemma_sqrt_floor_at_least(m as int, SQRT_SCALE as int);
        assert((SQRT_SCALE as int) * (SQRT_SCALE as int) <= m) by (nonlinear_arith)
            requires
                m == n2 * ((SQRT_SCALE as int) * (SQRT_SCALE as int)),
                n2 >= 1,
        ;
    }
    assert((ax as int) * (t as int) * (SQRT_SCALE as int) < 0x1_0000_0000_0000_0000_0000int
        && (ay as int) * (t as int) * (SQRT_SCALE as int) < 0x1_0000_0000_0000_0000_0000int)
        by (nonlinear_arith)
        requires
            0 <= ax <= COORD_LIMIT,
            0 <= ay <= COORD_LIMIT,
            1 <= t <= SQRT_SCALE,
            SQRT_SCALE == 65536,
            COORD_LIMIT == 0x4000_0000_0000,
    ;
    let num_x: u128 = (ax as u128) * (t as u128) * (SQRT_SCALE as u128);
    let num_y: u128 = (ay as u128) * (t as u128) * (SQRT_SCALE as u128);
    let qx: u128 = num_x / (rk as u128);
    let qy: u128 = num_y / (rk as u128);
    proof {
        lemma_scale_div_facts(ax as int, t as int, SQRT_SCALE as int, rk as int, qx as int);
        lemma_scale_div_facts(ay as int, t as int, SQRT_SCALE as int, rk as int, qy as int);
        assert((ax as int) * (SQRT_SCALE as int) <= rk && (ay as int) * (SQRT_SCALE as int) <= rk) by {
            assert(((ax as int) * (SQRT_SCALE as int)) * ((ax as int) * (SQRT_SCALE as int)) <= m)
                by (nonlinear_arith)
                requires
                    m == norm2(v) * (SQRT_SCALE as int) * (SQRT_SCALE as int),
                    (ax as int) * (ax as int) <= norm2(v),
                    0 <= ax,
            ;
            assert(((ay as int) * (SQRT_SCALE as int)) * ((ay as int) * (SQRT_SCALE as int)) <= m)
                by (nonlinear_arith)
                requires
                    m == norm2(v) * (SQRT_SCALE as int) * (SQRT_SCALE as int),
                    (ay as int) * (ay as int) <= norm2(v),
                    0 <= ay,
            ;
            lemma_sqrt_floor_at_least(m as int, (ax as int) * (SQRT_SCALE as int));
            lemma_sqrt_floor_at_least(m as int, (ay as int) * (SQRT_SCALE as int));
        }
        lemma_scale_comp_le(ax as int, t as int, SQRT_SCALE as int, rk as int, qx as int);
        lemma_scale_comp_le(ay as int, t as int, SQRT_SCALE as int, rk as int, qy as int);
        lemma_scale_upper(ax as int, ay as int, t as int, SQRT_SCALE as int, rk as int, qx as int, qy as int);
        lemma_scale_lower(ax as int, ay as int, t as int, SQRT_SCALE as int, rk as int, qx as int, qy as int);
    }
    let rx: i64 = if v.x >= 0 { qx as i64 } else { -(qx as i64) };
    let ry: i64 = if v.y >= 0 { qy as i64 } else { -(qy as i64) };
    let r = Vec2 { x: rx, y: ry };
    assert(norm2(r) == (qx as int) * (qx as int) + (qy as int) * (qy as int)) by (nonlinear_arith)
        requires
            r.x as int == if v.x >= 0 { qx as int } else { -(qx as int) },
            r.y as int == if v.y >= 0 { qy as int } else { -(qy as int) },
            norm2(r) == (r.x as int) * (r.x as int) + (r.y as int) * (r.y as int),
    ;
    r
}

/// Squared magnitude on machine integers.
fn norm2_exec(v: Vec2) -> (n: i128)
    requires
        -COORD_LIMIT <= v.x <= COORD_LIMIT,
        -COORD_LIMIT <= v.y <= COORD_LIMIT,
    ensures
        n == norm2(v),
{
    assert((v.x as int) * (v.x as int) + (v.y as int) * (v.y as int)
        <= 0x4000_0000_0000_0000_0000_0000int) by (nonlinear_arith)
        requires
            -COORD_LIMIT <= v.x <= COORD_LIMIT,
            -COORD_LIMIT <= v.y <= COORD_LIMIT,
            COORD_LIMIT == 0x4000_0000_0000,
    ;
    assert((v.x as int) * (v.x as int) >= 0 && (v.y as int) * (v.y as int) >= 0)
        by (nonlinear_arith);
    (v.x as i128) * (v.x as i128) + (v.y as i128) * (v.y as i128)
}

/// A vector whose squared magnitude is at most `l * l` has no component
/// beyond `l` in magnitude.
proof fn lemma_comp_within(v: Vec2, l: int)
    by (nonlinear_arith)
    requires
        0 <= l,
        norm2(v) <= l * l,
    ensures
        -l <= v.x <= l,
        -l <= v.y <= l,
{
}

/// Squares of band bounds stay tiny.
proof fn lemma_square_small(x: int)
    by (nonlinear_arith)
    requires
        0 <= x <= 65536,
    ensures
        0 <= x * x <= 0x1_0000_0000,
{
}

/// The acceleration cap: a vector over the cap is rescaled onto it, one
/// within the cap passes unchanged.
pub open spec fn spec_set_max_acc(max_acc: int, acc: Vec2) -> (int, int) {
    clamp_hi_i(acc.x as int, acc.y as int, max_acc)
}

/// Clamps `acc` to magnitude at most `max_acc`, within the fixed-point
/// tolerance `2 * max_acc` on the squared magnitude. The squared-magnitude
/// test keeps the in-budget path free of square roots, and a zero vector
/// passes through unchanged.
pub fn set_max_acc(max_acc: i64, acc: Vec2) -> (r: Vec2)
    requires
        1 <= max_acc <= SQRT_SCALE,
        -COORD_LIMIT <= acc.x <= COORD_LIMIT,
        -COORD_LIMIT <= acc.y <= COORD_LIMIT,
    ensures
        r.x == spec_set_max_acc(max_acc as int, acc).0,
        r.y == spec_set_max_acc(max_acc as int, acc).1,
        norm2(r) <= max_acc * max_acc + 2 * max_acc,
        norm2(acc) <= max_acc * max_acc ==> r == acc,
        -max_acc <= r.x <= max_acc,
        -max_acc <= r.y <= max_acc,
{
    let n2: i128 = norm2_exec(acc);
    proof {
        lemma_square_small(max_acc as int);
    }
    let lim2: i128 = (max_acc as i128) * (max_acc as i128);
    if n2 > lim2 {
        scale_to(acc, max_acc)
    } else {
        proof {
            lemma_comp_within(acc, max_acc as int);
        }
        acc
    }
}

/// The velocity band: after clamping, the squared magnitude of a nonzero
/// velocity lies between `min^2 - 4 min` and `max^2 + 2 max`.
pub open spec fn vel_in_band(v: Vec2, min_vel: int, max_vel: int) -> bool {
    min_vel * min_vel - 4 * min_vel <= norm2(v) <= max_vel * max_vel + 2 * max_vel
}

/// The velocity clamp: a vector over the band is rescaled down onto its
/// top, a nonzero one under the band is rescaled up onto its bottom, the
/// zero vector stays zero, and anything inside the band passes unchanged.
pub open spec fn spec_set_velocity(max_vel: int, min_vel: int, vel: Vec2) -> (int, int) {
    clamp_band_i(vel.x as int, vel.y as int, min_vel, max_vel)
}

/// Clamps the magnitude of `vel` into `[min_vel, max_vel]` within the
/// fixed-point tolerance, leaving the zero vector zero: rescaling a
/// degenerate vector resolves to the zero vector, never to a division by
/// zero.
pub fn set_velocity(max_vel: i64, min_vel: i64, vel: Vec2) -> (r: Vec2)
    requires
        1 <= min_vel <= max_vel <= SQRT_SCALE,
        -COORD_LIMIT <= vel.x <= COORD_LIMIT,
        -COORD_LIMIT <= vel.y <= COORD_LIMIT,
    ensures
        r.x == spec_set_velocity(max_vel as int, min_vel as int, vel).0,
        r.y == spec_set_velocity(max_vel as int, min_vel as int, vel).1,
        vel.x == 0 && vel.y == 0 ==> r == vel,
        !(vel.x == 0 && vel.y == 0) ==> vel_in_band(r, min_vel as int, max_vel as int),
        norm2(r) <= max_vel * max_vel + 2 * max_vel,
        -max_vel <= r.x <= max_vel,
        -max_vel <= r.y <= max_vel,
{
    let n2: i128 = norm2_exec(vel);
    proof {
        lemma_square_small(max_vel as int);
        lemma_square_small(min_vel as int);
    }
    let max2: i128 = (max_vel as i128) * (max_vel as i128);
    let min2: i128 = (min_vel as i128) * (min_vel as i128);
    assert(vel.x == 0 && vel.y == 0 ==> norm2(vel) == 0) by (nonlinear_arith);
    if n2 > max2 {
        let r = scale_to(vel, max_vel);
        assert(norm2(r) >= 0) by (nonlinear_arith);
        assert(norm2(r) >= min_vel * min_vel - 4 * min_vel) by (nonlinear_arith)
            requires
                1 <= min_vel <= max_vel,
                norm2(r) >= max_vel * max_vel - 4 * max_vel,
                norm2(r) >= 0,
        ;
        r
    } else if n2 < min2 {
        if vel.x == 0 && vel.y == 0 {
            vel
        } else {
            proof {
                assert(norm2(vel) >= 1) by (nonlinear_arith)
                    requires
                        !(vel.x == 0 && vel.y == 0),
                        norm2(vel) == (vel.x as int) * (vel.x as int) + (vel.y as int) * (vel.y as int),
                ;
            }
            let r = scale_to(vel, min_vel);
            assert(norm2(r) <= max_vel * max_vel + 2 * max_vel) by (nonlinear_arith)
                requires
                    1 <= min_vel <= max_vel,
                    norm2(r) <= min_vel * min_vel + 2 * min_vel,
            ;
            r
        }
    } else {
        proof {
            lemma_comp_within(vel, max_vel as int);
            assert(norm2(vel) >= min_vel * min_vel - 4 * min_vel);
        }
        vel
    }
}

/// The two defining inequalities of the truncating division by the scaled
/// root, in the form the bound lemmas consume.
proof fn lemma_scale_div_facts(a: int, t: int, k: int, rk: int, q: int)
    requires
        0 <= a,
        1 <= t,
        1 <= k,
        1 <= rk,
        q == (a * t * k) / rk,
    ensures
        0 <= q,
        q * rk <= a * t * k,
        a * t * k < (q + 1) * rk,
{
    vstd::arithmetic::div_mod::lemma_fundamental_div_mod(a * t * k, rk);
    vstd::arithmetic::div_mod::lemma_mod_division_less_than_divisor(a * t * k, rk);
    assert(0 <= a * t * k) by (nonlinear_arith)
        requires
            0 <= a,
            1 <= t,
            1 <= k,
    ;
    crate::math::lemma_div_bounds(a * t * k, rk);
    assert(q * rk == rk * q) by (nonlinear_arith);
    assert((q + 1) * rk == rk * q + rk) by (nonlinear_arith);
}

} // verus!
