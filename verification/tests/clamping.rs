//! Tests of the fixed-point scalar helpers and magnitude clamps.

use bitoids::math::{isqrt, div_trunc};
use bitoids::vec2::{Vec2, set_velocity, set_max_acc};

#[test]
fn isqrt_small_values() {
    assert_eq!(isqrt(0), 0);
    assert_eq!(isqrt(1), 1);
    assert_eq!(isqrt(3), 1);
    assert_eq!(isqrt(4), 2);
    assert_eq!(isqrt(15), 3);
    assert_eq!(isqrt(16), 4);
    assert_eq!(isqrt(2_500_000_000), 50_000);
}

#[test]
fn isqrt_large_values() {
    assert_eq!(isqrt(u128::from(u64::MAX)), 4_294_967_295);
    let n: u128 = 123_456_789_012_345_678_901_234_567_890;
    let r = isqrt(n);
    let r128 = u128::from(r);
    assert!(r128 * r128 <= n);
    assert!((r128 + 1) * (r128 + 1) > n);
}

#[test]
fn div_trunc_rounds_toward_zero() {
    assert_eq!(div_trunc(7, 2), 3);
    assert_eq!(div_trunc(-7, 2), -3);
    assert_eq!(div_trunc(6, 3), 2);
    assert_eq!(div_trunc(-6, 3), -2);
    assert_eq!(div_trunc(0, 5), 0);
}

#[test]
fn set_velocity_scales_down_exact() {
    // |(30000, 40000)| = 50000, far over a band top of 1400: the result
    // lands exactly on the top because the root is exact.
    let r = set_velocity(1400, 800, Vec2 { x: 30_000, y: 40_000 });
    assert_eq!(r, Vec2 { x: 840, y: 1120 });
    assert_eq!(r.x * r.x + r.y * r.y, 1400 * 1400);
}

#[test]
fn set_velocity_scales_up_exact() {
    // |(30, 40)| = 50, far under a band bottom of 800.
    let r = set_velocity(1400, 800, Vec2 { x: 30, y: 40 });
    assert_eq!(r, Vec2 { x: 480, y: 640 });
    assert_eq!(r.x * r.x + r.y * r.y, 800 * 800);
}

#[test]
fn set_velocity_inexact_roots_stay_in_tolerance() {
    let r = set_velocity(1400, 800, Vec2 { x: 2000, y: 1000 });
    assert_eq!(r, Vec2 { x: 1252, y: 626 });
    let n2 = r.x * r.x + r.y * r.y;
    assert!(1400 * 1400 - 4 * 1400 <= n2 && n2 <= 1400 * 1400 + 2 * 1400);

    let r = set_velocity(1400, 800, Vec2 { x: 1, y: 2 });
    assert_eq!(r, Vec2 { x: 357, y: 715 });
    let n2 = r.x * r.x + r.y * r.y;
    assert!(800 * 800 - 4 * 800 <= n2 && n2 <= 800 * 800 + 2 * 800);
}

#[test]
fn set_velocity_zero_vector_stays_zero() {
    // Rescaling a degenerate vector resolves to the zero vector, never to
    // a division by zero.
    let r = set_velocity(1400, 800, Vec2 { x: 0, y: 0 });
    assert_eq!(r, Vec2 { x: 0, y: 0 });
}

#[test]
fn set_velocity_in_band_unchanged() {
    let r = set_velocity(1400, 800, Vec2 { x: 1000, y: 0 });
    assert_eq!(r, Vec2 { x: 1000, y: 0 });
    let r = set_velocity(1400, 800, Vec2 { x: -900, y: 500 });
    assert_eq!(r, Vec2 { x: -900, y: 500 });
}

#[test]
fn set_max_acc_clamps_exact() {
    let r = set_max_acc(10_000, Vec2 { x: 30_000, y: 40_000 });
    assert_eq!(r, Vec2 { x: 6000, y: 8000 });
    assert_eq!(r.x * r.x + r.y * r.y, 10_000i64 * 10_000);
}

#[test]
fn set_max_acc_within_budget_unchanged() {
    let r = set_max_acc(10_000, Vec2 { x: 100, y: -200 });
    assert_eq!(r, Vec2 { x: 100, y: -200 });
    let r = set_max_acc(10_000, Vec2 { x: 0, y: 0 });
    assert_eq!(r, Vec2 { x: 0, y: 0 });
}

#[test]
fn set_velocity_preserves_signs() {
    let r = set_velocity(1400, 800, Vec2 { x: -30_000, y: 40_000 });
    assert_eq!(r, Vec2 { x: -840, y: 1120 });
    let r = set_velocity(1400, 800, Vec2 { x: 30_000, y: -40_000 });
    assert_eq!(r, Vec2 { x: 840, y: -1120 });
}
