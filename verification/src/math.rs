//! Fixed-point scalar helpers: integer square root and truncating division.
//!
//! All simulation quantities live in milli-units (`UNIT` per world unit), so
//! the vector operations of the solver reduce to integer arithmetic over
//! these two primitives.

use vstd::prelude::*;
use vstd::arithmetic::div_mod::lemma_fundamental_div_mod;
use vstd::arithmetic::div_mod::lemma_mod_division_less_than_divisor;
use vstd::arithmetic::div_mod::lemma_div_is_ordered;
use vstd::arithmetic::div_mod::lemma_div_multiples_vanish;

verus! {

/// Fixed-point milli-units per world unit.
pub const UNIT: i64 = 1000;

/// Extra precision factor used when rescaling a vector to a target
/// magnitude: the square root is taken of `norm2 * SQRT_SCALE^2` so that
/// the relative error of the integer root is at most `1 / SQRT_SCALE`.
pub const SQRT_SCALE: i64 = 65536;

/// `r` is the integer square root of `n` rounded down.
pub open spec fn is_sqrt_floor(n: int, r: int) -> bool {
    &&& 0 <= r
    &&& r * r <= n
    &&& n < (r + 1) * (r + 1)
}

/// The integer square root of `n`, rounded down.
pub open spec fn sqrt_floor(n: int) -> int {
    choose|r: int| #[trigger] is_sqrt_floor(n, r)
}

proof fn lemma_sqrt_floor_exists(n: nat)
    ensures
        exists|r: int| #[trigger] is_sqrt_floor(n as int, r),
    decreases n,
{
    if n == 0 {
        assert(is_sqrt_floor(0, 0));
    } else {
        lemma_sqrt_floor_exists((n - 1) as nat);
        let r = choose|r: int| #[trigger] is_sqrt_floor(n - 1, r);
        if n < (r + 1) * (r + 1) {
            assert(is_sqrt_floor(n as int, r));
        } else {
            assert((r + 1) * (r + 1) <= n);
            assert(n < (r + 2) * (r + 2)) by (nonlinear_arith)
                requires
                    n - 1 < (r + 1) * (r + 1),
                    0 <= r,
            ;
            assert(is_sqrt_floor(n as int, r + 1));
        }
    }
}

proof fn lemma_sqrt_floor_unique(n: int, a: int, b: int)
    requires
        is_sqrt_floor(n, a),
        is_sqrt_floor(n, b),
    ensures
        a == b,
{
    if a < b {
        assert((a + 1) * (a + 1) <= b * b) by (nonlinear_arith)
            requires
                0 <= a,
                a < b,
        ;
    }
    if b < a {
        assert((b + 1) * (b + 1) <= a * a) by (nonlinear_arith)
            requires
                0 <= b,
                b < a,
        ;
    }
}

/// `sqrt_floor` satisfies its defining inequalities for every `n >= 0`.
pub proof fn lemma_sqrt_floor(n: int)
    requires
        n >= 0,
    ensures
        is_sqrt_floor(n, sqrt_floor(n)),
{
    lemma_sqrt_floor_exists(n as nat);
}

/// Monotonicity in the form most often needed: a known square below `n`
/// bounds the root from below.
pub proof fn lemma_sqrt_floor_at_least(n: int, a: int)
    requires
        0 <= a,
        a * a <= n,
    ensures
        a <= sqrt_floor(n),
{
    lemma_sqrt_floor(n);
    let r = sqrt_floor(n);
    if r < a {
        assert((r + 1) * (r + 1) <= a * a) by (nonlinear_arith)
            requires
                0 <= r,
                r < a,
        ;
    }
}

/// Integer square root, rounded down.
pub fn isqrt(n: u128) -> (r: u64)
    ensures
        r == sqrt_floor(n as int),
        is_sqrt_floor(n as int, r as int),
{
    let mut lo: u128 = 0;
    let mut hi: u128 = 1u128 << 64;
    assert((1u128 << 64) == 0x10000000000000000u128) by (bit_vector);
    assert((hi as int) * (hi as int) > n) by (nonlinear_arith)
        requires
            hi == 0x10000000000000000u128,
            n <= u128::MAX,
    ;
    while lo + 1 < hi
        invariant
            0 <= lo < hi <= 0x10000000000000000u128,
            (lo as int) * (lo as int) <= n as int,
            n < (hi as int) * (hi as int),
        decreases hi - lo,
    {
        let mid: u128 = lo + (hi - lo) / 2;
        assert(lo < mid < hi);
        assert((mid as int) * (mid as int) < u128::MAX) by (nonlinear_arith)
            requires
                mid < 0x10000000000000000u128,
        ;
        if mid * mid <= n {
            lo = mid;
        } else {
            hi = mid;
        }
    }
    assert(is_sqrt_floor(n as int, lo as int));
    proof {
        lemma_sqrt_floor(n as int);
        lemma_sqrt_floor_unique(n as int, lo as int, sqrt_floor(n as int));
    }
    lo as u64
}

/// Division rounding toward zero, the rounding that the per-component
/// vector operations use. For nonnegative operands it agrees with the
/// mathematical floor division.
pub open spec fn tdiv(a: int, b: int) -> int {
    if a >= 0 {
        a / b
    } else {
        -((-a) / b)
    }
}

/// Truncating division on machine integers.
pub fn div_trunc(a: i64, b: i64) -> (r: i64)
    requires
        b >= 1,
        a > i64::MIN,
    ensures
        r == tdiv(a as int, b as int),
        a >= 0 ==> 0 <= r <= a,
        a < 0 ==> a <= r <= 0,
{
    proof {
        if a >= 0 {
            lemma_div_bounds(a as int, b as int);
        } else {
            lemma_div_bounds(-(a as int), b as int);
        }
    }
    if a >= 0 {
        a / b
    } else {
        -((-a) / b)
    }
}

/// Truncating division keeps a value between multiples of the divisor
/// within the corresponding quotient range.
pub proof fn lemma_tdiv_range(a: int, n: int, lo: int, hi: int)
    requires
        n >= 1,
        n * lo <= a,
        a <= n * hi,
    ensures
        lo <= tdiv(a, n) <= hi,
{
    if a >= 0 {
        lemma_div_is_ordered(n * lo, a, n);
        lemma_div_is_ordered(a, n * hi, n);
        lemma_div_multiples_vanish(lo, n);
        lemma_div_multiples_vanish(hi, n);
    } else {
        assert(n * -hi == -(n * hi) && n * -lo == -(n * lo)) by (nonlinear_arith);
        lemma_div_is_ordered(n * -hi, -a, n);
        lemma_div_is_ordered(-a, n * -lo, n);
        lemma_div_multiples_vanish(-lo, n);
        lemma_div_multiples_vanish(-hi, n);
    }
}

/// Floor division of a nonnegative value by a positive one stays within
/// `[0, a]`.
pub proof fn lemma_div_bounds(a: int, b: int)
    requires
        a >= 0,
        b >= 1,
    ensures
        0 <= a / b <= a,
{
    lemma_fundamental_div_mod(a, b);
    lemma_mod_division_less_than_divisor(a, b);
    if a / b < 0 {
        assert(b * (a / b) <= a / b) by (nonlinear_arith)
            requires
                b >= 1,
                a / b < 0,
        ;
    }
    assert(a / b <= b * (a / b)) by (nonlinear_arith)
        requires
            b >= 1,
            a / b >= 0,
    ;
}

} // verus!
