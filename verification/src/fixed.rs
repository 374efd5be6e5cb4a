//! Exact helpers for fixed-point arithmetic: absolute value, truncating
//! division, division rounded to the nearest integer (ties away from zero),
//! and an integer square root.

use vstd::prelude::*;
use vstd::arithmetic::div_mod::lemma_fundamental_div_mod_converse;
use vstd::arithmetic::div_mod::lemma_div_is_ordered_by_denominator;

verus! {

/// Absolute value of a mathematical integer.
pub open spec fn abs_val(x: int) -> int {
    if x < 0 {
        -x
    } else {
        x
    }
}

/// Quotient of `a / b` truncated toward zero, for `b > 0`.
pub open spec fn tdiv(a: int, b: int) -> int {
    if a >= 0 {
        a / b
    } else {
        -((-a) / b)
    }
}

/// Quotient of `p / q` rounded to the nearest integer, ties away from zero,
/// for `q > 0`.
pub open spec fn round_div(p: int, q: int) -> int {
    if p >= 0 {
        (2 * p + q) / (2 * q)
    } else {
        -((2 * -p + q) / (2 * q))
    }
}

/// `r` is the floor of the real square root of `n`.
pub open spec fn is_sqrt_floor(n: int, r: int) -> bool {
    0 <= r && r * r <= n && n < (r + 1) * (r + 1)
}

/// The floor of the real square root of `n`, for `n >= 0`.
pub open spec fn sqrt_floor(n: int) -> int {
    choose|r: int| is_sqrt_floor(n, r)
}

/// The square root floor exists for every nonnegative integer, so
/// `sqrt_floor` denotes a value with the defining property.
pub proof fn lemma_sqrt_floor_exists(n: int)
    requires
        n >= 0,
    ensures
        is_sqrt_floor(n, sqrt_floor(n)),
    decreases n,
{
    if n == 0 {
        assert(is_sqrt_floor(0, 0)) by (nonlinear_arith);
    } else {
        lemma_sqrt_floor_exists(n - 1);
        let r = sqrt_floor(n - 1);
        if n < (r + 1) * (r + 1) {
            assert(is_sqrt_floor(n, r));
        } else {
            assert(is_sqrt_floor(n, r + 1)) by (nonlinear_arith)
                requires
                    0 <= r,
                    (r + 1) * (r + 1) <= n,
                    n - 1 < (r + 1) * (r + 1),
            ;
        }
    }
    assert(exists|r: int| is_sqrt_floor(n, r));
}

/// Any integer with the square-root-floor property equals `sqrt_floor(n)`.
pub proof fn lemma_sqrt_floor_unique(n: int, r: int)
    requires
        n >= 0,
        is_sqrt_floor(n, r),
    ensures
        r == sqrt_floor(n),
{
    lemma_sqrt_floor_exists(n);
    let s = sqrt_floor(n);
    assert(r == s) by (nonlinear_arith)
        requires
            is_sqrt_floor(n, r),
            is_sqrt_floor(n, s),
    ;
}

/// Rounding an exact multiple of the divisor recovers the multiplier.
pub proof fn lemma_round_div_exact(i: int, q: int)
    requires
        0 <= i,
        1 <= q,
    ensures
        round_div(i * q, q) == i,
{
    assert(i * q >= 0) by (nonlinear_arith)
        requires
            0 <= i,
            1 <= q,
    ;
    assert(2 * (i * q) + q == i * (2 * q) + q) by (nonlinear_arith);
    lemma_fundamental_div_mod_converse(2 * (i * q) + q, 2 * q, i, q);
}

/// A truncated quotient is no larger in magnitude than the bound on its
/// dividend divided by the divisor.
pub proof fn lemma_tdiv_bound(a: int, b: int, bound: int)
    requires
        1 <= b,
        0 <= bound,
        abs_val(a) <= bound,
    ensures
        abs_val(tdiv(a, b)) <= bound / b,
        abs_val(tdiv(a, b)) <= bound,
{
    vstd::arithmetic::div_mod::lemma_div_is_ordered(0, bound, b);
    if a >= 0 {
        vstd::arithmetic::div_mod::lemma_div_is_ordered(0, a, b);
        vstd::arithmetic::div_mod::lemma_div_is_ordered(a, bound, b);
    } else {
        vstd::arithmetic::div_mod::lemma_div_is_ordered(0, -a, b);
        vstd::arithmetic::div_mod::lemma_div_is_ordered(-a, bound, b);
    }
    vstd::arithmetic::div_mod::lemma_div_nonincreasing(bound, b);
}

/// The magnitude of a product is bounded by the product of the bounds.
pub proof fn lemma_mul_abs_bound(x: int, y: int, bx: int, by: int)
    requires
        abs_val(x) <= bx,
        abs_val(y) <= by,
    ensures
        abs_val(x * y) <= bx * by,
{
    assert(abs_val(x * y) <= bx * by) by (nonlinear_arith)
        requires
            abs_val(x) <= bx,
            abs_val(y) <= by,
    ;
}

/// Truncating division of `a` by `b`, exactly `tdiv(a, b)`.
pub fn tdiv64(a: i64, b: i64) -> (r: i64)
    requires
        1 <= b,
        -0x7fff_ffff_ffff_ffff <= a,
    ensures
        r == tdiv(a as int, b as int),
{
    if a >= 0 {
        let q: u64 = (a as u64) / (b as u64);
        q as i64
    } else {
        let m: i64 = -a;
        let q: u64 = (m as u64) / (b as u64);
        assert(q <= m as u64);
        -(q as i64)
    }
}

/// Division of `p` by `q` rounded to the nearest integer, ties away from
/// zero, exactly `round_div(p, q)`.
pub fn round_div64(p: i64, q: i64) -> (r: i64)
    requires
        1 <= q <= 0x1_0000_0000_0000,
        -0x2000_0000_0000_0000 <= p <= 0x2000_0000_0000_0000,
    ensures
        r == round_div(p as int, q as int),
{
    if p >= 0 {
        let num: u64 = 2 * (p as u64) + (q as u64);
        let den: u64 = 2 * (q as u64);
        let r: u64 = num / den;
        proof {
            lemma_div_is_ordered_by_denominator(num as int, 2, den as int);
        }
        assert(r <= num / 2);
        r as i64
    } else {
        let m: i64 = -p;
        let num: u64 = 2 * (m as u64) + (q as u64);
        let den: u64 = 2 * (q as u64);
        let r: u64 = num / den;
        proof {
            lemma_div_is_ordered_by_denominator(num as int, 2, den as int);
        }
        assert(r <= num / 2);
        -(r as i64)
    }
}

/// Floor of the square root of `n`, exactly `sqrt_floor(n)`.
pub fn isqrt64(n: i64) -> (r: i64)
    requires
        0 <= n <= 4_000_000_000_000,
    ensures
        r == sqrt_floor(n as int),
        is_sqrt_floor(n as int, r as int),
{
    let nu: u64 = n as u64;
    let mut lo: u64 = 0;
    let mut hi: u64 = 2_000_001;
    assert((nu as int) < 2_000_001int * 2_000_001int) by (nonlinear_arith)
        requires
            nu <= 4_000_000_000_000u64,
    ;
    while lo + 1 < hi
        invariant
            lo < hi <= 2_000_001,
            (lo * lo) as int <= nu as int,
            (nu as int) < (hi as int) * (hi as int),
            nu == n,
        decreases hi - lo,
    {
        let mid: u64 = lo + (hi - lo) / 2;
        assert(lo < mid < hi);
        assert((mid as int) * (mid as int) <= 2_000_001int * 2_000_001int) by (nonlinear_arith)
            requires
                mid <= 2_000_001u64,
        ;
        if mid * mid <= nu {
            lo = mid;
        } else {
            hi = mid;
        }
    }
    assert(is_sqrt_floor(n as int, lo as int));
    proof {
        lemma_sqrt_floor_unique(n as int, lo as int);
    }
    lo as i64
}

} // verus!
