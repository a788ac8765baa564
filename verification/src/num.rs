//! Small numeric helpers: ordering utilities, floor division, and an
//! integer square root.

use vstd::prelude::*;
use vstd::arithmetic::div_mod::lemma_fundamental_div_mod;
use vstd::arithmetic::div_mod::lemma_fundamental_div_mod_converse;

verus! {

pub open spec fn spec_clamp(val: int, lo: int, hi: int) -> int {
    if val < lo {
        lo
    } else if val > hi {
        hi
    } else {
        val
    }
}

pub open spec fn spec_min(a: int, b: int) -> int {
    if a < b {
        a
    } else {
        b
    }
}

pub open spec fn spec_max(a: int, b: int) -> int {
    if a > b {
        a
    } else {
        b
    }
}

/// Clamps a value between a minimum and a maximum bound.
pub fn clamp(val: i64, min: i64, max: i64) -> (r: i64)
    ensures
        r == spec_clamp(val as int, min as int, max as int),
{
    if val < min {
        min
    } else if val > max {
        max
    } else {
        val
    }
}

/// Returns the smaller of two values.
pub fn min(a: i64, b: i64) -> (r: i64)
    ensures
        r == spec_min(a as int, b as int),
{
    if a < b {
        a
    } else {
        b
    }
}

/// Returns the larger of two values.
pub fn max(a: i64, b: i64) -> (r: i64)
    ensures
        r == spec_max(a as int, b as int),
{
    if a > b {
        a
    } else {
        b
    }
}

/// Floor division, correct for negative dividends as well (mathematical
/// division rounding toward minus infinity).
pub fn floor_div(a: i64, b: i64) -> (r: i64)
    requires
        0 < b,
        i64::MIN + b < a,
    ensures
        r == a as int / (b as int),
{
    if a >= 0 {
        a / b
    } else {
        let r = -((-a + (b - 1)) / b);
        proof {
            let q = a as int / (b as int);
            let m = a as int % (b as int);
            lemma_fundamental_div_mod(a as int, b as int);
            assert((b as int) * (-q) == -((b as int) * q)) by (nonlinear_arith);
            assert(-(a as int) + (b - 1) == (b as int) * (-q) + (b - 1 - m));
            lemma_fundamental_div_mod_converse(
                -(a as int) + (b - 1),
                b as int,
                -q,
                b - 1 - m,
            );
        }
        r
    }
}

/// Mathematical integer square root, defined by counting up.
pub open spec fn spec_isqrt(n: int) -> int
    decreases n,
{
    if n <= 0 {
        0
    } else {
        let r = spec_isqrt(n - 1);
        if (r + 1) * (r + 1) <= n {
            r + 1
        } else {
            r
        }
    }
}

/// `spec_isqrt(n)` is the unique nonnegative integer whose square brackets
/// `n`.
pub proof fn lemma_isqrt_bounds(n: int)
    requires
        0 <= n,
    ensures
        0 <= spec_isqrt(n),
        spec_isqrt(n) * spec_isqrt(n) <= n,
        n < (spec_isqrt(n) + 1) * (spec_isqrt(n) + 1),
    decreases n,
{
    if n > 0 {
        lemma_isqrt_bounds(n - 1);
        let r = spec_isqrt(n - 1);
        if (r + 1) * (r + 1) <= n {
            assert(n < ((r + 1) + 1) * ((r + 1) + 1)) by (nonlinear_arith)
                requires
                    n - 1 < (r + 1) * (r + 1),
                    0 <= r,
            ;
        }
    }
}

/// Any integer satisfying the square bracketing equals `spec_isqrt(n)`.
pub proof fn lemma_isqrt_unique(n: int, r: int)
    requires
        0 <= n,
        0 <= r,
        r * r <= n,
        n < (r + 1) * (r + 1),
    ensures
        r == spec_isqrt(n),
{
    lemma_isqrt_bounds(n);
    let s = spec_isqrt(n);
    assert(r == s) by (nonlinear_arith)
        requires
            0 <= r,
            0 <= s,
            r * r <= n,
            n < (r + 1) * (r + 1),
            s * s <= n,
            n < (s + 1) * (s + 1),
    ;
}

/// The largest integer whose square does not exceed `n`, for `n` up to
/// `2^63`.
pub fn isqrt(n: u64) -> (r: u64)
    requires
        n <= 0x8000_0000_0000_0000,
    ensures
        r * r <= n,
        n < (r + 1) * (r + 1),
        r <= 0xFFFF_FFFF,
{
    if n == 0 {
        return 0;
    }
    let mut lo: u64 = 0;
    let mut hi: u64 = 0xFFFF_FFFF;
    proof {
        assert((0xFFFF_FFFF as int) * (0xFFFF_FFFF as int) == 0xFFFF_FFFE_0000_0001 as int)
            by (nonlinear_arith);
    }
    while lo + 1 < hi
        invariant
            lo < hi <= 0xFFFF_FFFF,
            lo * lo <= n,
            n < hi * hi,
        decreases hi - lo,
    {
        let mid: u64 = lo + (hi - lo) / 2;
        proof {
            assert(mid * mid <= 0xFFFF_FFFE_0000_0001) by (nonlinear_arith)
                requires
                    mid <= 0xFFFF_FFFF,
            ;
        }
        if mid * mid <= n {
            lo = mid;
        } else {
            hi = mid;
        }
    }
    lo
}

} // verus!
