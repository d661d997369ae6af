//! Integer square and cube roots, rounded down.

use vstd::prelude::*;

verus! {

/// `r` is the square root of `n` rounded down: the largest whole number
/// whose square does not exceed `n`.
pub open spec fn is_floor_sqrt(n: int, r: int) -> bool {
    0 <= r && r * r <= n && n < (r + 1) * (r + 1)
}

/// `r` is the cube root of `n` rounded down: the largest whole number whose
/// cube does not exceed `n`.
pub open spec fn is_floor_cbrt(n: int, r: int) -> bool {
    0 <= r && r * r * r <= n && n < (r + 1) * (r + 1) * (r + 1)
}

/// The square root of `n`, rounded down.
pub open spec fn floor_sqrt(n: int) -> int {
    choose|r: int| is_floor_sqrt(n, r)
}

/// The cube root of `n`, rounded down.
pub open spec fn floor_cbrt(n: int) -> int {
    choose|r: int| is_floor_cbrt(n, r)
}

/// Squaring keeps the order of non-negative numbers.
pub proof fn lemma_square_increases(a: int, b: int)
    requires
        0 <= a <= b,
    ensures
        a * a <= b * b,
{
    assert(a * a <= b * b) by (nonlinear_arith)
        requires
            0 <= a <= b,
    ;
}

/// Cubing keeps the order of non-negative numbers.
pub proof fn lemma_cube_increases(a: int, b: int)
    requires
        0 <= a <= b,
    ensures
        a * a * a <= b * b * b,
{
    lemma_square_increases(a, b);
    assert(a * a * a <= b * b * b) by (nonlinear_arith)
        requires
            0 <= a <= b,
            a * a <= b * b,
    ;
}

/// A number has at most one rounded-down square root.
pub proof fn lemma_floor_sqrt_unique(n: int, r: int, s: int)
    requires
        is_floor_sqrt(n, r),
        is_floor_sqrt(n, s),
    ensures
        r == s,
{
    if r < s {
        lemma_square_increases(r + 1, s);
    } else if s < r {
        lemma_square_increases(s + 1, r);
    }
}

/// A number has at most one rounded-down cube root.
pub proof fn lemma_floor_cbrt_unique(n: int, r: int, s: int)
    requires
        is_floor_cbrt(n, r),
        is_floor_cbrt(n, s),
    ensures
        r == s,
{
    if r < s {
        lemma_cube_increases(r + 1, s);
    } else if s < r {
        lemma_cube_increases(s + 1, r);
    }
}

/// Every non-negative number has a rounded-down square root, and
/// `floor_sqrt` is it.
pub proof fn lemma_floor_sqrt_exists(n: int)
    requires
        0 <= n,
    ensures
        is_floor_sqrt(n, floor_sqrt(n)),
    decreases n,
{
    if n == 0 {
        assert(is_floor_sqrt(0, 0));
    } else {
        lemma_floor_sqrt_exists(n - 1);
        let r = floor_sqrt(n - 1);
        if n < (r + 1) * (r + 1) {
            assert(is_floor_sqrt(n, r));
        } else {
            assert((r + 1) * (r + 1) < (r + 2) * (r + 2)) by (nonlinear_arith)
                requires
                    0 <= r,
            ;
            assert(is_floor_sqrt(n, r + 1));
        }
    }
}

/// Every non-negative number has a rounded-down cube root, and `floor_cbrt`
/// is it.
pub proof fn lemma_floor_cbrt_exists(n: int)
    requires
        0 <= n,
    ensures
        is_floor_cbrt(n, floor_cbrt(n)),
    decreases n,
{
    if n == 0 {
        assert(is_floor_cbrt(0, 0));
    } else {
        lemma_floor_cbrt_exists(n - 1);
        let r = floor_cbrt(n - 1);
        if n < (r + 1) * (r + 1) * (r + 1) {
            assert(is_floor_cbrt(n, r));
        } else {
            assert((r + 1) * (r + 1) * (r + 1) < (r + 2) * (r + 2) * (r + 2)) by (nonlinear_arith)
                requires
                    0 <= r,
            ;
            assert(is_floor_cbrt(n, r + 1));
        }
    }
}

/// The square root of `n`, rounded down, found by bisection.
pub fn isqrt(n: u128) -> (r: u64)
    ensures
        is_floor_sqrt(n as int, r as int),
        r == floor_sqrt(n as int),
{
    let mut lo: u128 = 0;
    let mut hi: u128 = 0x1_0000_0000_0000_0000;
    assert(n < hi * hi) by (nonlinear_arith)
        requires
            hi == 0x1_0000_0000_0000_0000,
            n <= u128::MAX,
    ;
    while hi - lo > 1
        invariant
            lo < hi <= 0x1_0000_0000_0000_0000,
            lo * lo <= n < hi * hi,
        decreases hi - lo,
    {
        let mid: u128 = lo + (hi - lo) / 2;
        assert(mid * mid <= u128::MAX) by (nonlinear_arith)
            requires
                0 <= mid <= 0xffff_ffff_ffff_ffff,
        ;
        if mid * mid <= n {
            lo = mid;
        } else {
            hi = mid;
        }
    }
    proof {
        lemma_floor_sqrt_unique(n as int, lo as int, floor_sqrt(n as int));
    }
    lo as u64
}

/// The cube root of `n`, rounded down, found by bisection.
pub fn icbrt(n: u128) -> (r: u64)
    ensures
        is_floor_cbrt(n as int, r as int),
        r == floor_cbrt(n as int),
{
    let mut lo: u128 = 0;
    let mut hi: u128 = 6_981_463_658_332;
    assert(n < hi * hi * hi) by (nonlinear_arith)
        requires
            hi == 6_981_463_658_332,
            n <= u128::MAX,
    ;
    while hi - lo > 1
        invariant
            lo < hi <= 6_981_463_658_332,
            lo * lo * lo <= n < hi * hi * hi,
        decreases hi - lo,
    {
        let mid: u128 = lo + (hi - lo) / 2;
        assert(mid * mid <= 6_981_463_658_331 * 6_981_463_658_331 && mid * mid * mid
            <= u128::MAX) by (nonlinear_arith)
            requires
                0 <= mid <= 6_981_463_658_331,
        ;
        if mid * mid * mid <= n {
            lo = mid;
        } else {
            hi = mid;
        }
    }
    proof {
        lemma_floor_cbrt_unique(n as int, lo as int, floor_cbrt(n as int));
    }
    lo as u64
}

} // verus!
