//! Square and cube roots of fixed-point numbers, rounded down to the nearest
//! representable value.

use crate::fixed::{Fixed, ONE_RAW};
use vstd::prelude::*;

verus! {

/// `r` is the square root of `n`, rounded down.
pub open spec fn is_floor_sqrt(n: int, r: int) -> bool {
    0 <= r && r * r <= n < (r + 1) * (r + 1)
}

/// `r` is the cube root of `n`, rounded down.
pub open spec fn is_floor_cbrt(n: int, r: int) -> bool {
    0 <= r && r * r * r <= n < (r + 1) * (r + 1) * (r + 1)
}

/// The square root of `n`, rounded down.
pub open spec fn floor_sqrt(n: int) -> int {
    choose|r: int| is_floor_sqrt(n, r)
}

/// The cube root of `n`, rounded down.
pub open spec fn floor_cbrt(n: int) -> int {
    choose|r: int| is_floor_cbrt(n, r)
}

/// Squaring is monotone on the non-negative integers.
proof fn lemma_square_monotone(a: int, b: int)
    requires
        0 <= a <= b,
    ensures
        a * a <= b * b,
{
    assert(a * a <= b * b) by (nonlinear_arith)
        requires
            0 <= a <= b,
    ;
}

/// Cubing is monotone on the non-negative integers.
proof fn lemma_cube_monotone(a: int, b: int)
    requires
        0 <= a <= b,
    ensures
        a * a * a <= b * b * b,
{
    lemma_square_monotone(a, b);
    assert(a * a * a <= b * b * b) by (nonlinear_arith)
        requires
            0 <= a <= b,
            a * a <= b * b,
    ;
}

/// A number has at most one rounded-down square root: whatever meets
/// `is_floor_sqrt` is `floor_sqrt`.
pub proof fn lemma_floor_sqrt_is(n: int, r: int)
    requires
        is_floor_sqrt(n, r),
    ensures
        floor_sqrt(n) == r,
{
    let c = floor_sqrt(n);
    assert(is_floor_sqrt(n, c));
    if c < r {
        lemma_square_monotone(c + 1, r);
    }
    if r < c {
        lemma_square_monotone(r + 1, c);
    }
}

/// A number has at most one rounded-down cube root: whatever meets
/// `is_floor_cbrt` is `floor_cbrt`.
pub proof fn lemma_floor_cbrt_is(n: int, r: int)
    requires
        is_floor_cbrt(n, r),
    ensures
        floor_cbrt(n) == r,
{
    let c = floor_cbrt(n);
    assert(is_floor_cbrt(n, c));
    if c < r {
        lemma_cube_monotone(c + 1, r);
    }
    if r < c {
        lemma_cube_monotone(r + 1, c);
    }
}

/// Every number that is not negative has a rounded-down square root.
pub proof fn lemma_floor_sqrt_exists(n: int)
    requires
        n >= 0,
    ensures
        is_floor_sqrt(n, floor_sqrt(n)),
    decreases n,
{
    if n == 0 {
        assert(is_floor_sqrt(0, 0));
    } else {
        lemma_floor_sqrt_exists(n - 1);
        let r = floor_sqrt(n - 1);
        if n < (r + 1) * (r + 1) {
            assert(is_floor_sqrt(n, r));
        } else {
            assert((r + 1) * (r + 1) < (r + 2) * (r + 2)) by (nonlinear_arith)
                requires
                    r >= 0,
            ;
            assert(is_floor_sqrt(n, r + 1));
        }
    }
}

/// The square root of a number below the square of `h`, where `h` is not
/// negative, lies between zero and `h`.
pub proof fn lemma_sqrt_bounded(x: Fixed, h: Fixed)
    requires
        h.raw >= 0,
        x.spec_lt(h.spec_squared()),
    ensures
        0 <= x.spec_sqrt().raw <= h.raw,
{
    if x.raw > 0 {
        let n = x.raw as int * ONE_RAW as int;
        let hh = h.raw as int * h.raw as int;
        lemma_floor_sqrt_exists(n);
        let r = floor_sqrt(n);
        assert(hh >= 0) by (nonlinear_arith)
            requires
                hh == h.raw as int * h.raw as int,
        ;
        assert(x.raw < hh / (ONE_RAW as int));
        assert(n + ONE_RAW <= hh);
        if r >= h.raw {
            lemma_square_monotone(h.raw as int, r);
        }
    }
}

/// Every number that is not negative has a rounded-down cube root.
pub proof fn lemma_floor_cbrt_exists(n: int)
    requires
        n >= 0,
    ensures
        is_floor_cbrt(n, floor_cbrt(n)),
    decreases n,
{
    if n == 0 {
        assert(is_floor_cbrt(0, 0));
    } else {
        lemma_floor_cbrt_exists(n - 1);
        let r = floor_cbrt(n - 1);
        if n < (r + 1) * (r + 1) * (r + 1) {
            assert(is_floor_cbrt(n, r));
        } else {
            assert((r + 1) * (r + 1) * (r + 1) < (r + 2) * (r + 2) * (r + 2)) by (nonlinear_arith)
                requires
                    r >= 0,
            ;
            assert(is_floor_cbrt(n, r + 1));
        }
    }
}

/// The cube root of a positive number is positive.
pub proof fn lemma_cbrt_positive(x: Fixed)
    requires
        x.raw > 0,
    ensures
        x.spec_cbrt().raw > 0,
{
    let n = x.raw as int * ONE_RAW as int * ONE_RAW as int;
    lemma_floor_cbrt_exists(n);
    let r = floor_cbrt(n);
    if r >= 0x800_0000_0000 {
        lemma_cube_monotone(0x800_0000_0000, r);
    }
}

/// The square root of `n`, rounded down, by bisection.
fn floor_sqrt_wide(n: u128) -> (r: u128)
    requires
        n < 0x8000_0000_0000_0000_0000_0000,
    ensures
        is_floor_sqrt(n as int, r as int),
        r < 0x1_0000_0000_0000,
{
    let mut lo: u128 = 0;
    let mut hi: u128 = 0x1_0000_0000_0000;
    assert(0x1_0000_0000_0000int * 0x1_0000_0000_0000int > n) by (nonlinear_arith)
        requires
            n < 0x8000_0000_0000_0000_0000_0000,
    ;
    while hi - lo > 1
        invariant
            lo < hi <= 0x1_0000_0000_0000,
            lo * lo <= n < hi * hi,
        decreases hi - lo,
    {
        let mid: u128 = lo + (hi - lo) / 2;
        assert(mid * mid < 0x1_0000_0000_0000_0000_0000_0000) by (nonlinear_arith)
            requires
                mid < 0x1_0000_0000_0000,
        ;
        if mid * mid <= n {
            lo = mid;
        } else {
            hi = mid;
        }
    }
    lo
}

/// The cube root of `n`, rounded down, by bisection.
fn floor_cbrt_wide(n: u128) -> (r: u128)
    requires
        n < 0x8000_0000_0000_0000_0000_0000_0000_0000,
    ensures
        is_floor_cbrt(n as int, r as int),
        r < 6_000_000_000_000,
{
    let mut lo: u128 = 0;
    let mut hi: u128 = 6_000_000_000_000;
    assert(6_000_000_000_000int * 6_000_000_000_000int * 6_000_000_000_000int > n)
        by (nonlinear_arith)
        requires
            n < 0x8000_0000_0000_0000_0000_0000_0000_0000,
    ;
    while hi - lo > 1
        invariant
            lo < hi <= 6_000_000_000_000,
            lo * lo * lo <= n < hi * hi * hi,
        decreases hi - lo,
    {
        let mid: u128 = lo + (hi - lo) / 2;
        assert(mid * mid < 36_000_000_000_000_000_000_000_000 && mid * mid * mid
            < 216_000_000_000_000_000_000_000_000_000_000_000_000) by (nonlinear_arith)
            requires
                mid < 6_000_000_000_000,
        ;
        if mid * mid * mid <= n {
            lo = mid;
        } else {
            hi = mid;
        }
    }
    lo
}

impl Fixed {
    /// The square root, rounded down; zero for a number that is not positive.
    pub open spec fn spec_sqrt(self) -> Fixed {
        if self.raw <= 0 {
            Fixed { raw: 0 }
        } else {
            Fixed { raw: floor_sqrt(self.raw as int * ONE_RAW as int) as i64 }
        }
    }

    /// The cube root, rounded down; zero for a number that is not positive.
    pub open spec fn spec_cbrt(self) -> Fixed {
        if self.raw <= 0 {
            Fixed { raw: 0 }
        } else {
            Fixed {
                raw: floor_cbrt(self.raw as int * ONE_RAW as int * ONE_RAW as int) as i64,
            }
        }
    }

    /// The square root, rounded down to the nearest representable value; zero
    /// for a number that is not positive.
    pub fn sqrt(self) -> (r: Fixed)
        ensures
            r == self.spec_sqrt(),
            r.raw >= 0,
            self.raw > 0 ==> is_floor_sqrt(self.raw as int * ONE_RAW as int, r.raw as int),
    {
        if self.raw <= 0 {
            Fixed { raw: 0 }
        } else {
            let n: u128 = (self.raw as u128) * 0x1_0000_0000u128;
            let root: u128 = floor_sqrt_wide(n);
            proof {
                lemma_floor_sqrt_is(n as int, root as int);
            }
            Fixed { raw: root as i64 }
        }
    }

    /// The cube root, rounded down to the nearest representable value; zero
    /// for a number that is not positive.
    pub fn cbrt(self) -> (r: Fixed)
        ensures
            r == self.spec_cbrt(),
            r.raw >= 0,
            self.raw > 0 ==> is_floor_cbrt(
                self.raw as int * ONE_RAW as int * ONE_RAW as int,
                r.raw as int,
            ),
    {
        if self.raw <= 0 {
            Fixed { raw: 0 }
        } else {
            let n: u128 = (self.raw as u128) * 0x1_0000_0000_0000_0000u128;
            let root: u128 = floor_cbrt_wide(n);
            proof {
                lemma_floor_cbrt_is(n as int, root as int);
            }
            Fixed { raw: root as i64 }
        }
    }
}

} // verus!
