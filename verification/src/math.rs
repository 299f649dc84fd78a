//! Fixed-point scalar arithmetic: constants, clamping, truncating division
//! and a rounded-up integer square root.

use vstd::prelude::*;

verus! {

use vstd::arithmetic::div_mod::lemma_fundamental_div_mod;
use vstd::arithmetic::div_mod::lemma_mod_division_less_than_divisor;

/// Fixed-point one: 1.0 is represented by this many micro-units.
pub const UNIT: i64 = 1_000_000;

/// pi/2 in micro-radians, the inclusive pitch bound.
pub const HALF_PI: i64 = 1_570_796;

/// Rotation sensitivity: micro-radians of turn per raw device count.
pub const ROT_SENS: i64 = 1_000;

/// Largest raw rotation delta accepted per tick; larger inputs are clamped.
pub const ROT_DELTA_MAX: i64 = 1_000_000_000_000;

/// Yaw saturates at this magnitude (micro-radians), far beyond any use.
pub const YAW_LIMIT: i64 = 4_000_000_000_000_000_000;

/// Largest elapsed time accepted per tick, in micro-seconds.
pub const DT_MAX: i64 = 1_000_000_000;

/// Positions saturate at this magnitude per component, in micro-units.
pub const POS_LIMIT: i64 = 1_000_000_000_000_000;

/// Largest vector component magnitude `Vec3::normalize_or_zero` accepts.
pub const COMB_MAX: i64 = 3_000_000_000_000;

/// `v` pushed into `[lo, hi]`.
pub open spec fn clamp_spec(v: int, lo: int, hi: int) -> int {
    if v < lo {
        lo
    } else if v > hi {
        hi
    } else {
        v
    }
}

/// Quotient of `a` by `b` rounded toward zero.
pub open spec fn div_toward_zero(a: int, b: int) -> int {
    if a >= 0 {
        a / b
    } else {
        -((-a) / b)
    }
}

/// `r` is the square root of `n` rounded up.
pub open spec fn is_sqrt_up(n: int, r: int) -> bool {
    0 <= r && n <= r * r && (r == 0 || (r - 1) * (r - 1) < n)
}

/// The square root of `n` rounded up (well defined for `n >= 0` by
/// `lemma_sqrt_up_exists` and `lemma_sqrt_up_is`).
pub open spec fn sqrt_up(n: int) -> int {
    choose|r: int| is_sqrt_up(n, r)
}

/// A rounded-up square root exists for every nonnegative integer.
pub proof fn lemma_sqrt_up_exists(n: int)
    requires
        n >= 0,
    ensures
        is_sqrt_up(n, sqrt_up(n)),
    decreases n,
{
    if n == 0 {
        assert(is_sqrt_up(0, 0));
    } else {
        lemma_sqrt_up_exists(n - 1);
        let s = sqrt_up(n - 1);
        if s * s >= n {
            assert(is_sqrt_up(n, s));
        } else {
            assert(s * s == n - 1);
            assert((s + 1 - 1) * (s + 1 - 1) < n);
            assert(n <= (s + 1) * (s + 1)) by (nonlinear_arith)
                requires
                    s >= 0,
                    s * s == n - 1,
            ;
            assert(is_sqrt_up(n, s + 1));
        }
    }
}

/// The rounded-up square root is unique.
pub proof fn lemma_sqrt_up_is(n: int, r: int)
    requires
        is_sqrt_up(n, r),
    ensures
        sqrt_up(n) == r,
{
    assert(exists|w: int| is_sqrt_up(n, w));
    let s = sqrt_up(n);
    assert(is_sqrt_up(n, s));
    if s < r {
        assert(s * s <= (r - 1) * (r - 1)) by (nonlinear_arith)
            requires
                0 <= s <= r - 1,
        ;
        assert(false);
    }
    if r < s {
        assert(r * r <= (s - 1) * (s - 1)) by (nonlinear_arith)
            requires
                0 <= r <= s - 1,
        ;
        assert(false);
    }
}

/// `v` pushed into `[lo, hi]`.
pub fn clamp64(v: i64, lo: i64, hi: i64) -> (r: i64)
    requires
        lo <= hi,
    ensures
        r == clamp_spec(v as int, lo as int, hi as int),
{
    if v < lo {
        lo
    } else if v > hi {
        hi
    } else {
        v
    }
}

/// Truncating division of `a` by a positive `b`; the quotient never exceeds
/// `a` in magnitude.
pub fn div_trunc64(a: i64, b: i64) -> (r: i64)
    requires
        b >= 1,
        a > i64::MIN,
    ensures
        r == div_toward_zero(a as int, b as int),
        a >= 0 ==> 0 <= r <= a,
        a < 0 ==> a <= r <= 0,
{
    proof {
        lemma_div_magnitude(if a >= 0 { a as int } else { -(a as int) }, b as int);
    }
    if a >= 0 {
        let q: u64 = (a as u64) / (b as u64);
        q as i64
    } else {
        let m: i64 = -a;
        let q: u64 = (m as u64) / (b as u64);
        -(q as i64)
    }
}

/// For nonnegative `a` and positive `b`, the quotient lies in `[0, a]`.
proof fn lemma_div_magnitude(a: int, b: int)
    requires
        a >= 0,
        b >= 1,
    ensures
        0 <= a / b <= a,
{
    lemma_fundamental_div_mod(a, b);
    lemma_mod_division_less_than_divisor(a, b);
    assert(0 <= a / b <= a) by (nonlinear_arith)
        requires
            a == b * (a / b) + (a % b),
            0 <= a % b < b,
            a >= 0,
            b >= 1,
    ;
}

/// Dividing `a <= s * u` by `s` stays at or below `u`.
pub proof fn lemma_div_le_factor(a: int, s: int, u: int)
    requires
        0 <= a,
        1 <= s,
        0 <= u,
        a <= s * u,
    ensures
        0 <= a / s <= u,
{
    lemma_fundamental_div_mod(a, s);
    lemma_mod_division_less_than_divisor(a, s);
    assert(0 <= a / s <= u) by (nonlinear_arith)
        requires
            a == s * (a / s) + (a % s),
            0 <= a % s < s,
            0 <= a,
            1 <= s,
            0 <= u,
            a <= s * u,
    ;
}

/// A product of bounded factors is bounded by the product of the bounds.
pub proof fn lemma_mul_bound(a: int, b: int, ca: int, cb: int)
    by (nonlinear_arith)
    requires
        -ca <= a <= ca,
        -cb <= b <= cb,
    ensures
        -(ca * cb) <= a * b <= ca * cb,
{
}

/// Squares grow with magnitude: `|a| <= b` gives `a * a <= b * b`.
pub proof fn lemma_square_bound(a: int, b: int)
    by (nonlinear_arith)
    requires
        -b <= a <= b,
    ensures
        0 <= a * a <= b * b,
{
}

/// The square root of `n`, rounded up, computed by binary search.
pub fn isqrt_up(n: u128) -> (r: u64)
    requires
        n <= 27_000_000_000_000_000_000_000_000,
    ensures
        r as int == sqrt_up(n as int),
        is_sqrt_up(n as int, r as int),
        r <= 6_000_000_000_000,
{
    if n == 0 {
        proof {
            lemma_sqrt_up_is(0, 0);
        }
        return 0;
    }
    let mut lo: u64 = 0;
    let mut hi: u64 = 6_000_000_000_000;
    proof {
        assert((hi as int) * (hi as int) >= n as int) by (nonlinear_arith)
            requires
                hi == 6_000_000_000_000u64,
                n <= 27_000_000_000_000_000_000_000_000,
        ;
    }
    while hi - lo > 1
        invariant
            lo < hi <= 6_000_000_000_000,
            (lo as int) * (lo as int) < n as int,
            n as int <= (hi as int) * (hi as int),
            1 <= n,
        decreases hi - lo,
    {
        let mid: u64 = lo + (hi - lo) / 2;
        proof {
            assert((mid as int) * (mid as int) <= 36_000_000_000_000_000_000_000_000) by (nonlinear_arith)
                requires
                    mid <= 6_000_000_000_000,
            ;
        }
        let sq: u128 = (mid as u128) * (mid as u128);
        if sq >= n {
            hi = mid;
        } else {
            lo = mid;
        }
    }
    proof {
        assert(is_sqrt_up(n as int, hi as int));
        lemma_sqrt_up_is(n as int, hi as int);
    }
    hi
}

} // verus!
