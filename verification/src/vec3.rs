//! Fixed-point 3-D vectors and exact unit-length normalization.

use vstd::assert_by_contradiction;
use vstd::prelude::*;

verus! {

use vstd::arithmetic::div_mod::lemma_fundamental_div_mod;
use vstd::arithmetic::div_mod::lemma_mod_division_less_than_divisor;
use crate::math::COMB_MAX;
use crate::math::UNIT;
use crate::math::div_toward_zero;
use crate::math::div_trunc64;
use crate::math::is_sqrt_up;
use crate::math::isqrt_up;
use crate::math::lemma_div_le_factor;
use crate::math::lemma_sqrt_up_exists;
use crate::math::lemma_square_bound;
use crate::math::sqrt_up;

/// A vector of three fixed-point components (micro-units).
#[derive(Clone, Copy, Debug, PartialEq, Eq, Structural)]
pub struct Vec3 {
    pub x: i64,
    pub y: i64,
    pub z: i64,
}

impl Vec3 {
    /// The squared Euclidean length, exact.
    pub open spec fn norm_sq(self) -> int {
        self.x * self.x + self.y * self.y + self.z * self.z
    }

    /// Every component lies in `[-b, b]`.
    pub open spec fn in_box(self, b: int) -> bool {
        &&& -b <= self.x <= b
        &&& -b <= self.y <= b
        &&& -b <= self.z <= b
    }

    /// The all-zero vector.
    pub open spec fn zero_spec() -> Vec3 {
        Vec3 { x: 0, y: 0, z: 0 }
    }

    /// The all-zero vector.
    pub fn zero() -> (r: Vec3)
        ensures
            r == Vec3::zero_spec(),
    {
        Vec3 { x: 0, y: 0, z: 0 }
    }

    /// `self` scaled to (fixed-point) unit length, or zero if `self` is zero.
    pub fn normalize_or_zero(self) -> (r: Vec3)
        requires
            self.in_box(COMB_MAX as int),
        ensures
            r == unit_of(self),
    {
        proof {
            lemma_square_bound(self.x as int, COMB_MAX as int);
            lemma_square_bound(self.y as int, COMB_MAX as int);
            lemma_square_bound(self.z as int, COMB_MAX as int);
        }
        let xs: i128 = (self.x as i128) * (self.x as i128);
        let ys: i128 = (self.y as i128) * (self.y as i128);
        let zs: i128 = (self.z as i128) * (self.z as i128);
        let n: i128 = xs + ys + zs;
        if n == 0 {
            return Vec3 { x: 0, y: 0, z: 0 };
        }
        let s: u64 = isqrt_up(n as u128);
        proof {
            lemma_comp_le_sqrt(self.x as int, n as int, s as int);
            lemma_comp_le_sqrt(self.y as int, n as int, s as int);
            lemma_comp_le_sqrt(self.z as int, n as int, s as int);
        }
        let rx: i64 = div_trunc64(self.x * UNIT, s as i64);
        let ry: i64 = div_trunc64(self.y * UNIT, s as i64);
        let rz: i64 = div_trunc64(self.z * UNIT, s as i64);
        Vec3 { x: rx, y: ry, z: rz }
    }
}

/// One component of the normalized vector: `c` rescaled by `UNIT` over the
/// rounded-up root of the squared length `n`; zero when `n` is zero.
pub open spec fn normalized_comp(c: int, n: int) -> int {
    if n == 0 {
        0
    } else {
        div_toward_zero(c * (UNIT as int), sqrt_up(n))
    }
}

/// `v` scaled to unit length (rounded toward zero), or zero when `v` is zero.
pub open spec fn unit_of(v: Vec3) -> Vec3 {
    Vec3 {
        x: normalized_comp(v.x as int, v.norm_sq()) as i64,
        y: normalized_comp(v.y as int, v.norm_sq()) as i64,
        z: normalized_comp(v.z as int, v.norm_sq()) as i64,
    }
}

/// A zero squared length means every component is zero.
pub proof fn lemma_norm_sq_zero(v: Vec3)
    ensures
        v.norm_sq() == 0 <==> v == Vec3::zero_spec(),
{
    if v.norm_sq() == 0 {
        assert(v.x == 0 && v.y == 0 && v.z == 0) by (nonlinear_arith)
            requires
                v.x * v.x + v.y * v.y + v.z * v.z == 0,
        ;
    }
}

/// A component whose square is at most `n <= s * s` has magnitude at most
/// `s`, and `s` is positive when `n` is.
proof fn lemma_comp_le_sqrt(c: int, n: int, s: int)
    by (nonlinear_arith)
    requires
        c * c <= n,
        0 <= s,
        n <= s * s,
        n >= 1,
    ensures
        s >= 1,
        -s <= c <= s,
        c * (UNIT as int) <= s * (UNIT as int),
        -(s * (UNIT as int)) <= c * (UNIT as int),
{
}

/// Bounds for one normalized component `q`: it lies in `[-UNIT, UNIT]` and
/// `q^2 * s^2 <= c^2 * UNIT^2`.
proof fn lemma_normalized_comp_bounds(c: int, n: int, s: int)
    requires
        n >= 1,
        s == sqrt_up(n),
        is_sqrt_up(n, s),
        c * c <= n,
    ensures
        -(UNIT as int) <= normalized_comp(c, n) <= UNIT as int,
        normalized_comp(c, n) * normalized_comp(c, n) * (s * s) <= c * c * ((UNIT as int) * (UNIT
            as int)),
{
    lemma_comp_le_sqrt(c, n, s);
    let u = UNIT as int;
    let a = if c >= 0 {
        c * u
    } else {
        -(c * u)
    };
    assert(a >= 0 && a <= s * u) by (nonlinear_arith)
        requires
            -s <= c <= s,
            s >= 1,
            u == UNIT as int,
            a == if c >= 0 {
                c * u
            } else {
                -(c * u)
            },
    ;
    lemma_div_le_factor(a, s, u);
    let m = a / s;
    lemma_fundamental_div_mod(a, s);
    lemma_mod_division_less_than_divisor(a, s);
    assert(m * s <= a) by (nonlinear_arith)
        requires
            a == s * m + (a % s),
            0 <= a % s,
    ;
    let q = normalized_comp(c, n);
    assert(q == if c >= 0 {
        m
    } else {
        -m
    });
    assert(q * q * (s * s) <= c * c * (u * u)) by (nonlinear_arith)
        requires
            0 <= m,
            m * s <= a,
            s >= 1,
            u >= 1,
            a == if c >= 0 {
                c * u
            } else {
                -(c * u)
            },
            q == if c >= 0 {
                m
            } else {
                -m
            },
    ;
}

/// Normalization yields a vector with every component in `[-UNIT, UNIT]`
/// and squared length at most `UNIT * UNIT`; it is zero exactly when the
/// input is zero.
pub proof fn lemma_unit_of_props(v: Vec3)
    ensures
        unit_of(v).in_box(UNIT as int),
        unit_of(v).norm_sq() <= (UNIT as int) * (UNIT as int),
        (v == Vec3::zero_spec()) <==> (unit_of(v) == Vec3::zero_spec()),
{
    lemma_norm_sq_zero(v);
    lemma_square_bound(v.x as int, i64::MAX as int + 1);
    lemma_square_bound(v.y as int, i64::MAX as int + 1);
    lemma_square_bound(v.z as int, i64::MAX as int + 1);
    let n = v.norm_sq();
    if n == 0 {
        assert(unit_of(v) == Vec3::zero_spec());
    } else {
        assert(n >= 1);
        lemma_sqrt_up_exists(n);
        let s = sqrt_up(n);
        lemma_normalized_comp_bounds(v.x as int, n, s);
        lemma_normalized_comp_bounds(v.y as int, n, s);
        lemma_normalized_comp_bounds(v.z as int, n, s);
        let qx = normalized_comp(v.x as int, n);
        let qy = normalized_comp(v.y as int, n);
        let qz = normalized_comp(v.z as int, n);
        lemma_comp_le_sqrt(v.x as int, n, s);
        assert(unit_of(v).x == qx && unit_of(v).y == qy && unit_of(v).z == qz);
        assert((qx * qx + qy * qy + qz * qz) * (s * s) <= (v.x * v.x + v.y * v.y + v.z * v.z) * ((
        UNIT as int) * (UNIT as int))) by (nonlinear_arith)
            requires
                qx * qx * (s * s) <= v.x * v.x * ((UNIT as int) * (UNIT as int)),
                qy * qy * (s * s) <= v.y * v.y * ((UNIT as int) * (UNIT as int)),
                qz * qz * (s * s) <= v.z * v.z * ((UNIT as int) * (UNIT as int)),
        ;
        assert(qx * qx + qy * qy + qz * qz <= (UNIT as int) * (UNIT as int)) by (nonlinear_arith)
            requires
                (qx * qx + qy * qy + qz * qz) * (s * s) <= (v.x * v.x + v.y * v.y + v.z * v.z) * ((
                UNIT as int) * (UNIT as int)),
                v.x * v.x + v.y * v.y + v.z * v.z <= s * s,
                s >= 1,
        ;
        lemma_unit_of_keeps_largest(v, s);
    }
}

/// If the input is non-zero, its largest component survives normalization,
/// so the normalized vector cannot be zero.
proof fn lemma_unit_of_keeps_largest(v: Vec3, s: int)
    requires
        v.norm_sq() >= 1,
        s == sqrt_up(v.norm_sq()),
        is_sqrt_up(v.norm_sq(), s),
    ensures
        unit_of(v) != Vec3::zero_spec(),
{
    let n = v.norm_sq();
    let u = UNIT as int;
    lemma_square_bound(v.x as int, i64::MAX as int + 1);
    lemma_square_bound(v.y as int, i64::MAX as int + 1);
    lemma_square_bound(v.z as int, i64::MAX as int + 1);
    let c = if v.x * v.x >= v.y * v.y && v.x * v.x >= v.z * v.z {
        v.x as int
    } else if v.y * v.y >= v.z * v.z {
        v.y as int
    } else {
        v.z as int
    };
    assert(n <= 3 * (c * c));
    assert(c * c <= n);
    assert(c != 0) by (nonlinear_arith)
        requires
            n <= 3 * (c * c),
            n >= 1,
    ;
    lemma_normalized_comp_bounds(c, n, s);
    lemma_comp_le_sqrt(c, n, s);
    let q = normalized_comp(c, n);
    assert_by_contradiction!(q != 0, {
        let a = if c >= 0 {
            c * u
        } else {
            -(c * u)
        };
        assert(a >= 0);
        assert(a / s == 0);
        lemma_fundamental_div_mod(a, s);
        lemma_mod_division_less_than_divisor(a, s);
        assert(a <= s - 1);
        assert(a * a < n) by (nonlinear_arith)
            requires
                0 <= a,
                a <= s - 1,
                (s - 1) * (s - 1) < n,
        ;
        assert(a * a == (c * c) * (u * u)) by (nonlinear_arith)
            requires
                a == if c >= 0 {
                    c * u
                } else {
                    -(c * u)
                },
        ;
        assert((c * c) * (u * u) >= n) by (nonlinear_arith)
            requires
                n <= 3 * (c * c),
                c != 0,
                u == UNIT as int,
        ;
    });
    assert(unit_of(v) != Vec3::zero_spec());
}

} // verus!
