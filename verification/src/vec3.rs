//! Fixed-point 3D vectors and the exact integer geometry the flocking rules
//! rely on: truncating division, integer square roots, distances,
//! normalization, linear interpolation and magnitude clamping.

use vstd::prelude::*;
use vstd::arithmetic::div_mod::{lemma_div_is_ordered, lemma_div_multiples_vanish, lemma_div_pos_is_pos};

verus! {

/// One world unit expressed in milli-units: all coordinates, distances and
/// fixed-point fractions are scaled by this factor.
pub const SCALE: i64 = 1000;

/// Largest coordinate magnitude (in milli-units) the simulation admits; it
/// leaves every intermediate product of the rule pipeline far from overflow.
pub const MAX_COORD: i64 = 1_000_000_000;

/// A 3D vector in milli-units.
#[derive(Clone, Copy, Debug, PartialEq, Eq, Structural)]
pub struct Vec3 {
    pub x: i64,
    pub y: i64,
    pub z: i64,
}

/// The mathematical model of a vector: the same three coordinates as
/// unbounded integers.
pub struct V3 {
    pub x: int,
    pub y: int,
    pub z: int,
}

impl View for Vec3 {
    type V = V3;

    open spec fn view(&self) -> V3 {
        V3 { x: self.x as int, y: self.y as int, z: self.z as int }
    }
}

/// The magnitude of an integer.
pub open spec fn mag(a: int) -> int {
    if a >= 0 {
        a
    } else {
        -a
    }
}

/// Every coordinate of `v` has magnitude at most `m`.
pub open spec fn in_range(v: V3, m: int) -> bool {
    mag(v.x) <= m && mag(v.y) <= m && mag(v.z) <= m
}

/// Truncating division (toward zero, as Rust's `/`) of `a` by a positive `b`.
pub open spec fn div_t(a: int, b: int) -> int {
    if a >= 0 {
        a / b
    } else {
        -((-a) / b)
    }
}

/// `r` is the integer square root of `n`.
pub open spec fn is_isqrt(n: int, r: int) -> bool {
    0 <= r && r * r <= n && n < (r + 1) * (r + 1)
}

/// The integer square root: the greatest `r` with `r * r <= n`.
pub open spec fn isqrt(n: int) -> int {
    choose|r: int| is_isqrt(n, r)
}

pub open spec fn v_zero() -> V3 {
    V3 { x: 0, y: 0, z: 0 }
}

pub open spec fn v_add(a: V3, b: V3) -> V3 {
    V3 { x: a.x + b.x, y: a.y + b.y, z: a.z + b.z }
}

pub open spec fn v_sub(a: V3, b: V3) -> V3 {
    V3 { x: a.x - b.x, y: a.y - b.y, z: a.z - b.z }
}

/// The squared Euclidean length, exact.
pub open spec fn sq_len(v: V3) -> int {
    v.x * v.x + v.y * v.y + v.z * v.z
}

/// The Euclidean length rounded down to an integer.
pub open spec fn norm(v: V3) -> int {
    isqrt(sq_len(v))
}

/// The distance between two points, rounded down to an integer.
pub open spec fn dist(a: V3, b: V3) -> int {
    norm(v_sub(a, b))
}

/// Divides every coordinate by a positive `k`, truncating toward zero.
pub open spec fn v_div(v: V3, k: int) -> V3 {
    V3 { x: div_t(v.x, k), y: div_t(v.y, k), z: div_t(v.z, k) }
}

/// Multiplies every coordinate by `m`, then divides by a positive `d`,
/// truncating toward zero.
pub open spec fn v_scale_div(v: V3, m: int, d: int) -> V3 {
    V3 { x: div_t(v.x * m, d), y: div_t(v.y * m, d), z: div_t(v.z * m, d) }
}

/// The unit vector of `v` in fixed point: each coordinate of a nonzero `v` is
/// scaled by `SCALE / |v|`, so the result has length close to `SCALE`.  The
/// zero vector has no direction and is left as zero.
pub open spec fn v_unit(v: V3) -> V3 {
    if sq_len(v) == 0 {
        v_zero()
    } else {
        v_scale_div(v, SCALE as int, norm(v))
    }
}

/// Linear interpolation from `a` (at `t == 0`) to `b` (at `t == SCALE`).
pub open spec fn v_lerp(a: V3, b: V3, t: int) -> V3 {
    v_add(a, v_scale_div(v_sub(b, a), t, SCALE as int))
}

/// Caps the length of `v` at `limit`: a vector within the cap is unchanged,
/// a longer one is rescaled by `limit / (|v| + 1)` — direction-preserving up
/// to the truncation of each coordinate toward zero — which brings its
/// length to at most the cap.
pub open spec fn v_clamp(v: V3, limit: int) -> V3 {
    if sq_len(v) <= limit * limit {
        v
    } else {
        v_scale_div(v, limit, norm(v) + 1)
    }
}

/// The product of two magnitude bounds is a magnitude bound of the product.
pub proof fn lemma_mul_mag(a: int, am: int, b: int, bm: int)
    by (nonlinear_arith)
    requires
        mag(a) <= am,
        mag(b) <= bm,
    ensures
        mag(a * b) <= am * bm,
{
}

/// Squaring preserves order on the nonnegative integers.
pub proof fn lemma_sq_mono(a: int, b: int)
    by (nonlinear_arith)
    requires
        0 <= a <= b,
    ensures
        a * a <= b * b,
{
}

/// A square is nonnegative.
pub proof fn lemma_sq_nonneg(a: int)
    by (nonlinear_arith)
    ensures
        a * a >= 0,
        a * a >= mag(a),
{
}

/// A squared length is nonnegative.
pub proof fn lemma_sq_len_nonneg(v: V3)
    ensures
        sq_len(v) >= 0,
{
    lemma_sq_nonneg(v.x);
    lemma_sq_nonneg(v.y);
    lemma_sq_nonneg(v.z);
}

/// Every nonnegative integer has an integer square root.
pub proof fn lemma_isqrt_exists(n: int)
    requires
        n >= 0,
    ensures
        is_isqrt(n, isqrt(n)),
    decreases n,
{
    if n == 0 {
        assert(is_isqrt(0, 0));
    } else {
        lemma_isqrt_exists(n - 1);
        let r = isqrt(n - 1);
        if (r + 1) * (r + 1) <= n {
            assert(is_isqrt(n, r + 1)) by (nonlinear_arith)
                requires
                    is_isqrt(n - 1, r),
                    (r + 1) * (r + 1) <= n,
            {
            }
        } else {
            assert(is_isqrt(n, r));
        }
    }
}

/// The integer square root is unique.
pub proof fn lemma_isqrt_eq(n: int, r: int)
    requires
        is_isqrt(n, r),
    ensures
        isqrt(n) == r,
{
    lemma_sq_nonneg(r);
    lemma_isqrt_exists(n);
    let q = isqrt(n);
    if q < r {
        lemma_sq_mono(q + 1, r);
    }
    if r < q {
        lemma_sq_mono(r + 1, q);
    }
}

/// An integer square root is bounded by any `b` whose successor's square
/// exceeds `n`.
pub proof fn lemma_isqrt_le(n: int, b: int)
    requires
        0 <= n,
        0 <= b,
        n < (b + 1) * (b + 1),
    ensures
        isqrt(n) <= b,
{
    lemma_isqrt_exists(n);
    let q = isqrt(n);
    if q > b {
        lemma_sq_mono(b + 1, q);
    }
}

/// No coordinate's magnitude exceeds the vector's length.
pub proof fn lemma_coord_le_norm(v: V3)
    ensures
        0 <= norm(v),
        mag(v.x) <= norm(v),
        mag(v.y) <= norm(v),
        mag(v.z) <= norm(v),
{
    lemma_sq_len_nonneg(v);
    lemma_isqrt_exists(sq_len(v));
    let r = norm(v);
    assert(mag(v.x) * mag(v.x) <= sq_len(v)) by (nonlinear_arith)
        requires
            sq_len(v) == v.x * v.x + v.y * v.y + v.z * v.z,
    {
    }
    if mag(v.x) > r {
        lemma_sq_mono(r + 1, mag(v.x));
    }
    assert(mag(v.y) * mag(v.y) <= sq_len(v)) by (nonlinear_arith)
        requires
            sq_len(v) == v.x * v.x + v.y * v.y + v.z * v.z,
    {
    }
    if mag(v.y) > r {
        lemma_sq_mono(r + 1, mag(v.y));
    }
    assert(mag(v.z) * mag(v.z) <= sq_len(v)) by (nonlinear_arith)
        requires
            sq_len(v) == v.x * v.x + v.y * v.y + v.z * v.z,
    {
    }
    if mag(v.z) > r {
        lemma_sq_mono(r + 1, mag(v.z));
    }
}

/// Truncating division divides the magnitude and keeps the sign.
pub proof fn lemma_div_t_mag(a: int, b: int)
    requires
        b >= 1,
    ensures
        mag(div_t(a, b)) == mag(a) / b,
        a >= 0 ==> div_t(a, b) >= 0,
        a <= 0 ==> div_t(a, b) <= 0,
{
    if a >= 0 {
        lemma_div_pos_is_pos(a, b);
    } else {
        lemma_div_pos_is_pos(-a, b);
    }
}

/// A magnitude bound for truncating division: if `|a| <= c * b` then the
/// quotient's magnitude is at most `c`.
pub proof fn lemma_div_t_bound(a: int, b: int, c: int)
    requires
        b >= 1,
        c >= 0,
        mag(a) <= c * b,
    ensures
        mag(div_t(a, b)) <= c,
{
    lemma_div_t_mag(a, b);
    lemma_div_is_ordered(mag(a), c * b, b);
    assert((b * c) / b == c) by {
        lemma_div_multiples_vanish(c, b);
    }
    assert(c * b == b * c) by (nonlinear_arith);
}

/// Every coordinate of a fixed-point unit vector is bounded by `SCALE`.
pub proof fn lemma_unit_in_range(v: V3)
    ensures
        in_range(v_unit(v), SCALE as int),
{
    if sq_len(v) != 0 {
        lemma_coord_le_norm(v);
        let n = norm(v);
        lemma_sq_len_nonneg(v);
        lemma_isqrt_exists(sq_len(v));
        assert(n >= 1) by (nonlinear_arith)
            requires
                is_isqrt(sq_len(v), n),
                sq_len(v) != 0,
                sq_len(v) >= 0,
        {
        }
        lemma_mul_mag(v.x, n, SCALE as int, SCALE as int);
        lemma_div_t_bound(v.x * SCALE, n, SCALE as int);
        lemma_mul_mag(v.y, n, SCALE as int, SCALE as int);
        lemma_div_t_bound(v.y * SCALE, n, SCALE as int);
        lemma_mul_mag(v.z, n, SCALE as int, SCALE as int);
        lemma_div_t_bound(v.z * SCALE, n, SCALE as int);
    }
}

/// The clamped vector's squared length never exceeds the squared cap, and
/// each of its coordinates is bounded by the cap.
pub proof fn lemma_clamp_in_cap(v: V3, limit: int)
    requires
        limit >= 0,
    ensures
        sq_len(v_clamp(v, limit)) <= limit * limit,
        in_range(v_clamp(v, limit), limit),
{
    let c = v_clamp(v, limit);
    lemma_sq_len_nonneg(v);
    if sq_len(v) <= limit * limit {
        lemma_coord_le_norm(v);
        lemma_isqrt_exists(sq_len(v));
        assert(limit * limit < (limit + 1) * (limit + 1)) by (nonlinear_arith)
            requires
                limit >= 0,
        {
        }
        lemma_isqrt_le(sq_len(v), limit);
    } else {
        let n = norm(v);
        lemma_isqrt_exists(sq_len(v));
        let d = n + 1;
        lemma_coord_le_norm(v);
        // each coordinate of the result is bounded by limit
        lemma_mul_mag(v.x, n, limit, limit);
        assert(n * limit <= limit * d) by (nonlinear_arith)
            requires
                0 <= n,
                0 <= limit,
                d == n + 1,
        {
        }
        lemma_div_t_bound(v.x * limit, d, limit);
        lemma_mul_mag(v.y, n, limit, limit);
        lemma_div_t_bound(v.y * limit, d, limit);
        lemma_mul_mag(v.z, n, limit, limit);
        lemma_div_t_bound(v.z * limit, d, limit);
        // and the squared length stays under limit * limit
        lemma_clamp_sq(v, limit, n);
    }
}

/// The rescaling branch of the clamp keeps the squared length within the
/// squared cap.
proof fn lemma_clamp_sq(v: V3, limit: int, n: int)
    requires
        limit >= 0,
        is_isqrt(sq_len(v), n),
        sq_len(v) > limit * limit,
    ensures
        sq_len(v_scale_div(v, limit, n + 1)) <= limit * limit,
{
    let d = n + 1;
    let qx = div_t(v.x * limit, d);
    let qy = div_t(v.y * limit, d);
    let qz = div_t(v.z * limit, d);
    lemma_div_t_mag(v.x * limit, d);
    lemma_div_t_mag(v.y * limit, d);
    lemma_div_t_mag(v.z * limit, d);
    lemma_mul_mag(v.x, mag(v.x), limit, limit);
    lemma_mul_mag(v.y, mag(v.y), limit, limit);
    lemma_mul_mag(v.z, mag(v.z), limit, limit);
    lemma_quot_sq(v.x * limit, d, qx);
    lemma_quot_sq(v.y * limit, d, qy);
    lemma_quot_sq(v.z * limit, d, qz);
    // (qx^2 + qy^2 + qz^2) * d^2 <= (x^2 + y^2 + z^2) * limit^2 < d^2 * limit^2
    let dd = d * d;
    let ll = limit * limit;
    let s = qx * qx + qy * qy + qz * qz;
    assert((v.x * limit) * (v.x * limit) == (v.x * v.x) * ll) by (nonlinear_arith)
        requires
            ll == limit * limit,
    {
    }
    assert((v.y * limit) * (v.y * limit) == (v.y * v.y) * ll) by (nonlinear_arith)
        requires
            ll == limit * limit,
    {
    }
    assert((v.z * limit) * (v.z * limit) == (v.z * v.z) * ll) by (nonlinear_arith)
        requires
            ll == limit * limit,
    {
    }
    assert(s * dd == qx * qx * dd + qy * qy * dd + qz * qz * dd) by (nonlinear_arith)
        requires
            s == qx * qx + qy * qy + qz * qz,
    {
    }
    assert(sq_len(v) * ll == (v.x * v.x) * ll + (v.y * v.y) * ll + (v.z * v.z) * ll)
        by (nonlinear_arith)
        requires
            sq_len(v) == v.x * v.x + v.y * v.y + v.z * v.z,
    {
    }
    assert(s * dd <= sq_len(v) * ll);
    assert(sq_len(v) <= dd - 1);
    assert(sq_len(v) * ll <= (dd - 1) * ll) by (nonlinear_arith)
        requires
            sq_len(v) <= dd - 1,
            ll >= 0,
    {
    }
    assert((dd - 1) * ll == dd * ll - ll) by (nonlinear_arith);
    if s > ll {
        assert(s * dd >= (ll + 1) * dd) by (nonlinear_arith)
            requires
                s >= ll + 1,
                dd >= 1,
        {
        }
        assert((ll + 1) * dd == ll * dd + dd) by (nonlinear_arith);
        assert(ll * dd == dd * ll) by (nonlinear_arith);
        assert(false);
    }
}

/// Truncating division of `a` by a positive `b`, as the specification's
/// `div_t` describes it.
pub(crate) fn div_pos(a: i64, b: i64) -> (q: i64)
    requires
        b >= 1,
        a > i64::MIN,
    ensures
        q == div_t(a as int, b as int),
{
    if a >= 0 {
        a / b
    } else {
        -((-a) / b)
    }
}

/// Truncating division of a wide `a` by a positive `b`.
pub(crate) fn div_pos_wide(a: i128, b: i128) -> (q: i128)
    requires
        b >= 1,
        a > i128::MIN,
    ensures
        q == div_t(a as int, b as int),
{
    if a >= 0 {
        a / b
    } else {
        -((-a) / b)
    }
}

/// The integer square root of any 128-bit value, by binary search.
pub(crate) fn isqrt_u128(n: u128) -> (r: u128)
    ensures
        is_isqrt(n as int, r as int),
        r as int == isqrt(n as int),
{
    let mut lo: u128 = 0;
    let mut hi: u128 = 18_446_744_073_709_551_616;  // 2^64, so hi * hi > u128::MAX >= n
    while lo + 1 < hi
        invariant
            lo < hi <= 18_446_744_073_709_551_616,
            (lo as int) * (lo as int) <= n as int,
            (n as int) < (hi as int) * (hi as int),
        decreases hi - lo,
    {
        let half: u128 = (hi - lo) / 2;
        proof {
            vstd::arithmetic::div_mod::lemma_fundamental_div_mod((hi - lo) as int, 2);
        }
        let mid: u128 = lo + half;
        proof {
            lemma_mul_mag(mid as int, 18_446_744_073_709_551_615, mid as int, 18_446_744_073_709_551_615);
        }
        if mid * mid <= n {
            lo = mid;
        } else {
            hi = mid;
        }
    }
    proof {
        lemma_isqrt_eq(n as int, lo as int);
    }
    lo
}

/// The exact squared length of any vector, computed without overflow in
/// 128 bits.
pub(crate) fn sq_len_wide(v: &Vec3) -> (s: u128)
    ensures
        s as int == sq_len(v@),
{
    proof {
        lemma_mul_mag(v.x as int, 9_223_372_036_854_775_808, v.x as int, 9_223_372_036_854_775_808);
        lemma_mul_mag(v.y as int, 9_223_372_036_854_775_808, v.y as int, 9_223_372_036_854_775_808);
        lemma_mul_mag(v.z as int, 9_223_372_036_854_775_808, v.z as int, 9_223_372_036_854_775_808);
        lemma_sq_nonneg(v.x as int);
        lemma_sq_nonneg(v.y as int);
        lemma_sq_nonneg(v.z as int);
    }
    let xx: i128 = (v.x as i128) * (v.x as i128);
    let yy: i128 = (v.y as i128) * (v.y as i128);
    let zz: i128 = (v.z as i128) * (v.z as i128);
    (xx as u128) + (yy as u128) + (zz as u128)
}

/// The distance between two in-range points, exactly as the specification's
/// `dist`.
pub fn dist_of(a: &Vec3, b: &Vec3) -> (d: i64)
    requires
        in_range(a@, MAX_COORD as int),
        in_range(b@, MAX_COORD as int),
    ensures
        d == dist(a@, b@),
        0 <= d <= 3_464_101_615,  // the integer square root of 3 * (2 * MAX_COORD)^2
{
    let v = Vec3 { x: a.x - b.x, y: a.y - b.y, z: a.z - b.z };
    let s = sq_len_wide(&v);
    let r = isqrt_u128(s);
    proof {
        lemma_mul_mag(v.x as int, 2_000_000_000, v.x as int, 2_000_000_000);
        lemma_mul_mag(v.y as int, 2_000_000_000, v.y as int, 2_000_000_000);
        lemma_mul_mag(v.z as int, 2_000_000_000, v.z as int, 2_000_000_000);
        lemma_isqrt_le(s as int, 3_464_101_615);
        lemma_isqrt_eq(s as int, r as int);
    }
    r as i64
}

/// The fixed-point unit vector of a vector whose coordinates may span twice
/// the coordinate range (a difference of two in-range points).
pub(crate) fn unit_of(v: &Vec3) -> (u: Vec3)
    requires
        in_range(v@, 2 * MAX_COORD),
    ensures
        u@ == v_unit(v@),
        in_range(u@, SCALE as int),
{
    let s = sq_len_wide(v);
    proof {
        lemma_unit_in_range(v@);
    }
    if s == 0 {
        Vec3 { x: 0, y: 0, z: 0 }
    } else {
        let r = isqrt_u128(s);
        proof {
            lemma_mul_mag(v.x as int, 2_000_000_000, v.x as int, 2_000_000_000);
            lemma_mul_mag(v.y as int, 2_000_000_000, v.y as int, 2_000_000_000);
            lemma_mul_mag(v.z as int, 2_000_000_000, v.z as int, 2_000_000_000);
            lemma_isqrt_le(s as int, 3_464_101_615);
            lemma_isqrt_eq(s as int, r as int);
            assert(r >= 1) by (nonlinear_arith)
                requires
                    is_isqrt(s as int, r as int),
                    s >= 1,
            {
            }
        }
        let n = r as i64;
        Vec3 {
            x: div_pos(v.x * SCALE, n),
            y: div_pos(v.y * SCALE, n),
            z: div_pos(v.z * SCALE, n),
        }
    }
}

/// Squaring a truncated quotient and multiplying back by the squared divisor
/// stays under the squared dividend.
proof fn lemma_quot_sq(a: int, d: int, q: int)
    by (nonlinear_arith)
    requires
        d >= 1,
        q == div_t(a, d),
        mag(q) == mag(a) / d,
    ensures
        q * q * (d * d) <= a * a,
{
    let m = mag(a) / d;
    assert(m * d <= mag(a)) by {
        vstd::arithmetic::div_mod::lemma_fundamental_div_mod(mag(a), d);
        vstd::arithmetic::div_mod::lemma_remainder_lower(mag(a), d);
    }
}

} // verus!
