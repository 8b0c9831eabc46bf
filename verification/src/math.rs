//! Fixed-point scalars and the small linear-algebra values that animation
//! tracks produce: vectors, quaternions, transforms and (inert) matrices.
//!
//! One whole unit (one second, one metre, blend weight 1.0) is `SCALE`
//! fixed-point units; all arithmetic is exact integer arithmetic, with
//! division truncating toward zero exactly as Rust's `/` does on `i64`.

use vstd::prelude::*;

verus! {

use vstd::arithmetic::div_mod::{
    lemma_div_is_ordered,
    lemma_div_multiples_vanish,
    lemma_div_pos_is_pos,
};

/// Number of fixed-point units in one whole (one second, one metre, weight 1.0).
pub const SCALE: i64 = 1000;

/// Largest magnitude, in fixed-point units, admitted for clip times, durations
/// and animated component values.
pub const VAL_MAX: i64 = 1_000_000_000;

/// Truncating (round-toward-zero) division, the semantics of Rust's `/` on
/// signed integers. Spec-level `/` alone is Euclidean, which differs on
/// negative dividends.
pub open spec fn tdiv(a: int, b: int) -> int {
    if a >= 0 {
        a / b
    } else {
        -((-a) / b)
    }
}

/// Truncating remainder, the semantics of Rust's `%` on signed integers.
pub open spec fn tmod(a: int, b: int) -> int {
    if a >= 0 {
        a % b
    } else {
        -((-a) % b)
    }
}

/// Linear interpolation from `a` toward `b` by factor `f` (in `[0, SCALE]`).
pub open spec fn lerp_spec(a: int, b: int, f: int) -> int {
    a + tdiv((b - a) * f, SCALE as int)
}

/// A value scaled by a fixed-point weight.
pub open spec fn scaled_spec(v: int, w: int) -> int {
    tdiv(v * w, SCALE as int)
}

/// `tdiv` stays between any multiples of the divisor that bound the dividend.
pub proof fn lemma_tdiv_between(num: int, d: int, lo: int, hi: int)
    requires
        d > 0,
        lo * d <= num,
        num <= hi * d,
    ensures
        lo <= tdiv(num, d),
        tdiv(num, d) <= hi,
{
    if num >= 0 {
        lemma_div_is_ordered(lo * d, num, d);
        lemma_div_multiples_vanish(lo, d);
        assert(lo * d == d * lo) by (nonlinear_arith);
        lemma_div_is_ordered(num, hi * d, d);
        lemma_div_multiples_vanish(hi, d);
        assert(hi * d == d * hi) by (nonlinear_arith);
    } else {
        assert(lo * d < 0);
        assert(lo < 0) by (nonlinear_arith)
            requires
                lo * d < 0,
                d > 0,
        ;
        assert((-lo) * d == -(lo * d)) by (nonlinear_arith);
        lemma_div_is_ordered(-num, (-lo) * d, d);
        lemma_div_multiples_vanish(-lo, d);
        assert((-lo) * d == d * (-lo)) by (nonlinear_arith);
        if hi >= 0 {
            lemma_div_pos_is_pos(-num, d);
        } else {
            assert((-hi) * d == -(hi * d)) by (nonlinear_arith);
            lemma_div_is_ordered((-hi) * d, -num, d);
            lemma_div_multiples_vanish(-hi, d);
            assert((-hi) * d == d * (-hi)) by (nonlinear_arith);
        }
    }
}

/// The interpolant lies between its endpoints.
pub proof fn lemma_lerp_between(a: int, b: int, f: int)
    requires
        0 <= f <= SCALE as int,
    ensures
        a <= b ==> a <= lerp_spec(a, b, f) <= b,
        b <= a ==> b <= lerp_spec(a, b, f) <= a,
{
    let d = b - a;
    if d >= 0 {
        assert(0 * (SCALE as int) <= d * f && d * f <= d * (SCALE as int)) by (nonlinear_arith)
            requires
                d >= 0,
                0 <= f <= SCALE as int,
        ;
        lemma_tdiv_between(d * f, SCALE as int, 0, d);
    } else {
        assert(d * (SCALE as int) <= d * f && d * f <= 0 * (SCALE as int)) by (nonlinear_arith)
            requires
                d < 0,
                0 <= f <= SCALE as int,
        ;
        lemma_tdiv_between(d * f, SCALE as int, d, 0);
    }
}

/// Interpolating between equal endpoints returns the endpoint unchanged.
pub proof fn lemma_lerp_same(a: int, f: int)
    ensures
        lerp_spec(a, a, f) == a,
{
    assert(0 * f == 0) by (nonlinear_arith);
}

/// Interpolation is exact at the factor boundaries.
pub proof fn lemma_lerp_ends(a: int, b: int)
    ensures
        lerp_spec(a, b, 0) == a,
        lerp_spec(a, b, SCALE as int) == b,
{
    let d = b - a;
    assert(d * 0 == 0) by (nonlinear_arith);
    lemma_div_multiples_vanish(d, SCALE as int);
    assert(d * (SCALE as int) == (SCALE as int) * d) by (nonlinear_arith);
    if d < 0 {
        assert((-(d * (SCALE as int))) == (-d) * (SCALE as int)) by (nonlinear_arith);
        lemma_div_multiples_vanish(-d, SCALE as int);
        assert((-d) * (SCALE as int) == (SCALE as int) * (-d)) by (nonlinear_arith);
    }
}

/// Fixed-point linear interpolation of scalars.
pub fn lerp_fixed(a: i64, b: i64, f: i64) -> (r: i64)
    requires
        -VAL_MAX <= a <= VAL_MAX,
        -VAL_MAX <= b <= VAL_MAX,
        0 <= f <= SCALE,
    ensures
        r == lerp_spec(a as int, b as int, f as int),
        a <= b ==> a <= r <= b,
        b <= a ==> b <= r <= a,
{
    let d: i64 = b - a;
    proof {
        assert(-2_000_000_000_000 <= (d as int) * (f as int) <= 2_000_000_000_000)
            by (nonlinear_arith)
            requires
                -2_000_000_000 <= d <= 2_000_000_000,
                0 <= f <= 1000,
        ;
        lemma_lerp_between(a as int, b as int, f as int);
    }
    let num: i64 = d * f;
    let q: i64 = num / SCALE;
    a + q
}

/// A three-component vector of fixed-point scalars.
#[derive(Clone, Copy, PartialEq, Eq, Structural, Debug)]
pub struct Vec3 {
    pub x: i64,
    pub y: i64,
    pub z: i64,
}

/// A quaternion of fixed-point scalars (identity is `(0, 0, 0, SCALE)`).
#[derive(Clone, Copy, PartialEq, Eq, Structural, Debug)]
pub struct Quat {
    pub x: i64,
    pub y: i64,
    pub z: i64,
    pub w: i64,
}

/// A joint-local transform: translation, rotation and scale.
#[derive(Clone, Copy, PartialEq, Eq, Structural, Debug)]
pub struct Transform {
    pub translation: Vec3,
    pub rotation: Quat,
    pub scale: Vec3,
}

/// A 4x4 matrix in row-major order. The animation core only stores and hands
/// these through (bind poses); it never computes with them.
#[derive(Clone, Copy, Debug)]
pub struct Mat4 {
    pub entries: [i64; 16],
}

pub open spec fn vec3_in_range(v: Vec3) -> bool {
    &&& -VAL_MAX <= v.x <= VAL_MAX
    &&& -VAL_MAX <= v.y <= VAL_MAX
    &&& -VAL_MAX <= v.z <= VAL_MAX
}

pub open spec fn quat_in_range(q: Quat) -> bool {
    &&& -VAL_MAX <= q.x <= VAL_MAX
    &&& -VAL_MAX <= q.y <= VAL_MAX
    &&& -VAL_MAX <= q.z <= VAL_MAX
    &&& -VAL_MAX <= q.w <= VAL_MAX
}

pub open spec fn transform_in_range(t: Transform) -> bool {
    &&& vec3_in_range(t.translation)
    &&& quat_in_range(t.rotation)
    &&& vec3_in_range(t.scale)
}

pub open spec fn lerp_vec3_spec(a: Vec3, b: Vec3, f: int) -> Vec3 {
    Vec3 {
        x: lerp_spec(a.x as int, b.x as int, f) as i64,
        y: lerp_spec(a.y as int, b.y as int, f) as i64,
        z: lerp_spec(a.z as int, b.z as int, f) as i64,
    }
}

/// Component-wise interpolation of quaternions: the fixed-point stand-in for
/// spherical interpolation, exact at the factor boundaries. Renormalising the
/// result is a floating-point concern left to the host.
pub open spec fn lerp_quat_spec(a: Quat, b: Quat, f: int) -> Quat {
    Quat {
        x: lerp_spec(a.x as int, b.x as int, f) as i64,
        y: lerp_spec(a.y as int, b.y as int, f) as i64,
        z: lerp_spec(a.z as int, b.z as int, f) as i64,
        w: lerp_spec(a.w as int, b.w as int, f) as i64,
    }
}

pub open spec fn lerp_transform_spec(a: Transform, b: Transform, f: int) -> Transform {
    Transform {
        translation: lerp_vec3_spec(a.translation, b.translation, f),
        rotation: lerp_quat_spec(a.rotation, b.rotation, f),
        scale: lerp_vec3_spec(a.scale, b.scale, f),
    }
}

pub fn lerp_vec3(a: Vec3, b: Vec3, f: i64) -> (r: Vec3)
    requires
        vec3_in_range(a),
        vec3_in_range(b),
        0 <= f <= SCALE,
    ensures
        r == lerp_vec3_spec(a, b, f as int),
        vec3_in_range(r),
{
    Vec3 { x: lerp_fixed(a.x, b.x, f), y: lerp_fixed(a.y, b.y, f), z: lerp_fixed(a.z, b.z, f) }
}

pub fn lerp_quat(a: Quat, b: Quat, f: i64) -> (r: Quat)
    requires
        quat_in_range(a),
        quat_in_range(b),
        0 <= f <= SCALE,
    ensures
        r == lerp_quat_spec(a, b, f as int),
        quat_in_range(r),
{
    Quat {
        x: lerp_fixed(a.x, b.x, f),
        y: lerp_fixed(a.y, b.y, f),
        z: lerp_fixed(a.z, b.z, f),
        w: lerp_fixed(a.w, b.w, f),
    }
}

/// Interpolates translation and scale linearly and the rotation by the
/// quaternion rule, all with the same factor.
pub fn interpolate_transform(a: &Transform, b: &Transform, f: i64) -> (r: Transform)
    requires
        transform_in_range(*a),
        transform_in_range(*b),
        0 <= f <= SCALE,
    ensures
        r == lerp_transform_spec(*a, *b, f as int),
        transform_in_range(r),
{
    Transform {
        translation: lerp_vec3(a.translation, b.translation, f),
        rotation: lerp_quat(a.rotation, b.rotation, f),
        scale: lerp_vec3(a.scale, b.scale, f),
    }
}

/// A scalar scaled by a fixed-point weight stays between zero and the scalar.
pub proof fn lemma_scaled_between(v: int, w: int)
    requires
        0 <= w <= SCALE as int,
    ensures
        v >= 0 ==> 0 <= scaled_spec(v, w) <= v,
        v <= 0 ==> v <= scaled_spec(v, w) <= 0,
{
    if v >= 0 {
        assert(0 * (SCALE as int) <= v * w && v * w <= v * (SCALE as int)) by (nonlinear_arith)
            requires
                v >= 0,
                0 <= w <= SCALE as int,
        ;
        lemma_tdiv_between(v * w, SCALE as int, 0, v);
    } else {
        assert(v * (SCALE as int) <= v * w && v * w <= 0 * (SCALE as int)) by (nonlinear_arith)
            requires
                v < 0,
                0 <= w <= SCALE as int,
        ;
        lemma_tdiv_between(v * w, SCALE as int, v, 0);
    }
}

/// Fixed-point multiplication by a weight in `[0, SCALE]`.
pub fn scale_fixed(v: i64, w: i64) -> (r: i64)
    requires
        -2 * VAL_MAX <= v <= 2 * VAL_MAX,
        0 <= w <= SCALE,
    ensures
        r == scaled_spec(v as int, w as int),
        v >= 0 ==> 0 <= r <= v,
        v <= 0 ==> v <= r <= 0,
{
    proof {
        assert(-2_000_000_000_000 <= (v as int) * (w as int) <= 2_000_000_000_000)
            by (nonlinear_arith)
            requires
                -2_000_000_000 <= v <= 2_000_000_000,
                0 <= w <= 1000,
        ;
        lemma_scaled_between(v as int, w as int);
    }
    let num: i64 = v * w;
    num / SCALE
}

pub open spec fn quat_scale_spec(q: Quat, w: int) -> Quat {
    Quat {
        x: scaled_spec(q.x as int, w) as i64,
        y: scaled_spec(q.y as int, w) as i64,
        z: scaled_spec(q.z as int, w) as i64,
        w: scaled_spec(q.w as int, w) as i64,
    }
}

/// Every component of a quaternion scaled by a fixed-point weight.
pub fn quat_scale(q: Quat, w: i64) -> (r: Quat)
    requires
        quat_in_range(q),
        0 <= w <= SCALE,
    ensures
        r == quat_scale_spec(q, w as int),
        quat_in_range(r),
{
    Quat {
        x: scale_fixed(q.x, w),
        y: scale_fixed(q.y, w),
        z: scale_fixed(q.z, w),
        w: scale_fixed(q.w, w),
    }
}

/// Components of the Hamilton product, before rescaling by `SCALE`.
pub open spec fn quat_mul_num_w(a: Quat, b: Quat) -> int {
    a.w * b.w - a.x * b.x - a.y * b.y - a.z * b.z
}

pub open spec fn quat_mul_num_x(a: Quat, b: Quat) -> int {
    a.w * b.x + a.x * b.w + a.y * b.z - a.z * b.y
}

pub open spec fn quat_mul_num_y(a: Quat, b: Quat) -> int {
    a.w * b.y - a.x * b.z + a.y * b.w + a.z * b.x
}

pub open spec fn quat_mul_num_z(a: Quat, b: Quat) -> int {
    a.w * b.z + a.x * b.y - a.y * b.x + a.z * b.w
}

/// The Hamilton product in fixed-point units: each component of the integer
/// product carries the scale twice, so it is divided by `SCALE` once.
pub open spec fn quat_mul_spec(a: Quat, b: Quat) -> Quat {
    Quat {
        x: tdiv(quat_mul_num_x(a, b), SCALE as int) as i64,
        y: tdiv(quat_mul_num_y(a, b), SCALE as int) as i64,
        z: tdiv(quat_mul_num_z(a, b), SCALE as int) as i64,
        w: tdiv(quat_mul_num_w(a, b), SCALE as int) as i64,
    }
}

/// Magnitude bound on each rescaled Hamilton-product component.
pub const QUAT_PRODUCT_MAX: i64 = 4_000_000_000_000_000;

/// Fixed-point Hamilton product of two quaternions.
pub fn quat_mul(a: Quat, b: Quat) -> (r: Quat)
    requires
        quat_in_range(a),
        quat_in_range(b),
    ensures
        r == quat_mul_spec(a, b),
        -QUAT_PRODUCT_MAX <= r.x <= QUAT_PRODUCT_MAX,
        -QUAT_PRODUCT_MAX <= r.y <= QUAT_PRODUCT_MAX,
        -QUAT_PRODUCT_MAX <= r.z <= QUAT_PRODUCT_MAX,
        -QUAT_PRODUCT_MAX <= r.w <= QUAT_PRODUCT_MAX,
{
    proof {
        lemma_quat_product_terms(a, b);
    }
    let nw: i64 = pm(a.w, b.w) - pm(a.x, b.x) - pm(a.y, b.y) - pm(a.z, b.z);
    let nx: i64 = pm(a.w, b.x) + pm(a.x, b.w) + pm(a.y, b.z) - pm(a.z, b.y);
    let ny: i64 = pm(a.w, b.y) - pm(a.x, b.z) + pm(a.y, b.w) + pm(a.z, b.x);
    let nz: i64 = pm(a.w, b.z) + pm(a.x, b.y) - pm(a.y, b.x) + pm(a.z, b.w);
    proof {
        lemma_tdiv_magnitude(nw as int, SCALE as int, 4_000_000_000_000_000_000);
        lemma_tdiv_magnitude(nx as int, SCALE as int, 4_000_000_000_000_000_000);
        lemma_tdiv_magnitude(ny as int, SCALE as int, 4_000_000_000_000_000_000);
        lemma_tdiv_magnitude(nz as int, SCALE as int, 4_000_000_000_000_000_000);
    }
    Quat { x: nx / SCALE, y: ny / SCALE, z: nz / SCALE, w: nw / SCALE }
}

/// Product of two in-range fixed-point scalars, without rescaling.
fn pm(a: i64, b: i64) -> (r: i64)
    requires
        -VAL_MAX <= a <= VAL_MAX,
        -VAL_MAX <= b <= VAL_MAX,
    ensures
        r == a * b,
        -1_000_000_000_000_000_000 <= r <= 1_000_000_000_000_000_000,
{
    proof {
        assert(-1_000_000_000_000_000_000 <= (a as int) * (b as int)
            <= 1_000_000_000_000_000_000) by (nonlinear_arith)
            requires
                -1_000_000_000 <= a <= 1_000_000_000,
                -1_000_000_000 <= b <= 1_000_000_000,
        ;
    }
    a * b
}

proof fn lemma_quat_product_terms(a: Quat, b: Quat)
    requires
        quat_in_range(a),
        quat_in_range(b),
    ensures
        -4_000_000_000_000_000_000 <= quat_mul_num_w(a, b) <= 4_000_000_000_000_000_000,
        -4_000_000_000_000_000_000 <= quat_mul_num_x(a, b) <= 4_000_000_000_000_000_000,
        -4_000_000_000_000_000_000 <= quat_mul_num_y(a, b) <= 4_000_000_000_000_000_000,
        -4_000_000_000_000_000_000 <= quat_mul_num_z(a, b) <= 4_000_000_000_000_000_000,
{
    assert forall|p: int, q: int|
        -1_000_000_000 <= p <= 1_000_000_000 && -1_000_000_000 <= q <= 1_000_000_000
            implies -1_000_000_000_000_000_000 <= #[trigger] (p * q) <= 1_000_000_000_000_000_000
    by {
        assert(-1_000_000_000_000_000_000 <= p * q <= 1_000_000_000_000_000_000)
            by (nonlinear_arith)
            requires
                -1_000_000_000 <= p <= 1_000_000_000,
                -1_000_000_000 <= q <= 1_000_000_000,
        ;
    }
}

/// `tdiv` shrinks magnitudes: `|num| <= m` gives `|num / d| <= m / d`.
pub proof fn lemma_tdiv_magnitude(num: int, d: int, m: int)
    requires
        d > 0,
        m >= 0,
        -m <= num <= m,
        m % d == 0,
    ensures
        -(m / d) <= tdiv(num, d) <= m / d,
{
    let q = m / d;
    assert(q * d == m) by {
        vstd::arithmetic::div_mod::lemma_fundamental_div_mod(m, d);
        assert(m == d * (m / d) + m % d);
        assert(d * q == q * d) by (nonlinear_arith);
    }
    assert((-q) * d == -(q * d)) by (nonlinear_arith);
    lemma_tdiv_between(num, d, -q, q);
}

/// `SCALE` cubed: the combined scale carried by a cubic Bezier numerator.
pub const SCALE_CUBED: i64 = 1_000_000_000;

/// Integer numerator of the cubic Bezier polynomial at factor `f`, with the
/// endpoints as outer control values and `c1`, `c2` as the inner handles.
pub open spec fn bezier_num(p0: int, c1: int, c2: int, p1: int, f: int) -> int {
    let e = SCALE as int - f;
    e * e * e * p0 + 3 * (e * e) * f * c1 + 3 * e * (f * f) * c2 + f * f * f * p1
}

pub open spec fn bezier_spec(p0: int, c1: int, c2: int, p1: int, f: int) -> int {
    tdiv(bezier_num(p0, c1, c2, p1, f), SCALE_CUBED as int)
}

/// The four Bernstein coefficients are non-negative and sum to `SCALE_CUBED`.
proof fn lemma_bernstein(f: int)
    requires
        0 <= f <= SCALE as int,
    ensures
        (SCALE as int - f) * (SCALE as int - f) * (SCALE as int - f) >= 0,
        3 * ((SCALE as int - f) * (SCALE as int - f)) * f >= 0,
        3 * (SCALE as int - f) * (f * f) >= 0,
        f * f * f >= 0,
        (SCALE as int - f) * (SCALE as int - f) * (SCALE as int - f)
            + 3 * ((SCALE as int - f) * (SCALE as int - f)) * f
            + 3 * (SCALE as int - f) * (f * f)
            + f * f * f == SCALE_CUBED as int,
{
    let e = SCALE as int - f;
    assert(e * e * e >= 0 && 3 * (e * e) * f >= 0 && 3 * e * (f * f) >= 0 && f * f * f >= 0
        && e * e * e + 3 * (e * e) * f + 3 * e * (f * f) + f * f * f
            == (e + f) * (e + f) * (e + f)) by (nonlinear_arith)
        requires
            0 <= f,
            0 <= e,
    ;
    assert((e + f) * (e + f) * (e + f) == 1_000_000_000) by (nonlinear_arith)
        requires
            e + f == 1000,
    ;
}

/// The Bezier value lies between the smallest and the largest of the four
/// control values.
pub proof fn lemma_bezier_between(p0: int, c1: int, c2: int, p1: int, f: int, lo: int, hi: int)
    requires
        0 <= f <= SCALE as int,
        lo <= p0 <= hi,
        lo <= c1 <= hi,
        lo <= c2 <= hi,
        lo <= p1 <= hi,
    ensures
        lo <= bezier_spec(p0, c1, c2, p1, f) <= hi,
{
    let e = SCALE as int - f;
    let k0 = e * e * e;
    let k1 = 3 * (e * e) * f;
    let k2 = 3 * e * (f * f);
    let k3 = f * f * f;
    lemma_bernstein(f);
    assert(k0 * lo <= k0 * p0 <= k0 * hi) by (nonlinear_arith)
        requires
            k0 >= 0,
            lo <= p0 <= hi,
    ;
    assert(k1 * lo <= k1 * c1 <= k1 * hi) by (nonlinear_arith)
        requires
            k1 >= 0,
            lo <= c1 <= hi,
    ;
    assert(k2 * lo <= k2 * c2 <= k2 * hi) by (nonlinear_arith)
        requires
            k2 >= 0,
            lo <= c2 <= hi,
    ;
    assert(k3 * lo <= k3 * p1 <= k3 * hi) by (nonlinear_arith)
        requires
            k3 >= 0,
            lo <= p1 <= hi,
    ;
    assert((k0 + k1 + k2 + k3) * lo == k0 * lo + k1 * lo + k2 * lo + k3 * lo)
        by (nonlinear_arith);
    assert((k0 + k1 + k2 + k3) * hi == k0 * hi + k1 * hi + k2 * hi + k3 * hi)
        by (nonlinear_arith);
    assert(lo * (SCALE_CUBED as int) == (SCALE_CUBED as int) * lo) by (nonlinear_arith);
    assert(hi * (SCALE_CUBED as int) == (SCALE_CUBED as int) * hi) by (nonlinear_arith);
    lemma_tdiv_between(bezier_num(p0, c1, c2, p1, f), SCALE_CUBED as int, lo, hi);
}

/// The Bezier curve is exact at the factor boundaries.
pub proof fn lemma_bezier_ends(p0: int, c1: int, c2: int, p1: int)
    ensures
        bezier_spec(p0, c1, c2, p1, 0) == p0,
        bezier_spec(p0, c1, c2, p1, SCALE as int) == p1,
{
    let s = SCALE as int;
    let n0 = bezier_num(p0, c1, c2, p1, 0);
    let n1 = bezier_num(p0, c1, c2, p1, s);
    assert(n0 == (SCALE_CUBED as int) * p0) by (nonlinear_arith)
        requires
            s == 1000,
            n0 == s * s * s * p0 + 3 * (s * s) * 0 * c1 + 3 * s * (0 * 0) * c2 + 0 * 0 * 0 * p1,
    ;
    assert(n1 == (SCALE_CUBED as int) * p1) by (nonlinear_arith)
        requires
            s == 1000,
            n1 == 0 * 0 * 0 * p0 + 3 * (0 * 0) * s * c1 + 3 * 0 * (s * s) * c2 + s * s * s * p1,
    ;
    lemma_div_multiples_vanish(p0, SCALE_CUBED as int);
    lemma_div_multiples_vanish(p1, SCALE_CUBED as int);
    if p0 < 0 {
        assert(-((SCALE_CUBED as int) * p0) == (SCALE_CUBED as int) * (-p0)) by (nonlinear_arith);
        lemma_div_multiples_vanish(-p0, SCALE_CUBED as int);
    }
    if p1 < 0 {
        assert(-((SCALE_CUBED as int) * p1) == (SCALE_CUBED as int) * (-p1)) by (nonlinear_arith);
        lemma_div_multiples_vanish(-p1, SCALE_CUBED as int);
    }
}

/// Evaluates the cubic Bezier curve through `p0` and `p1` with inner handles
/// `c1` and `c2`, at factor `f`.
pub fn bezier_fixed(p0: i64, c1: i64, c2: i64, p1: i64, f: i64) -> (r: i64)
    requires
        -VAL_MAX <= p0 <= VAL_MAX,
        -VAL_MAX <= c1 <= VAL_MAX,
        -VAL_MAX <= c2 <= VAL_MAX,
        -VAL_MAX <= p1 <= VAL_MAX,
        0 <= f <= SCALE,
    ensures
        r == bezier_spec(p0 as int, c1 as int, c2 as int, p1 as int, f as int),
        -VAL_MAX <= r <= VAL_MAX,
{
    let e: i64 = SCALE - f;
    proof {
        assert(0 <= (e as int) * (e as int) <= 1_000_000) by (nonlinear_arith)
            requires
                0 <= e <= 1000,
        ;
    }
    let e2: i64 = e * e;
    proof {
        assert(0 <= (e2 as int) * (e as int) <= 1_000_000_000) by (nonlinear_arith)
            requires
                0 <= e2 <= 1_000_000,
                0 <= e <= 1000,
        ;
        assert(0 <= (f as int) * (f as int) <= 1_000_000) by (nonlinear_arith)
            requires
                0 <= f <= 1000,
        ;
    }
    let e3: i64 = e2 * e;
    let f2: i64 = f * f;
    proof {
        assert(0 <= (f2 as int) * (f as int) <= 1_000_000_000) by (nonlinear_arith)
            requires
                0 <= f2 <= 1_000_000,
                0 <= f <= 1000,
        ;
        assert(0 <= 3 * (e2 as int) * (f as int) <= 3_000_000_000) by (nonlinear_arith)
            requires
                0 <= e2 <= 1_000_000,
                0 <= f <= 1000,
        ;
        assert(0 <= 3 * (e as int) * (f2 as int) <= 3_000_000_000) by (nonlinear_arith)
            requires
                0 <= f2 <= 1_000_000,
                0 <= e <= 1000,
        ;
    }
    let f3: i64 = f2 * f;
    let k1: i64 = 3 * e2 * f;
    let k2: i64 = 3 * e * f2;
    proof {
        assert(-1_000_000_000_000_000_000 <= (e3 as int) * (p0 as int)
            <= 1_000_000_000_000_000_000) by (nonlinear_arith)
            requires
                0 <= e3 <= 1_000_000_000,
                -1_000_000_000 <= p0 <= 1_000_000_000,
        ;
        assert(-3_000_000_000_000_000_000 <= (k1 as int) * (c1 as int)
            <= 3_000_000_000_000_000_000) by (nonlinear_arith)
            requires
                0 <= k1 <= 3_000_000_000,
                -1_000_000_000 <= c1 <= 1_000_000_000,
        ;
        assert(-3_000_000_000_000_000_000 <= (k2 as int) * (c2 as int)
            <= 3_000_000_000_000_000_000) by (nonlinear_arith)
            requires
                0 <= k2 <= 3_000_000_000,
                -1_000_000_000 <= c2 <= 1_000_000_000,
        ;
        assert(-1_000_000_000_000_000_000 <= (f3 as int) * (p1 as int)
            <= 1_000_000_000_000_000_000) by (nonlinear_arith)
            requires
                0 <= f3 <= 1_000_000_000,
                -1_000_000_000 <= p1 <= 1_000_000_000,
        ;
    }
    let t0: i128 = (e3 as i128) * (p0 as i128);
    let t1: i128 = (k1 as i128) * (c1 as i128);
    let t2: i128 = (k2 as i128) * (c2 as i128);
    let t3: i128 = (f3 as i128) * (p1 as i128);
    let num: i128 = t0 + t1 + t2 + t3;
    proof {
        assert(num == bezier_num(p0 as int, c1 as int, c2 as int, p1 as int, f as int))
            by (nonlinear_arith)
            requires
                e == 1000 - f,
                e2 == e * e,
                e3 == e2 * e,
                f2 == f * f,
                f3 == f2 * f,
                k1 == 3 * e2 * f,
                k2 == 3 * e * f2,
                t0 == e3 * p0,
                t1 == k1 * c1,
                t2 == k2 * c2,
                t3 == f3 * p1,
                num == t0 + t1 + t2 + t3,
                SCALE as int == 1000,
        ;
        lemma_bezier_between(
            p0 as int,
            c1 as int,
            c2 as int,
            p1 as int,
            f as int,
            -(VAL_MAX as int),
            VAL_MAX as int,
        );
    }
    (num / (SCALE_CUBED as i128)) as i64
}

impl Vec3 {
    /// The zero vector.
    pub fn zero() -> (r: Vec3)
        ensures
            r == (Vec3 { x: 0, y: 0, z: 0 }),
    {
        Vec3 { x: 0, y: 0, z: 0 }
    }

    /// The vector `(1, 1, 1)` in fixed-point units.
    pub fn one() -> (r: Vec3)
        ensures
            r == (Vec3 { x: SCALE, y: SCALE, z: SCALE }),
    {
        Vec3 { x: SCALE, y: SCALE, z: SCALE }
    }
}

impl Quat {
    /// The identity rotation.
    pub fn identity() -> (r: Quat)
        ensures
            r == (Quat { x: 0, y: 0, z: 0, w: SCALE }),
    {
        Quat { x: 0, y: 0, z: 0, w: SCALE }
    }
}

impl Transform {
    /// The identity transform: zero translation, identity rotation, unit scale.
    pub fn identity() -> (r: Transform)
        ensures
            r == spec_transform_identity(),
    {
        Transform {
            translation: Vec3 { x: 0, y: 0, z: 0 },
            rotation: Quat { x: 0, y: 0, z: 0, w: SCALE },
            scale: Vec3 { x: SCALE, y: SCALE, z: SCALE },
        }
    }
}

pub open spec fn spec_transform_identity() -> Transform {
    Transform {
        translation: Vec3 { x: 0, y: 0, z: 0 },
        rotation: Quat { x: 0, y: 0, z: 0, w: SCALE },
        scale: Vec3 { x: SCALE, y: SCALE, z: SCALE },
    }
}

impl Mat4 {
    /// The identity matrix in fixed-point units.
    pub fn identity() -> (r: Mat4)
        ensures
            r.entries@ =~= spec_mat4_identity().entries@,
    {
        let mut e: [i64; 16] = [0i64; 16];
        e[0] = SCALE;
        e[5] = SCALE;
        e[10] = SCALE;
        e[15] = SCALE;
        Mat4 { entries: e }
    }
}

pub open spec fn spec_mat4_identity() -> Mat4 {
    Mat4 {
        entries: [
            SCALE, 0, 0, 0,
            0, SCALE, 0, 0,
            0, 0, SCALE, 0,
            0, 0, 0, SCALE,
        ],
    }
}

} // verus!
