//! Scaled-integer vectors and the dot-product algebra the controller
//! rests on.

use vstd::prelude::*;

verus! {

use crate::math::{div_tz, mag};

/// A 3D vector of scaled integers. Positions and velocities are in
/// thousandths of a world unit; a direction vector of unit length is
/// stored with its coordinates scaled by `crate::math::SCALE`.
#[derive(Clone, Copy, Debug, PartialEq, Eq, Structural)]
pub struct Vec3Fx {
    pub x: i64,
    pub y: i64,
    pub z: i64,
}

/// A 2D vector of scaled integers, used for horizontal directions.
#[derive(Clone, Copy, Debug, PartialEq, Eq, Structural)]
pub struct Vec2Fx {
    pub x: i64,
    pub y: i64,
}

/// Dot product of two vectors, as a mathematical integer.
pub open spec fn dot3(a: Vec3Fx, b: Vec3Fx) -> int {
    a.x * b.x + a.y * b.y + a.z * b.z
}

/// Dot product over raw integer coordinates, for statements about
/// vectors whose components exceed the executable range.
pub open spec fn sdot(ax: int, ay: int, az: int, bx: int, by: int, bz: int) -> int {
    ax * bx + ay * by + az * bz
}

/// Squared length of a vector.
pub open spec fn norm_sq(v: Vec3Fx) -> int {
    dot3(v, v)
}

/// Every coordinate within `b` in magnitude.
pub open spec fn vec3_bounded(v: Vec3Fx, b: int) -> bool {
    mag(v.x as int) <= b && mag(v.y as int) <= b && mag(v.z as int) <= b
}

/// Largest coordinate accepted in a direction or surface normal. A
/// unit normal is stored with coordinates near `crate::math::SCALE`,
/// an order of magnitude below this bound.
pub const NORMAL_BOUND: i64 = 10000;

/// A usable surface normal: nonzero and with every coordinate within
/// `NORMAL_BOUND`.
pub open spec fn normal_wf(n: Vec3Fx) -> bool {
    vec3_bounded(n, NORMAL_BOUND as int) && norm_sq(n) > 0
}

/// The magnitude of a product is the product of the magnitudes.
pub proof fn lemma_mag_mul(a: int, b: int)
    ensures
        mag(a * b) == mag(a) * mag(b),
{
    assert(mag(a * b) == mag(a) * mag(b)) by (nonlinear_arith);
}

/// A dot product of bounded vectors is bounded by three times the
/// product of the coordinate bounds.
pub proof fn lemma_dot3_bound(a: Vec3Fx, b: Vec3Fx, ba: int, bb: int)
    requires
        vec3_bounded(a, ba),
        vec3_bounded(b, bb),
        0 <= ba,
        0 <= bb,
    ensures
        mag(dot3(a, b)) <= 3 * ba * bb,
        mag(a.x * b.x) <= ba * bb,
        mag(a.y * b.y) <= ba * bb,
        mag(a.z * b.z) <= ba * bb,
{
    lemma_mag_mul(a.x as int, b.x as int);
    lemma_mag_mul(a.y as int, b.y as int);
    lemma_mag_mul(a.z as int, b.z as int);
    assert(mag(a.x as int) * mag(b.x as int) <= ba * bb) by (nonlinear_arith)
        requires
            0 <= mag(a.x as int) <= ba && 0 <= mag(b.x as int) <= bb,
    ;
    assert(mag(a.y as int) * mag(b.y as int) <= ba * bb) by (nonlinear_arith)
        requires
            0 <= mag(a.y as int) <= ba && 0 <= mag(b.y as int) <= bb,
    ;
    assert(mag(a.z as int) * mag(b.z as int) <= ba * bb) by (nonlinear_arith)
        requires
            0 <= mag(a.z as int) <= ba && 0 <= mag(b.z as int) <= bb,
    ;
    assert(ba * bb + ba * bb + ba * bb == 3 * ba * bb) by (nonlinear_arith);
}

/// A vector's squared length is nonnegative, and zero only for the
/// zero vector.
pub proof fn lemma_norm_sq_nonneg(v: Vec3Fx)
    ensures
        norm_sq(v) >= 0,
        norm_sq(v) == 0 <==> v.x == 0 && v.y == 0 && v.z == 0,
{
    assert(v.x * v.x >= 0 && v.y * v.y >= 0 && v.z * v.z >= 0) by (nonlinear_arith);
    assert(v.x != 0 ==> v.x * v.x > 0) by (nonlinear_arith);
    assert(v.y != 0 ==> v.y * v.y > 0) by (nonlinear_arith);
    assert(v.z != 0 ==> v.z * v.z > 0) by (nonlinear_arith);
}

/// Rejecting `v` from `n` in scaled form — multiplying `v` by
/// `norm_sq(n)` before subtracting the normal component — leaves a
/// vector exactly orthogonal to `n`.
pub proof fn lemma_reject_scaled_orthogonal(v: Vec3Fx, n: Vec3Fx)
    ensures
        sdot(
            norm_sq(n) * v.x - dot3(v, n) * n.x,
            norm_sq(n) * v.y - dot3(v, n) * n.y,
            norm_sq(n) * v.z - dot3(v, n) * n.z,
            n.x as int,
            n.y as int,
            n.z as int,
        ) == 0,
{
    let nn = norm_sq(n);
    let vn = dot3(v, n);
    lemma_scaled_reject_expand(
        nn,
        vn,
        v.x as int,
        v.y as int,
        v.z as int,
        n.x as int,
        n.y as int,
        n.z as int,
    );
    assert(nn * vn == vn * nn) by (nonlinear_arith);
}

/// Ring identity behind `lemma_reject_scaled_orthogonal`, stated over
/// opaque integers so the solver works on one distribution at a time.
proof fn lemma_scaled_reject_expand(
    nn: int,
    vn: int,
    vx: int,
    vy: int,
    vz: int,
    nx: int,
    ny: int,
    nz: int,
)
    ensures
        (nn * vx - vn * nx) * nx + (nn * vy - vn * ny) * ny + (nn * vz - vn * nz) * nz == nn * (vx
            * nx + vy * ny + vz * nz) - vn * (nx * nx + ny * ny + nz * nz),
{
    assert((nn * vx - vn * nx) * nx == nn * (vx * nx) - vn * (nx * nx)) by (nonlinear_arith);
    assert((nn * vy - vn * ny) * ny == nn * (vy * ny) - vn * (ny * ny)) by (nonlinear_arith);
    assert((nn * vz - vn * nz) * nz == nn * (vz * nz) - vn * (nz * nz)) by (nonlinear_arith);
    assert(nn * (vx * nx) + nn * (vy * ny) + nn * (vz * nz) == nn * (vx * nx + vy * ny + vz
        * nz)) by (nonlinear_arith);
    assert(vn * (nx * nx) + vn * (ny * ny) + vn * (nz * nz) == vn * (nx * nx + ny * ny + nz
        * nz)) by (nonlinear_arith);
}

/// Dot product of two vectors, computed exactly.
pub fn dot3_i64(a: &Vec3Fx, b: &Vec3Fx) -> (r: i64)
    requires
        mag(a.x * b.x) + mag(a.y * b.y) + mag(a.z * b.z) <= i64::MAX,
    ensures
        r == dot3(*a, *b),
{
    proof {
        lemma_mag_mul(a.x as int, b.x as int);
        lemma_mag_mul(a.y as int, b.y as int);
        lemma_mag_mul(a.z as int, b.z as int);
    }
    a.x * b.x + a.y * b.y + a.z * b.z
}

/// Componentwise sum.
pub fn add3(a: &Vec3Fx, b: &Vec3Fx) -> (r: Vec3Fx)
    requires
        i64::MIN <= a.x + b.x <= i64::MAX,
        i64::MIN <= a.y + b.y <= i64::MAX,
        i64::MIN <= a.z + b.z <= i64::MAX,
    ensures
        r.x == a.x + b.x,
        r.y == a.y + b.y,
        r.z == a.z + b.z,
{
    Vec3Fx { x: a.x + b.x, y: a.y + b.y, z: a.z + b.z }
}

/// Each coordinate of `n` multiplied by `k` and divided by `d`,
/// truncating toward zero: the vector `n * (k / d)` in scaled
/// arithmetic.
pub fn vec3_mul_div(n: &Vec3Fx, k: i64, d: i64) -> (r: Vec3Fx)
    requires
        d > 0,
        i64::MIN < n.x * k <= i64::MAX,
        i64::MIN < n.y * k <= i64::MAX,
        i64::MIN < n.z * k <= i64::MAX,
    ensures
        r.x == div_tz(n.x * k, d as int),
        r.y == div_tz(n.y * k, d as int),
        r.z == div_tz(n.z * k, d as int),
{
    Vec3Fx {
        x: crate::math::mul_div_i64(n.x, k, d),
        y: crate::math::mul_div_i64(n.y, k, d),
        z: crate::math::mul_div_i64(n.z, k, d),
    }
}

} // verus!
