//! Contact resolution for the kinematic controller: positional
//! correction out of penetrating contacts, then one velocity
//! correction per manifold — a slope snap on climbable surfaces, a
//! velocity rejection on walls, or a speculative-contact impulse when
//! penetration is only predicted.

use vstd::prelude::*;

verus! {

use crate::math::{div_tz, mag, max_i, min_i, div_i64, mul_div_i64, lemma_div_tz_basics,
    max_i64, min_i64};
use crate::vector::{Vec3Fx, dot3, norm_sq, normal_wf, vec3_bounded, dot3_i64, lemma_dot3_bound,
    lemma_mag_mul, lemma_norm_sq_nonneg, NORMAL_BOUND};
use crate::grounded::{MaxSlopeAngle, max_slope_wf, within_slope, within_max_slope};
use crate::motion::{TimeDelta, time_delta_wf};

/// Largest velocity coordinate the resolver accepts, in thousandths of
/// a unit per second.
pub const RESOLVE_VEL_LIMIT: i64 = 1000000000;

/// Largest position coordinate the resolver accepts, in thousandths of
/// a unit.
pub const POS_LIMIT: i64 = 1000000000000;

/// Largest contact-point penetration accepted, in thousandths of a
/// unit, in either direction.
pub const PEN_BOUND: i64 = 1000000;

/// Most contact points accepted in one manifold.
pub const POINTS_LIMIT: usize = 64;

/// Most manifolds accepted in one contact pair.
pub const MANIFOLDS_LIMIT: usize = 8;

/// One contact point: how deep the shapes interpenetrate there, in
/// thousandths of a unit. Nonpositive for a speculative contact whose
/// penetration is only predicted.
#[derive(Clone, Copy, Debug, PartialEq, Eq, Structural)]
pub struct ContactPoint {
    pub penetration: i64,
}

/// One contact manifold from the narrow phase: a shared surface
/// normal, as reported between the two colliders, and the contact
/// points under it.
#[derive(Clone, Debug)]
pub struct ContactManifold {
    pub normal: Vec3Fx,
    pub points: Vec<ContactPoint>,
}

/// A usable manifold: a well-formed normal and a nonempty, bounded
/// point list with bounded penetrations.
pub open spec fn manifold_wf(m: ContactManifold) -> bool {
    &&& normal_wf(m.normal)
    &&& 1 <= m.points@.len() <= POINTS_LIMIT
    &&& forall|i: int|
        0 <= i < m.points@.len() ==> mag((#[trigger] m.points@[i]).penetration as int) <= PEN_BOUND
}

/// The manifold normal as seen from the controller's side: flipped
/// when the controller is the first body of the pair, so that it
/// points from the obstacle toward the controller.
pub open spec fn oriented_normal(n: Vec3Fx, controller_is_first: bool) -> Vec3Fx {
    if controller_is_first {
        Vec3Fx { x: (-n.x) as i64, y: (-n.y) as i64, z: (-n.z) as i64 }
    } else {
        n
    }
}

/// Orienting a well-formed normal keeps it well-formed.
pub proof fn lemma_oriented_normal_wf(n: Vec3Fx, controller_is_first: bool)
    requires
        normal_wf(n),
    ensures
        normal_wf(oriented_normal(n, controller_is_first)),
        norm_sq(oriented_normal(n, controller_is_first)) == norm_sq(n),
{
    if controller_is_first {
        let o = oriented_normal(n, controller_is_first);
        assert(o.x == -n.x && o.y == -n.y && o.z == -n.z);
        assert((-n.x) * (-n.x) == n.x * n.x) by (nonlinear_arith);
        assert((-n.y) * (-n.y) == n.y * n.y) by (nonlinear_arith);
        assert((-n.z) * (-n.z) == n.z * n.z) by (nonlinear_arith);
    }
}

/// Flip the manifold normal onto the controller's side.
pub fn orient_normal(n: &Vec3Fx, controller_is_first: bool) -> (r: Vec3Fx)
    requires
        normal_wf(*n),
    ensures
        r == oriented_normal(*n, controller_is_first),
{
    if controller_is_first {
        Vec3Fx { x: -n.x, y: -n.y, z: -n.z }
    } else {
        *n
    }
}

/// Whether the contact surface is climbable: a maximum slope must be
/// configured and the normal must be within it.
pub open spec fn climbable_spec(n: Vec3Fx, max_slope: Option<MaxSlopeAngle>) -> bool {
    match max_slope {
        Option::None => false,
        Option::Some(m) => within_slope(n, m.0 as int),
    }
}

/// Decide whether the surface with normal `n` is climbable under the
/// configured maximum slope.
pub fn is_climbable(n: &Vec3Fx, max_slope: &Option<MaxSlopeAngle>) -> (r: bool)
    requires
        normal_wf(*n),
        max_slope is Some ==> max_slope_wf(max_slope->0),
    ensures
        r == climbable_spec(*n, *max_slope),
{
    match *max_slope {
        Option::None => false,
        Option::Some(m) => within_max_slope(n, m.0),
    }
}

/// A climbable surface under a well-formed maximum slope has a normal
/// pointing strictly upward.
pub proof fn lemma_climbable_points_up(n: Vec3Fx, max_slope: Option<MaxSlopeAngle>)
    requires
        normal_wf(n),
        max_slope is Some ==> max_slope_wf(max_slope->0),
        climbable_spec(n, max_slope),
    ensures
        n.y >= 1,
{
    let m = max_slope->0;
    assert(max_slope is Some);
    assert(m.0 >= 1);
    assert(within_slope(n, m.0 as int));
    assert(norm_sq(n) >= 1);
    if n.y == 0 {
        assert(n.y * n.y == 0) by (nonlinear_arith)
            requires
                n.y == 0,
        ;
        assert((n.y * n.y) * 1000000 == 0);
        assert((m.0 * m.0) * norm_sq(n) >= 1 * norm_sq(n)) by (nonlinear_arith)
            requires
                m.0 >= 1 && norm_sq(n) >= 0,
        ;
        assert(false);
    }
}

/// The push a contact point adds to one position coordinate: the
/// normal coordinate scaled by the penetration depth, for penetrating
/// points only.
pub open spec fn point_push(p: ContactPoint, n_c: int) -> int {
    if p.penetration > 0 {
        div_tz(n_c * p.penetration, 1000)
    } else {
        0
    }
}

/// Total push of a manifold's points on one position coordinate.
pub open spec fn pen_push_sum(points: Seq<ContactPoint>, n_c: int) -> int
    decreases points.len(),
{
    if points.len() == 0 {
        0
    } else {
        point_push(points[0], n_c) + pen_push_sum(points.drop_first(), n_c)
    }
}

/// One point's push is within ten units for a bounded normal and
/// penetration.
proof fn lemma_point_push_bound(p: ContactPoint, n_c: int)
    requires
        mag(n_c) <= NORMAL_BOUND,
        mag(p.penetration as int) <= PEN_BOUND,
    ensures
        mag(point_push(p, n_c)) <= 10000000,
        mag(n_c * p.penetration) <= 10000000000,
{
    lemma_mag_mul(n_c, p.penetration as int);
    assert(mag(n_c) * mag(p.penetration as int) <= 10000000000int) by (nonlinear_arith)
        requires
            0 <= mag(n_c) <= 10000 && 0 <= mag(p.penetration as int) <= 1000000,
    ;
    if p.penetration > 0 {
        lemma_div_tz_basics(n_c * p.penetration, 1000);
    }
}

/// Push the controller out of every penetrating contact point: each
/// point with positive penetration translates the position along the
/// oriented normal by its depth, and the pushes accumulate.
pub fn correct_position(position: &mut Vec3Fx, n: &Vec3Fx, points: &Vec<ContactPoint>)
    requires
        normal_wf(*n),
        1 <= points@.len() <= POINTS_LIMIT,
        forall|i: int|
            0 <= i < points@.len() ==> mag((#[trigger] points@[i]).penetration as int)
                <= PEN_BOUND,
        vec3_bounded(*old(position), POS_LIMIT as int),
    ensures
        final(position).x == old(position).x + pen_push_sum(points@, n.x as int),
        final(position).y == old(position).y + pen_push_sum(points@, n.y as int),
        final(position).z == old(position).z + pen_push_sum(points@, n.z as int),
{
    let ghost all = points@;
    let ghost tx = pen_push_sum(all, n.x as int);
    let ghost ty = pen_push_sum(all, n.y as int);
    let ghost tz = pen_push_sum(all, n.z as int);
    proof {
        assert(all.skip(0) =~= all);
    }
    let mut i: usize = 0;
    while i < points.len()
        invariant
            0 <= i <= all.len(),
            all.len() <= POINTS_LIMIT,
            all == points@,
            normal_wf(*n),
            forall|j: int|
                0 <= j < all.len() ==> mag((#[trigger] all[j]).penetration as int) <= PEN_BOUND,
            mag(position.x as int) <= POS_LIMIT + i * 10000000,
            mag(position.y as int) <= POS_LIMIT + i * 10000000,
            mag(position.z as int) <= POS_LIMIT + i * 10000000,
            position.x + pen_push_sum(all.skip(i as int), n.x as int) == old(position).x + tx,
            position.y + pen_push_sum(all.skip(i as int), n.y as int) == old(position).y + ty,
            position.z + pen_push_sum(all.skip(i as int), n.z as int) == old(position).z + tz,
            tx == pen_push_sum(all, n.x as int),
            ty == pen_push_sum(all, n.y as int),
            tz == pen_push_sum(all, n.z as int),
        decreases all.len() - i,
    {
        let p = points[i];
        proof {
            assert(all.skip(i as int).drop_first() =~= all.skip(i as int + 1));
            assert(all.skip(i as int)[0] == all[i as int]);
            lemma_point_push_bound(p, n.x as int);
            lemma_point_push_bound(p, n.y as int);
            lemma_point_push_bound(p, n.z as int);
        }
        if p.penetration > 0 {
            let px = mul_div_i64(n.x, p.penetration, 1000);
            let py = mul_div_i64(n.y, p.penetration, 1000);
            let pz = mul_div_i64(n.z, p.penetration, 1000);
            position.x = position.x + px;
            position.y = position.y + py;
            position.z = position.z + pz;
        }
        i = i + 1;
    }
    proof {
        assert(all.skip(all.len() as int) =~= Seq::<ContactPoint>::empty());
    }
}

/// The deepest penetration among a manifold's contact points.
pub open spec fn deepest_pen(points: Seq<ContactPoint>) -> int
    recommends
        points.len() >= 1,
    decreases points.len(),
{
    if points.len() <= 1 {
        points[0].penetration as int
    } else {
        max_i(deepest_pen(points.drop_last()), points.last().penetration as int)
    }
}

/// Find the deepest penetration in a nonempty point list.
pub fn deepest_penetration(points: &Vec<ContactPoint>) -> (r: i64)
    requires
        1 <= points@.len(),
        forall|i: int|
            0 <= i < points@.len() ==> mag((#[trigger] points@[i]).penetration as int)
                <= PEN_BOUND,
    ensures
        r == deepest_pen(points@),
        mag(r as int) <= PEN_BOUND,
{
    let ghost all = points@;
    let mut best: i64 = points[0].penetration;
    let mut i: usize = 1;
    proof {
        assert(all.take(1).len() == 1);
        assert(all.take(1)[0] == all[0]);
    }
    while i < points.len()
        invariant
            1 <= i <= all.len(),
            all == points@,
            forall|j: int|
                0 <= j < all.len() ==> mag((#[trigger] all[j]).penetration as int) <= PEN_BOUND,
            best == deepest_pen(all.take(i as int)),
            mag(best as int) <= PEN_BOUND,
        decreases all.len() - i,
    {
        let p = points[i].penetration;
        proof {
            assert(all.take(i as int + 1).drop_last() =~= all.take(i as int));
            assert(all.take(i as int + 1).last() == all[i as int]);
            assert(all.take(i as int + 1).len() == i as int + 1 > 1);
        }
        best = max_i64(best, p);
        i = i + 1;
    }
    proof {
        assert(all.take(all.len() as int) =~= all);
    }
    best
}


/// The vertical speed after a climbable-slope snap: the value implied
/// by the horizontal speed along the slope's in-plane direction, never
/// below the current vertical speed. For a unit normal the implied
/// value is `-(v . d) * tan(slope)` with `d` the normalized horizontal
/// part of the normal; over scaled integers both square roots cancel
/// into the single division by `n.y`.
pub open spec fn slope_snap_vy(v: Vec3Fx, n: Vec3Fx) -> int {
    max_i(v.y as int, div_tz(-(v.x * n.x + v.z * n.z), n.y as int))
}

/// Snap the vertical velocity on a penetrating climbable slope so the
/// controller follows the surface, never slowing an ascent already
/// faster than the slope implies. Horizontal velocity is untouched.
pub fn snap_to_slope(velocity: &mut Vec3Fx, n: &Vec3Fx)
    requires
        normal_wf(*n),
        n.y >= 1,
        vec3_bounded(*old(velocity), RESOLVE_VEL_LIMIT as int),
    ensures
        final(velocity).x == old(velocity).x,
        final(velocity).z == old(velocity).z,
        final(velocity).y == slope_snap_vy(*old(velocity), *n),
{
    proof {
        lemma_mag_mul(velocity.x as int, n.x as int);
        lemma_mag_mul(velocity.z as int, n.z as int);
        assert(mag(velocity.x as int) * mag(n.x as int) <= 10000000000000int)
            by (nonlinear_arith)
            requires
                0 <= mag(velocity.x as int) <= RESOLVE_VEL_LIMIT && 0 <= mag(n.x as int)
                    <= NORMAL_BOUND,
        ;
        assert(mag(velocity.z as int) * mag(n.z as int) <= 10000000000000int)
            by (nonlinear_arith)
            requires
                0 <= mag(velocity.z as int) <= RESOLVE_VEL_LIMIT && 0 <= mag(n.z as int)
                    <= NORMAL_BOUND,
        ;
    }
    let px: i64 = velocity.x * n.x;
    let pz: i64 = velocity.z * n.z;
    let a: i64 = -(px + pz);
    let q: i64 = div_i64(a, n.y);
    velocity.y = max_i64(velocity.y, q);
}

/// On a climbable slope the snapped vertical speed is at least the
/// slope-implied value and never below the old one, and the implied
/// value matches the exact ratio to within one truncation step.
pub proof fn lemma_slope_snap_keeps_up_speed(v: Vec3Fx, n: Vec3Fx)
    requires
        normal_wf(n),
        n.y >= 1,
    ensures
        slope_snap_vy(v, n) >= v.y,
        slope_snap_vy(v, n) >= div_tz(-(v.x * n.x + v.z * n.z), n.y as int),
        mag((-(v.x * n.x + v.z * n.z)) - div_tz(-(v.x * n.x + v.z * n.z), n.y as int) * n.y)
            < n.y,
{
    lemma_div_tz_basics(-(v.x * n.x + v.z * n.z), n.y as int);
}

/// One coordinate of the velocity after rejecting it from `n`: the
/// scaled normal component is subtracted, with a single truncating
/// division by the squared normal length.
pub open spec fn reject_comp(v_c: int, vn: int, n_c: int, nn: int) -> int {
    v_c - div_tz(vn * n_c, nn)
}

/// Reject the velocity along an unclimbable surface's normal so the
/// controller slides along the wall. A controller already moving away
/// from the surface is left alone.
pub fn reject_velocity(velocity: &mut Vec3Fx, n: &Vec3Fx)
    requires
        normal_wf(*n),
        vec3_bounded(*old(velocity), RESOLVE_VEL_LIMIT as int),
    ensures
        dot3(*old(velocity), *n) > 0 ==> *final(velocity) == *old(velocity),
        dot3(*old(velocity), *n) <= 0 ==> {
            &&& final(velocity).x == reject_comp(old(velocity).x as int,
                dot3(*old(velocity), *n), n.x as int, norm_sq(*n))
            &&& final(velocity).y == reject_comp(old(velocity).y as int,
                dot3(*old(velocity), *n), n.y as int, norm_sq(*n))
            &&& final(velocity).z == reject_comp(old(velocity).z as int,
                dot3(*old(velocity), *n), n.z as int, norm_sq(*n))
        },
{
    proof {
        lemma_norm_sq_nonneg(*n);
        lemma_dot3_bound(*velocity, *n, RESOLVE_VEL_LIMIT as int, NORMAL_BOUND as int);
        lemma_dot3_bound(*n, *n, NORMAL_BOUND as int, NORMAL_BOUND as int);
    }
    let vn: i64 = dot3_i64(velocity, n);
    if vn > 0 {
        return ;
    }
    let nn: i64 = dot3_i64(n, n);
    proof {
        lemma_mag_mul(vn as int, n.x as int);
        lemma_mag_mul(vn as int, n.y as int);
        lemma_mag_mul(vn as int, n.z as int);
        lemma_reject_product_bound(vn as int, n.x as int);
        lemma_reject_product_bound(vn as int, n.y as int);
        lemma_reject_product_bound(vn as int, n.z as int);
        lemma_div_tz_basics(vn * n.x, nn as int);
        lemma_div_tz_basics(vn * n.y, nn as int);
        lemma_div_tz_basics(vn * n.z, nn as int);
    }
    let qx: i64 = mul_div_i64(vn, n.x, nn);
    let qy: i64 = mul_div_i64(vn, n.y, nn);
    let qz: i64 = mul_div_i64(vn, n.z, nn);
    velocity.x = velocity.x - qx;
    velocity.y = velocity.y - qy;
    velocity.z = velocity.z - qz;
}

/// The product of a bounded dot product and a normal coordinate stays
/// within `i64`.
proof fn lemma_reject_product_bound(vn: int, n_c: int)
    requires
        mag(vn) <= 30000000000000,
        mag(n_c) <= NORMAL_BOUND,
    ensures
        mag(vn * n_c) <= 300000000000000000,
{
    lemma_mag_mul(vn, n_c);
    assert(mag(vn) * mag(n_c) <= 300000000000000000int) by (nonlinear_arith)
        requires
            0 <= mag(vn) <= 30000000000000int && 0 <= mag(n_c) <= 10000int,
    ;
}


/// Ring identity behind `lemma_reject_residual_bound`: with each
/// truncation error `e` defined by its division, the squared normal
/// length times the residual normal speed collapses to the weighted
/// error sum.
proof fn lemma_reject_residual_alg(
    vn: int,
    nn: int,
    nx: int,
    ny: int,
    nz: int,
    qx: int,
    qy: int,
    qz: int,
    ex: int,
    ey: int,
    ez: int,
)
    requires
        ex == vn * nx - qx * nn,
        ey == vn * ny - qy * nn,
        ez == vn * nz - qz * nn,
        nn == nx * nx + ny * ny + nz * nz,
    ensures
        nn * (vn - (qx * nx + qy * ny + qz * nz)) == ex * nx + ey * ny + ez * nz,
{
    assert(nn * (qx * nx) == (vn * nx - ex) * nx) by (nonlinear_arith)
        requires
            ex == vn * nx - qx * nn,
    ;
    assert(nn * (qy * ny) == (vn * ny - ey) * ny) by (nonlinear_arith)
        requires
            ey == vn * ny - qy * nn,
    ;
    assert(nn * (qz * nz) == (vn * nz - ez) * nz) by (nonlinear_arith)
        requires
            ez == vn * nz - qz * nn,
    ;
    assert((vn * nx - ex) * nx == vn * (nx * nx) - ex * nx) by (nonlinear_arith);
    assert((vn * ny - ey) * ny == vn * (ny * ny) - ey * ny) by (nonlinear_arith);
    assert((vn * nz - ez) * nz == vn * (nz * nz) - ez * nz) by (nonlinear_arith);
    assert(vn * (nx * nx) + vn * (ny * ny) + vn * (nz * nz) == vn * (nx * nx + ny * ny + nz
        * nz)) by (nonlinear_arith);
    assert(nn * (vn - (qx * nx + qy * ny + qz * nz)) == nn * vn - (nn * (qx * nx) + nn * (qy
        * ny) + nn * (qz * nz))) by (nonlinear_arith);
    assert(nn * vn == vn * nn) by (nonlinear_arith);
    assert(vn * (nx * nx + ny * ny + nz * nz) == vn * nn) by (nonlinear_arith)
        requires
            nn == nx * nx + ny * ny + nz * nz,
    ;
}

/// After a wall rejection the velocity's component along the normal is
/// zero up to fixed-point truncation: its dot product with the normal
/// is strictly smaller than the sum of the normal's coordinate
/// magnitudes — below one thousandth of a unit per second for a unit
/// normal. The exact scaled rejection has dot product exactly zero
/// (`crate::vector::lemma_reject_scaled_orthogonal`); this bounds what
/// the three truncating divisions can leave behind.
pub proof fn lemma_reject_residual_bound(v: Vec3Fx, n: Vec3Fx)
    requires
        normal_wf(n),
    ensures
        ({
            let vn = dot3(v, n);
            let nn = norm_sq(n);
            let rx = reject_comp(v.x as int, vn, n.x as int, nn);
            let ry = reject_comp(v.y as int, vn, n.y as int, nn);
            let rz = reject_comp(v.z as int, vn, n.z as int, nn);
            mag(crate::vector::sdot(rx, ry, rz, n.x as int, n.y as int, n.z as int)) < mag(
                n.x as int) + mag(n.y as int) + mag(n.z as int)
        }),
{
    let vn = dot3(v, n);
    let nn = norm_sq(n);
    let nx = n.x as int;
    let ny = n.y as int;
    let nz = n.z as int;
    let qx = div_tz(vn * nx, nn);
    let qy = div_tz(vn * ny, nn);
    let qz = div_tz(vn * nz, nn);
    let ex = vn * nx - qx * nn;
    let ey = vn * ny - qy * nn;
    let ez = vn * nz - qz * nn;
    lemma_norm_sq_nonneg(n);
    lemma_div_tz_basics(vn * nx, nn);
    lemma_div_tz_basics(vn * ny, nn);
    lemma_div_tz_basics(vn * nz, nn);
    assert(mag(ex) <= nn - 1);
    assert(mag(ey) <= nn - 1);
    assert(mag(ez) <= nn - 1);
    lemma_reject_residual_alg(vn, nn, nx, ny, nz, qx, qy, qz, ex, ey, ez);
    let s = mag(nx) + mag(ny) + mag(nz);
    assert(s >= 1);
    lemma_mag_mul(ex, nx);
    lemma_mag_mul(ey, ny);
    lemma_mag_mul(ez, nz);
    assert(mag(ex) * mag(nx) <= (nn - 1) * mag(nx)) by (nonlinear_arith)
        requires
            0 <= mag(ex) <= nn - 1 && 0 <= mag(nx),
    ;
    assert(mag(ey) * mag(ny) <= (nn - 1) * mag(ny)) by (nonlinear_arith)
        requires
            0 <= mag(ey) <= nn - 1 && 0 <= mag(ny),
    ;
    assert(mag(ez) * mag(nz) <= (nn - 1) * mag(nz)) by (nonlinear_arith)
        requires
            0 <= mag(ez) <= nn - 1 && 0 <= mag(nz),
    ;
    assert((nn - 1) * mag(nx) + (nn - 1) * mag(ny) + (nn - 1) * mag(nz) == (nn - 1) * s)
        by (nonlinear_arith)
        requires
            s == mag(nx) + mag(ny) + mag(nz),
    ;
    let rx = reject_comp(v.x as int, vn, nx, nn);
    let ry = reject_comp(v.y as int, vn, ny, nn);
    let rz = reject_comp(v.z as int, vn, nz, nn);
    let d = vn - (qx * nx + qy * ny + qz * nz);
    assert((v.x - qx) * nx == v.x * nx - qx * nx) by (nonlinear_arith);
    assert((v.y - qy) * ny == v.y * ny - qy * ny) by (nonlinear_arith);
    assert((v.z - qz) * nz == v.z * nz - qz * nz) by (nonlinear_arith);
    assert(crate::vector::sdot(rx, ry, rz, nx, ny, nz) == d);
    assert(mag(nn * d) == nn * mag(d)) by {
        lemma_mag_mul(nn, d);
    }
    assert(nn * mag(d) <= (nn - 1) * s);
    assert(mag(d) < s) by (nonlinear_arith)
        requires
            nn >= 1 && s >= 1 && nn * mag(d) <= (nn - 1) * s && mag(d) >= 0,
    ;
}

/// The impulse magnitude of a speculative contact: the normal speed
/// less the predicted penetration per step time.
pub open spec fn speculative_impulse(v: Vec3Fx, n: Vec3Fx, deepest: int, num: int, den: int)
    -> int {
    div_tz(dot3(v, n), 1000) - div_tz(deepest * den, num)
}

/// The velocity after a speculative-contact response: nothing changes
/// when the controller moves away from the surface; otherwise the
/// impulse along the normal is applied — only its upward vertical part
/// on a climbable slope, and with the vertical part clamped to
/// nonnegative on a wall so the correction cannot climb it.
pub open spec fn speculative_velocity(
    v: Vec3Fx,
    n: Vec3Fx,
    climbable: bool,
    deepest: int,
    num: int,
    den: int,
) -> (int, int, int) {
    if dot3(v, n) > 0 {
        (v.x as int, v.y as int, v.z as int)
    } else {
        let m = speculative_impulse(v, n, deepest, num, den);
        let iy = div_tz(m * n.y, 1000);
        if climbable {
            (v.x as int, v.y - min_i(iy, 0), v.z as int)
        } else {
            (v.x - div_tz(m * n.x, 1000), v.y - max_i(iy, 0), v.z - div_tz(m * n.z, 1000))
        }
    }
}

/// Push back the part of the velocity that would penetrate within the
/// next step, for a contact the narrow phase predicted but that does
/// not yet penetrate. On a climbable slope only an upward vertical
/// correction is applied; on a wall the whole impulse is applied with
/// its vertical part clamped so the correction cannot push the
/// controller up the wall.
pub fn speculative_response(
    velocity: &mut Vec3Fx,
    n: &Vec3Fx,
    deepest: i64,
    climbable: bool,
    dt: &TimeDelta,
)
    requires
        normal_wf(*n),
        vec3_bounded(*old(velocity), RESOLVE_VEL_LIMIT as int),
        time_delta_wf(*dt),
        mag(deepest as int) <= PEN_BOUND,
    ensures
        ({
            let after = speculative_velocity(*old(velocity), *n, climbable, deepest as int,
                dt.num as int, dt.den as int);
            final(velocity).x == after.0 && final(velocity).y == after.1 && final(velocity).z
                == after.2
        }),
        climbable ==> final(velocity).y >= old(velocity).y,
        !climbable && dot3(*old(velocity), *n) <= 0 ==> final(velocity).y <= old(velocity).y,
{
    proof {
        lemma_dot3_bound(*velocity, *n, RESOLVE_VEL_LIMIT as int, NORMAL_BOUND as int);
    }
    let vn: i64 = dot3_i64(velocity, n);
    if vn > 0 {
        return ;
    }
    proof {
        lemma_div_tz_basics(vn as int, 1000);
        lemma_mag_mul(deepest as int, dt.den as int);
        assert(mag(deepest as int) * mag(dt.den as int) <= 1000000000000int) by (nonlinear_arith)
            requires
                0 <= mag(deepest as int) <= 1000000int && 0 <= mag(dt.den as int) <= 1000000int,
        ;
        lemma_div_tz_basics(deepest * dt.den, dt.num as int);
    }
    let vnm: i64 = div_i64(vn, 1000);
    let dpart: i64 = mul_div_i64(deepest, dt.den, dt.num);
    let m: i64 = vnm - dpart;
    proof {
        lemma_speculative_product_bound(m as int, n.x as int);
        lemma_speculative_product_bound(m as int, n.y as int);
        lemma_speculative_product_bound(m as int, n.z as int);
        lemma_div_tz_basics(m * n.x, 1000);
        lemma_div_tz_basics(m * n.y, 1000);
        lemma_div_tz_basics(m * n.z, 1000);
    }
    let iy: i64 = mul_div_i64(m, n.y, 1000);
    if climbable {
        velocity.y = velocity.y - min_i64(iy, 0);
    } else {
        let ix: i64 = mul_div_i64(m, n.x, 1000);
        let iz: i64 = mul_div_i64(m, n.z, 1000);
        velocity.x = velocity.x - ix;
        velocity.y = velocity.y - max_i64(iy, 0);
        velocity.z = velocity.z - iz;
    }
}

/// The product of a bounded impulse magnitude and a normal coordinate
/// stays within `i64`.
proof fn lemma_speculative_product_bound(m: int, n_c: int)
    requires
        mag(m) <= 32000000000000,
        mag(n_c) <= NORMAL_BOUND,
    ensures
        mag(m * n_c) <= 320000000000000000,
{
    lemma_mag_mul(m, n_c);
    assert(mag(m) * mag(n_c) <= 320000000000000000int) by (nonlinear_arith)
        requires
            0 <= mag(m) <= 32000000000000int && 0 <= mag(n_c) <= 10000int,
    ;
}


/// The velocity after one manifold's velocity correction, keyed on
/// whether the contact already penetrates and whether its surface is
/// climbable. Exactly one of slope snap, wall rejection or speculative
/// impulse applies.
pub open spec fn resolved_velocity(
    v: Vec3Fx,
    n: Vec3Fx,
    climbable: bool,
    deepest: int,
    num: int,
    den: int,
) -> (int, int, int) {
    if deepest > 0 {
        if climbable {
            (v.x as int, slope_snap_vy(v, n), v.z as int)
        } else if dot3(v, n) > 0 {
            (v.x as int, v.y as int, v.z as int)
        } else {
            (
                reject_comp(v.x as int, dot3(v, n), n.x as int, norm_sq(n)),
                reject_comp(v.y as int, dot3(v, n), n.y as int, norm_sq(n)),
                reject_comp(v.z as int, dot3(v, n), n.z as int, norm_sq(n)),
            )
        }
    } else {
        speculative_velocity(v, n, climbable, deepest, num, den)
    }
}

/// The whole effect of one manifold on the controller state: the
/// positional correction always applies; the velocity correction is
/// skipped when the other body is dynamic.
pub open spec fn manifold_step(
    pos: Vec3Fx,
    vel: Vec3Fx,
    max_slope: Option<MaxSlopeAngle>,
    m: ContactManifold,
    controller_is_first: bool,
    other_is_dynamic: bool,
    num: int,
    den: int,
) -> (Vec3Fx, Vec3Fx) {
    let n = oriented_normal(m.normal, controller_is_first);
    let np = Vec3Fx {
        x: (pos.x + pen_push_sum(m.points@, n.x as int)) as i64,
        y: (pos.y + pen_push_sum(m.points@, n.y as int)) as i64,
        z: (pos.z + pen_push_sum(m.points@, n.z as int)) as i64,
    };
    if other_is_dynamic {
        (np, vel)
    } else {
        let t = resolved_velocity(vel, n, climbable_spec(n, max_slope), deepest_pen(m.points@),
            num, den);
        (np, Vec3Fx { x: t.0 as i64, y: t.1 as i64, z: t.2 as i64 })
    }
}

/// Resolve one contact manifold against the controller: push the body
/// out of every penetrating point, then correct the velocity — unless
/// the other body is dynamic, which this resolver leaves to the
/// physics host.
pub fn resolve_manifold(
    position: &mut Vec3Fx,
    velocity: &mut Vec3Fx,
    max_slope: &Option<MaxSlopeAngle>,
    manifold: &ContactManifold,
    controller_is_first: bool,
    other_is_dynamic: bool,
    dt: &TimeDelta,
)
    requires
        manifold_wf(*manifold),
        time_delta_wf(*dt),
        max_slope is Some ==> max_slope_wf(max_slope->0),
        vec3_bounded(*old(position), POS_LIMIT as int),
        vec3_bounded(*old(velocity), RESOLVE_VEL_LIMIT as int),
    ensures
        ({
            let s = manifold_step(*old(position), *old(velocity), *max_slope, *manifold,
                controller_is_first, other_is_dynamic, dt.num as int, dt.den as int);
            *final(position) == s.0 && *final(velocity) == s.1
        }),
{
    let n = orient_normal(&manifold.normal, controller_is_first);
    proof {
        lemma_oriented_normal_wf(manifold.normal, controller_is_first);
    }
    correct_position(position, &n, &manifold.points);
    if other_is_dynamic {
        return ;
    }
    let climbable = is_climbable(&n, max_slope);
    let deepest = deepest_penetration(&manifold.points);
    if deepest > 0 {
        if climbable {
            proof {
                lemma_climbable_points_up(n, *max_slope);
            }
            snap_to_slope(velocity, &n);
        } else {
            reject_velocity(velocity, &n);
        }
    } else {
        speculative_response(velocity, &n, deepest, climbable, dt);
    }
}

/// The controller state after resolving a whole sequence of manifolds
/// in order.
pub open spec fn state_after_manifolds(
    pos: Vec3Fx,
    vel: Vec3Fx,
    max_slope: Option<MaxSlopeAngle>,
    manifolds: Seq<ContactManifold>,
    controller_is_first: bool,
    other_is_dynamic: bool,
    num: int,
    den: int,
) -> (Vec3Fx, Vec3Fx)
    decreases manifolds.len(),
{
    if manifolds.len() == 0 {
        (pos, vel)
    } else {
        let prev = state_after_manifolds(pos, vel, max_slope, manifolds.drop_last(),
            controller_is_first, other_is_dynamic, num, den);
        manifold_step(prev.0, prev.1, max_slope, manifolds.last(), controller_is_first,
            other_is_dynamic, num, den)
    }
}

/// The state after the first `k` manifolds stays within the resolver's
/// executable range.
pub open spec fn state_bounded_prefix(
    pos: Vec3Fx,
    vel: Vec3Fx,
    max_slope: Option<MaxSlopeAngle>,
    manifolds: Seq<ContactManifold>,
    controller_is_first: bool,
    other_is_dynamic: bool,
    num: int,
    den: int,
    k: int,
) -> bool {
    let s = state_after_manifolds(pos, vel, max_slope, manifolds.take(k), controller_is_first,
        other_is_dynamic, num, den);
    vec3_bounded(s.0, POS_LIMIT as int) && vec3_bounded(s.1, RESOLVE_VEL_LIMIT as int)
}

/// Resolve every manifold of one contact pair between the kinematic
/// controller and another body, in order. A controller body that is
/// not kinematic is left untouched, as is the velocity against a
/// dynamic body.
pub fn kinematic_controller_collisions(
    position: &mut Vec3Fx,
    velocity: &mut Vec3Fx,
    max_slope: &Option<MaxSlopeAngle>,
    manifolds: &Vec<ContactManifold>,
    controller_is_first: bool,
    other_is_dynamic: bool,
    controller_is_kinematic: bool,
    dt: &TimeDelta,
)
    requires
        time_delta_wf(*dt),
        max_slope is Some ==> max_slope_wf(max_slope->0),
        manifolds@.len() <= MANIFOLDS_LIMIT,
        forall|i: int| 0 <= i < manifolds@.len() ==> manifold_wf(#[trigger] manifolds@[i]),
        forall|k: int|
            0 <= k <= manifolds@.len() ==> #[trigger] state_bounded_prefix(*old(position),
                *old(velocity), *max_slope, manifolds@, controller_is_first, other_is_dynamic,
                dt.num as int, dt.den as int, k),
    ensures
        !controller_is_kinematic ==> *final(position) == *old(position) && *final(velocity)
            == *old(velocity),
        controller_is_kinematic ==> ({
            let s = state_after_manifolds(*old(position), *old(velocity), *max_slope,
                manifolds@, controller_is_first, other_is_dynamic, dt.num as int, dt.den as int);
            *final(position) == s.0 && *final(velocity) == s.1
        }),
{
    if !controller_is_kinematic {
        return ;
    }
    let ghost all = manifolds@;
    let ghost num = dt.num as int;
    let ghost den = dt.den as int;
    proof {
        assert(all.take(0) =~= Seq::<ContactManifold>::empty());
        assert(state_bounded_prefix(*old(position), *old(velocity), *max_slope, all,
            controller_is_first, other_is_dynamic, num, den, 0));
    }
    let mut i: usize = 0;
    while i < manifolds.len()
        invariant
            0 <= i <= all.len(),
            all == manifolds@,
            num == dt.num as int,
            den == dt.den as int,
            time_delta_wf(*dt),
            max_slope is Some ==> max_slope_wf(max_slope->0),
            forall|j: int| 0 <= j < all.len() ==> manifold_wf(#[trigger] all[j]),
            forall|k: int|
                0 <= k <= all.len() ==> #[trigger] state_bounded_prefix(*old(position),
                    *old(velocity), *max_slope, all, controller_is_first, other_is_dynamic,
                    num, den, k),
            ({
                let s = state_after_manifolds(*old(position), *old(velocity), *max_slope,
                    all.take(i as int), controller_is_first, other_is_dynamic, num, den);
                *position == s.0 && *velocity == s.1
            }),
        decreases all.len() - i,
    {
        proof {
            assert(state_bounded_prefix(*old(position), *old(velocity), *max_slope, all,
                controller_is_first, other_is_dynamic, num, den, i as int));
        }
        let m: &ContactManifold = &manifolds[i];
        resolve_manifold(position, velocity, max_slope, m, controller_is_first,
            other_is_dynamic, dt);
        proof {
            assert(all.take(i as int + 1).drop_last() =~= all.take(i as int));
            assert(all.take(i as int + 1).last() == all[i as int]);
        }
        i = i + 1;
    }
    proof {
        assert(all.take(all.len() as int) =~= all);
    }
}

} // verus!
