//! Grounded classification: a downward shape cast returns a list of
//! hits, and the controller counts as grounded when any hit surface is
//! no steeper than the configured maximum slope.

use vstd::prelude::*;

verus! {

use crate::vector::{Vec3Fx, norm_sq, normal_wf, lemma_dot3_bound, dot3_i64, NORMAL_BOUND};

/// Marker for a controller whose latest shape cast found walkable
/// ground. Present or absent after every step, with no hysteresis.
#[derive(Clone, Copy, Debug, PartialEq, Eq, Structural)]
pub struct Grounded;

/// Steepest climbable slope, stored as the cosine of the angle between
/// its surface normal and world-up, in thousandths. The angle itself
/// stays strictly below a quarter turn, so the cosine is at least 1.
#[derive(Clone, Copy, Debug, PartialEq, Eq, Structural)]
pub struct MaxSlopeAngle(pub i64);

/// A usable maximum slope: a cosine in thousandths, positive so that a
/// climbable surface always has a normal pointing strictly upward.
pub open spec fn max_slope_wf(m: MaxSlopeAngle) -> bool {
    1 <= m.0 <= 1000
}

/// One hit of the downward shape cast, carrying the world-space
/// surface normal of the hit obstacle, pointing away from it.
#[derive(Clone, Copy, Debug, PartialEq, Eq, Structural)]
pub struct ShapeHit {
    pub normal: Vec3Fx,
}

/// The angle between `n` and world-up is within the slope whose cosine
/// is `cos_milli` thousandths: `n.y / |n| >= cos_milli / 1000`, stated
/// without square roots by comparing squares.
pub open spec fn within_slope(n: Vec3Fx, cos_milli: int) -> bool {
    n.y >= 0 && (n.y * n.y) * 1000000 >= (cos_milli * cos_milli) * norm_sq(n)
}

/// Decide whether `n` is within the slope whose cosine is `cos_milli`
/// thousandths.
pub fn within_max_slope(n: &Vec3Fx, cos_milli: i64) -> (r: bool)
    requires
        normal_wf(*n),
        0 <= cos_milli <= 1000,
    ensures
        r == within_slope(*n, cos_milli as int),
{
    if n.y < 0 {
        return false;
    }
    proof {
        crate::vector::lemma_norm_sq_nonneg(*n);
        lemma_dot3_bound(*n, *n, NORMAL_BOUND as int, NORMAL_BOUND as int);
        assert(-10000 <= n.y <= 10000);
        assert(0 <= n.y * n.y <= 100000000int) by (nonlinear_arith)
            requires
                -10000 <= n.y <= 10000,
        ;
        assert(0 <= cos_milli * cos_milli <= 1000000int) by (nonlinear_arith)
            requires
                0 <= cos_milli <= 1000,
        ;
        assert((n.y * n.y) * 1000000 <= 100000000000000int) by (nonlinear_arith)
            requires
                0 <= n.y * n.y <= 100000000int,
        ;
        assert(0 <= (cos_milli * cos_milli) * norm_sq(*n) <= 300000000000000int)
            by (nonlinear_arith)
            requires
                0 <= cos_milli * cos_milli <= 1000000int && 0 <= norm_sq(*n) <= 300000000int,
        ;
    }
    let ysq: i64 = n.y * n.y;
    let nn: i64 = dot3_i64(n, n);
    let csq: i64 = cos_milli * cos_milli;
    ysq * 1000000 >= csq * nn
}

/// The hit at position `i` has a surface within the maximum slope `m`.
pub open spec fn hit_within(hits: Seq<ShapeHit>, i: int, m: MaxSlopeAngle) -> bool {
    within_slope(hits[i].normal, m.0 as int)
}

/// Some hit in the list has a surface within the maximum slope `m`.
pub open spec fn some_hit_within(hits: Seq<ShapeHit>, m: MaxSlopeAngle) -> bool {
    exists|i: int| 0 <= i < hits.len() && #[trigger] hit_within(hits, i, m)
}

/// The grounded classification over a whole hit list: with a maximum
/// slope configured, some hit surface must be within it; with none,
/// any hit at all counts.
pub open spec fn grounded_spec(hits: Seq<ShapeHit>, max_slope: Option<MaxSlopeAngle>) -> bool {
    match max_slope {
        Option::None => hits.len() > 0,
        Option::Some(m) => some_hit_within(hits, m),
    }
}

/// Classify the controller from this step's shape-cast hits: the
/// result says whether the `Grounded` marker is present afterwards.
pub fn update_grounded(hits: &Vec<ShapeHit>, max_slope: &Option<MaxSlopeAngle>) -> (grounded:
    bool)
    requires
        forall|i: int| 0 <= i < hits@.len() ==> normal_wf(#[trigger] hits@[i].normal),
        max_slope is Some ==> max_slope_wf(max_slope->0),
    ensures
        grounded == grounded_spec(hits@, *max_slope),
{
    match *max_slope {
        Option::None => hits.len() > 0,
        Option::Some(m) => {
            let mut i: usize = 0;
            while i < hits.len()
                invariant
                    0 <= i <= hits@.len(),
                    *max_slope == Option::Some(m),
                    max_slope_wf(m),
                    forall|j: int| 0 <= j < hits@.len() ==> normal_wf(#[trigger] hits@[j].normal),
                    forall|j: int| 0 <= j < i ==> !#[trigger] hit_within(hits@, j, m),
                decreases hits@.len() - i,
            {
                if within_max_slope(&hits[i].normal, m.0) {
                    assert(hit_within(hits@, i as int, m));
                    assert(some_hit_within(hits@, m));
                    return true;
                }
                assert(!hit_within(hits@, i as int, m));
                i = i + 1;
            }
            assert(!some_hit_within(hits@, m));
            false
        },
    }
}

/// A flat floor is always walkable: a hit whose normal points straight
/// up satisfies any well-formed maximum slope, so the controller is
/// classified as grounded.
pub proof fn lemma_flat_floor_grounded(hits: Seq<ShapeHit>, m: MaxSlopeAngle, i: int)
    requires
        max_slope_wf(m),
        0 <= i < hits.len(),
        hits[i].normal.x == 0,
        hits[i].normal.z == 0,
        hits[i].normal.y >= 1,
    ensures
        grounded_spec(hits, Option::Some(m)),
{
    let n = hits[i].normal;
    let ysq = n.y * n.y;
    assert(norm_sq(n) == ysq);
    assert(ysq >= 1) by (nonlinear_arith)
        requires
            n.y >= 1 && ysq == n.y * n.y,
    ;
    assert((m.0 * m.0) * ysq <= 1000000 * ysq) by (nonlinear_arith)
        requires
            1 <= m.0 <= 1000 && ysq >= 0,
    ;
    assert(within_slope(n, m.0 as int));
    assert(hit_within(hits, i, m));
    assert(some_hit_within(hits, m));
}

} // verus!
