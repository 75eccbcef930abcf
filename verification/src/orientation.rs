//! Pointer-driven orientation: yaw on the body, pitch on the camera,
//! with the pitch clamped to keep the view from flipping over.
//!
//! Angles are in microradians. A pointer step of one count turns the
//! view by the per-axis sensitivity, also in microradians per count.

use vstd::prelude::*;

verus! {

use crate::math::{clamp_i, mag};

/// Pitch clamp in microradians: 0.01 radians short of a quarter turn,
/// so the camera never looks exactly straight up or down.
pub const PITCH_LIMIT_URAD: i64 = 1560796;

/// Largest pointer delta accepted in one step, in counts.
pub const DELTA_BOUND: i64 = 1000000;

/// Largest sensitivity accepted, in microradians per count.
pub const SENSITIVITY_BOUND: i64 = 1000000;

/// Pointer sensitivity per axis, in microradians per count.
#[derive(Clone, Copy, Debug, PartialEq, Eq, Structural)]
pub struct CameraSensitivity {
    pub x: i64,
    pub y: i64,
}

impl Default for CameraSensitivity {
    /// 3000 and 2000 microradians per count: 0.003 rad of yaw and
    /// 0.002 rad of pitch for each pointer count.
    fn default() -> (s: Self)
        ensures
            s.x == 3000,
            s.y == 2000,
    {
        CameraSensitivity { x: 3000, y: 2000 }
    }
}

/// A usable sensitivity: nonnegative and within the accepted range.
pub open spec fn sensitivity_wf(s: CameraSensitivity) -> bool {
    0 <= s.x <= SENSITIVITY_BOUND && 0 <= s.y <= SENSITIVITY_BOUND
}

/// Yaw of the body and pitch of the camera, in microradians.
#[derive(Clone, Copy, Debug, PartialEq, Eq, Structural)]
pub struct Orientation {
    pub yaw: i64,
    pub pitch: i64,
}

/// A well-formed orientation: the pitch sits inside the clamp.
pub open spec fn orientation_wf(o: Orientation) -> bool {
    -PITCH_LIMIT_URAD <= o.pitch <= PITCH_LIMIT_URAD
}

/// Yaw after a pointer step: the horizontal delta scaled by the
/// sensitivity, turning against the pointer direction; unbounded.
pub open spec fn yaw_after(yaw: int, dx: int, sx: int) -> int {
    yaw - dx * sx
}

/// Pitch after a pointer step: the vertical delta scaled by the
/// sensitivity, then clamped into the pitch limit.
pub open spec fn pitch_after(pitch: int, dy: int, sy: int) -> int {
    clamp_i(pitch - dy * sy, -PITCH_LIMIT_URAD as int, PITCH_LIMIT_URAD as int)
}

/// One orientation step: a zero pointer delta leaves both angles
/// untouched; anything else turns the yaw and clamps the pitch.
pub open spec fn orientation_step(
    yaw: int,
    pitch: int,
    dx: int,
    dy: int,
    sx: int,
    sy: int,
) -> (int, int) {
    if dx == 0 && dy == 0 {
        (yaw, pitch)
    } else {
        (yaw_after(yaw, dx, sx), pitch_after(pitch, dy, sy))
    }
}

/// Apply one pointer step to the orientation.
pub fn mouse_movement(o: &mut Orientation, dx: i64, dy: i64, s: &CameraSensitivity)
    requires
        sensitivity_wf(*s),
        orientation_wf(*old(o)),
        mag(dx as int) <= DELTA_BOUND,
        mag(dy as int) <= DELTA_BOUND,
        i64::MIN <= old(o).yaw - dx * s.x <= i64::MAX,
    ensures
        final(o).yaw == orientation_step(old(o).yaw as int, old(o).pitch as int, dx as int,
            dy as int, s.x as int, s.y as int).0,
        final(o).pitch == orientation_step(old(o).yaw as int, old(o).pitch as int, dx as int,
            dy as int, s.x as int, s.y as int).1,
        orientation_wf(*final(o)),
{
    if dx == 0 && dy == 0 {
        return ;
    }
    proof {
        crate::vector::lemma_mag_mul(dx as int, s.x as int);
        crate::vector::lemma_mag_mul(dy as int, s.y as int);
        assert(mag(dx as int) * mag(s.x as int) <= DELTA_BOUND * SENSITIVITY_BOUND)
            by (nonlinear_arith)
            requires
                0 <= mag(dx as int) <= DELTA_BOUND && 0 <= mag(s.x as int) <= SENSITIVITY_BOUND,
        ;
        assert(mag(dy as int) * mag(s.y as int) <= DELTA_BOUND * SENSITIVITY_BOUND)
            by (nonlinear_arith)
            requires
                0 <= mag(dy as int) <= DELTA_BOUND && 0 <= mag(s.y as int) <= SENSITIVITY_BOUND,
        ;
    }
    let new_yaw: i64 = o.yaw - dx * s.x;
    let raw_pitch: i64 = o.pitch - dy * s.y;
    let new_pitch: i64 = crate::math::clamp_i64(raw_pitch, -PITCH_LIMIT_URAD, PITCH_LIMIT_URAD);
    o.yaw = new_yaw;
    o.pitch = new_pitch;
}

/// A pointer delta of zero leaves the orientation exactly as it was.
pub proof fn lemma_zero_delta_is_no_op(yaw: int, pitch: int, sx: int, sy: int)
    ensures
        orientation_step(yaw, pitch, 0, 0, sx, sy) == (yaw, pitch),
{
}

/// Orientation after a whole sequence of pointer steps.
pub open spec fn orientation_after_seq(
    yaw: int,
    pitch: int,
    deltas: Seq<(int, int)>,
    sx: int,
    sy: int,
) -> (int, int)
    decreases deltas.len(),
{
    if deltas.len() == 0 {
        (yaw, pitch)
    } else {
        let first = orientation_step(yaw, pitch, deltas[0].0, deltas[0].1, sx, sy);
        orientation_after_seq(first.0, first.1, deltas.drop_first(), sx, sy)
    }
}

/// After any sequence of pointer steps from a well-formed start, the
/// pitch never exceeds the clamp in absolute value.
pub proof fn lemma_pitch_stays_clamped(
    yaw: int,
    pitch: int,
    deltas: Seq<(int, int)>,
    sx: int,
    sy: int,
)
    requires
        -PITCH_LIMIT_URAD <= pitch <= PITCH_LIMIT_URAD,
    ensures
        -PITCH_LIMIT_URAD <= orientation_after_seq(yaw, pitch, deltas, sx, sy).1
            <= PITCH_LIMIT_URAD,
    decreases deltas.len(),
{
    if deltas.len() > 0 {
        let first = orientation_step(yaw, pitch, deltas[0].0, deltas[0].1, sx, sy);
        lemma_pitch_stays_clamped(first.0, first.1, deltas.drop_first(), sx, sy);
    }
}

} // verus!
