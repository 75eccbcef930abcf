//! Controller configuration bundles and the fixed per-step pipeline:
//! orientation, grounded classification, gravity, movement intents,
//! damping — in the order the scheduler runs them.

use vstd::prelude::*;

verus! {

use crate::math::mag;
use crate::vector::{Vec3Fx, vec3_bounded, normal_wf};
use crate::orientation::{Orientation, CameraSensitivity, orientation_step, orientation_wf,
    sensitivity_wf, DELTA_BOUND};
use crate::grounded::{ShapeHit, MaxSlopeAngle, max_slope_wf, grounded_spec, update_grounded};
use crate::motion::{TimeDelta, time_delta_wf, ControllerGravity, MovementAcceleration,
    MovementDampingFactor, MovementAction, damping_wf, event_wf, gravity_step, vels_after_moves,
    damp_once, apply_gravity, movement, apply_movement_damping, move_delta, GRAV_BOUND,
    ACCEL_BOUND, EVENTS_LIMIT, DIR_BOUND};

/// Largest velocity coordinate accepted by the composed step, in
/// thousandths of a unit per second.
pub const STEP_VEL_LIMIT: i64 = 1000000000000;

/// Marker for the player-controlled entity.
#[derive(Clone, Copy, Debug, PartialEq, Eq, Structural)]
pub struct Player;

/// Marker for an entity driven by this kinematic controller.
#[derive(Clone, Copy, Debug, PartialEq, Eq, Structural)]
pub struct CharacterController;

/// The downward ground probe: a copy of the body collider shrunk to
/// 99 percent, cast down a fifth of a unit, both in thousandths.
#[derive(Clone, Copy, Debug, PartialEq, Eq, Structural)]
pub struct ShapeCaster {
    pub scale_milli: i64,
    pub max_distance_milli: i64,
}

/// Movement tuning of one controller: acceleration, per-step damping
/// and the steepest climbable slope.
#[derive(Clone, Copy, Debug, PartialEq, Eq, Structural)]
pub struct MovementBundle {
    pub acceleration: MovementAcceleration,
    pub damping: MovementDampingFactor,
    pub max_slope_angle: MaxSlopeAngle,
}

/// A usable movement bundle: every part within its accepted range.
pub open spec fn movement_bundle_wf(m: MovementBundle) -> bool {
    mag(m.acceleration.0 as int) <= ACCEL_BOUND && damping_wf(m.damping) && max_slope_wf(
        m.max_slope_angle)
}

impl MovementBundle {
    /// Bundle the three movement parameters: acceleration in
    /// thousandths of a unit per second squared, damping in
    /// thousandths per step, and the cosine of the steepest climbable
    /// slope in thousandths.
    pub fn new(acceleration: i64, damping: i64, max_slope_angle: i64) -> (r: Self)
        ensures
            r.acceleration.0 == acceleration,
            r.damping.0 == damping,
            r.max_slope_angle.0 == max_slope_angle,
    {
        MovementBundle {
            acceleration: MovementAcceleration(acceleration),
            damping: MovementDampingFactor(damping),
            max_slope_angle: MaxSlopeAngle(max_slope_angle),
        }
    }
}

impl Default for MovementBundle {
    /// Thirty units per second squared of acceleration, 0.9 damping
    /// per step, and a maximum slope of 0.45 half-turns, whose cosine
    /// is 156 thousandths.
    fn default() -> (r: Self)
        ensures
            r.acceleration.0 == 30000,
            r.damping.0 == 900,
            r.max_slope_angle.0 == 156,
            movement_bundle_wf(r),
    {
        MovementBundle::new(30000, 900, 156)
    }
}

/// Everything a controller entity carries: the marker, whether the
/// body is kinematic, the ground probe, gravity, and movement tuning.
/// The collision shape itself lives with the physics host.
#[derive(Clone, Copy, Debug, PartialEq, Eq, Structural)]
pub struct CharacterControllerBundle {
    pub character_controller: CharacterController,
    pub kinematic: bool,
    pub ground_caster: ShapeCaster,
    pub gravity: ControllerGravity,
    pub movement: MovementBundle,
}

impl CharacterControllerBundle {
    /// A kinematic controller with the given gravity, a ground probe
    /// at 99 percent scale and a fifth of a unit of reach, and the
    /// default movement tuning.
    pub fn new(gravity: Vec3Fx) -> (r: Self)
        ensures
            r.kinematic,
            r.ground_caster.scale_milli == 990,
            r.ground_caster.max_distance_milli == 200,
            r.gravity.0 == gravity,
            r.movement.acceleration.0 == 30000,
            r.movement.damping.0 == 900,
            r.movement.max_slope_angle.0 == 156,
            movement_bundle_wf(r.movement),
    {
        CharacterControllerBundle {
            character_controller: CharacterController,
            kinematic: true,
            ground_caster: ShapeCaster { scale_milli: 990, max_distance_milli: 200 },
            gravity: ControllerGravity(gravity),
            movement: MovementBundle::default(),
        }
    }

    /// The same bundle with the movement tuning replaced.
    pub fn with_movement(self, acceleration: i64, damping: i64, max_slope_angle: i64) -> (r:
        Self)
        ensures
            r.movement.acceleration.0 == acceleration,
            r.movement.damping.0 == damping,
            r.movement.max_slope_angle.0 == max_slope_angle,
            r.character_controller == self.character_controller,
            r.kinematic == self.kinematic,
            r.ground_caster == self.ground_caster,
            r.gravity == self.gravity,
    {
        CharacterControllerBundle {
            movement: MovementBundle::new(acceleration, damping, max_slope_angle),
            ..self
        }
    }
}

/// The per-controller simulation state the pipeline owns: body yaw and
/// camera pitch, linear velocity, and the latest grounded
/// classification.
#[derive(Clone, Copy, Debug, PartialEq, Eq, Structural)]
pub struct ControllerState {
    pub orientation: Orientation,
    pub velocity: Vec3Fx,
    pub grounded: bool,
}

/// Horizontal velocity after this step's movement intents, starting
/// from the gravity-integrated values.
pub open spec fn step_moved(
    events: Seq<MovementAction>,
    v: Vec3Fx,
    g: Vec3Fx,
    accel: int,
    num: int,
    den: int,
) -> (int, int) {
    vels_after_moves(events, gravity_step(v.x as int, g.x as int, num, den), gravity_step(
        v.z as int, g.z as int, num, den), accel, num, den)
}

/// One whole simulation step over the controller state, in the fixed
/// pipeline order: pointer orientation, grounded classification from
/// this step's shape-cast hits, gravity, movement intents, damping.
/// Position integration and narrow-phase contacts stay with the
/// physics host; contact resolution runs separately after it.
pub fn controller_step(
    state: &mut ControllerState,
    pointer_dx: i64,
    pointer_dy: i64,
    sensitivity: &CameraSensitivity,
    hits: &Vec<ShapeHit>,
    events: &Vec<MovementAction>,
    config: &MovementBundle,
    gravity: &ControllerGravity,
    dt: &TimeDelta,
)
    requires
        sensitivity_wf(*sensitivity),
        orientation_wf(old(state).orientation),
        mag(pointer_dx as int) <= DELTA_BOUND,
        mag(pointer_dy as int) <= DELTA_BOUND,
        i64::MIN <= old(state).orientation.yaw - pointer_dx * sensitivity.x <= i64::MAX,
        forall|i: int| 0 <= i < hits@.len() ==> normal_wf((#[trigger] hits@[i]).normal),
        movement_bundle_wf(*config),
        vec3_bounded(gravity.0, GRAV_BOUND as int),
        vec3_bounded(old(state).velocity, STEP_VEL_LIMIT as int),
        time_delta_wf(*dt),
        dt.num <= dt.den,
        events@.len() <= EVENTS_LIMIT,
        forall|i: int| 0 <= i < events@.len() ==> event_wf(#[trigger] events@[i]),
        grounded_spec(hits@, Option::Some(config.max_slope_angle)) ==> forall|i: int|
            0 <= i < events@.len() ==> !((#[trigger] events@[i]) is IsCrouching),
    ensures
        ({
            let o = orientation_step(old(state).orientation.yaw as int,
                old(state).orientation.pitch as int, pointer_dx as int, pointer_dy as int,
                sensitivity.x as int, sensitivity.y as int);
            final(state).orientation.yaw == o.0 && final(state).orientation.pitch == o.1
        }),
        orientation_wf(final(state).orientation),
        final(state).grounded == grounded_spec(hits@, Option::Some(config.max_slope_angle)),
        ({
            let moved = step_moved(events@, old(state).velocity, gravity.0,
                config.acceleration.0 as int, dt.num as int, dt.den as int);
            &&& final(state).velocity.x == damp_once(moved.0, config.damping.0 as int)
            &&& final(state).velocity.z == damp_once(moved.1, config.damping.0 as int)
            &&& final(state).velocity.y == gravity_step(old(state).velocity.y as int,
                gravity.0.y as int, dt.num as int, dt.den as int)
        }),
{
    crate::orientation::mouse_movement(&mut state.orientation, pointer_dx, pointer_dy,
        sensitivity);
    let max_slope: Option<MaxSlopeAngle> = Option::Some(config.max_slope_angle);
    state.grounded = update_grounded(hits, &max_slope);
    apply_gravity(gravity, &mut state.velocity, dt);
    proof {
        crate::math::lemma_div_tz_basics(gravity.0.x * dt.num, dt.den as int);
        crate::math::lemma_div_tz_basics(gravity.0.z * dt.num, dt.den as int);
        crate::math::lemma_div_tz_basics(gravity.0.y * dt.num, dt.den as int);
        crate::vector::lemma_mag_mul(gravity.0.x as int, dt.num as int);
        crate::vector::lemma_mag_mul(gravity.0.z as int, dt.num as int);
        crate::vector::lemma_mag_mul(gravity.0.y as int, dt.num as int);
        assert(mag(gravity.0.x as int) * mag(dt.num as int) <= 1000000000000int)
            by (nonlinear_arith)
            requires
                0 <= mag(gravity.0.x as int) <= 1000000000int && 0 <= mag(dt.num as int)
                    <= 1000int,
        ;
        assert(mag(gravity.0.z as int) * mag(dt.num as int) <= 1000000000000int)
            by (nonlinear_arith)
            requires
                0 <= mag(gravity.0.z as int) <= 1000000000int && 0 <= mag(dt.num as int)
                    <= 1000int,
        ;
        assert(mag(gravity.0.y as int) * mag(dt.num as int) <= 1000000000000int)
            by (nonlinear_arith)
            requires
                0 <= mag(gravity.0.y as int) <= 1000000000int && 0 <= mag(dt.num as int)
                    <= 1000int,
        ;
        assert(vec3_bounded(state.velocity, crate::motion::VEL_LIMIT as int));
    }
    movement(events, &config.acceleration, &mut state.velocity, state.grounded, dt);
    proof {
        let gx = gravity_step(old(state).velocity.x as int, gravity.0.x as int, dt.num as int,
            dt.den as int);
        let gz = gravity_step(old(state).velocity.z as int, gravity.0.z as int, dt.num as int,
            dt.den as int);
        lemma_moves_bounded(events@, gx, gz, config.acceleration.0 as int, dt.num as int,
            dt.den as int);
        assert(mag(state.velocity.x as int) <= 3000000000000int);
        assert(mag(state.velocity.z as int) <= 3000000000000int);
        assert(mag(state.velocity.x as int) * config.damping.0 <= i64::MAX) by (nonlinear_arith)
            requires
                0 <= mag(state.velocity.x as int) <= 3000000000000int && 0 <= config.damping.0
                    <= 1000,
        ;
        assert(mag(state.velocity.z as int) * config.damping.0 <= i64::MAX) by (nonlinear_arith)
            requires
                0 <= mag(state.velocity.z as int) <= 3000000000000int && 0 <= config.damping.0
                    <= 1000,
        ;
    }
    apply_movement_damping(&config.damping, &mut state.velocity);
}

/// Consuming a bounded queue of movement intents moves each horizontal
/// coordinate by at most ten units per second per intent, for a step
/// of at most one second.
proof fn lemma_moves_bounded(
    events: Seq<MovementAction>,
    vx: int,
    vz: int,
    accel: int,
    num: int,
    den: int,
)
    requires
        forall|i: int| 0 <= i < events.len() ==> event_wf(#[trigger] events[i]),
        mag(accel) <= ACCEL_BOUND,
        1 <= num <= 1000,
        1 <= den <= 1000000,
        num <= den,
    ensures
        mag(vels_after_moves(events, vx, vz, accel, num, den).0) <= mag(vx) + events.len()
            * 10000000000,
        mag(vels_after_moves(events, vx, vz, accel, num, den).1) <= mag(vz) + events.len()
            * 10000000000,
    decreases events.len(),
{
    if events.len() > 0 {
        let rest = events.drop_first();
        assert(forall|i: int|
            0 <= i < rest.len() ==> event_wf(#[trigger] rest[i]) && rest[i] == events[i + 1]);
        match events[0] {
            MovementAction::Move(d) => {
                lemma_move_delta_small(d.x as int, accel, num, den);
                lemma_move_delta_small(d.y as int, accel, num, den);
                lemma_moves_bounded(rest, vx + move_delta(d.x as int, accel, num, den), vz
                    + move_delta(d.y as int, accel, num, den), accel, num, den);
            },
            MovementAction::IsCrouching(_) => {
                lemma_moves_bounded(rest, vx, vz, accel, num, den);
            },
        }
    }
}

/// For a step of at most one second, one movement intent changes a
/// coordinate by at most `DIR_BOUND * ACCEL_BOUND / 1000`.
proof fn lemma_move_delta_small(dir_c: int, accel: int, num: int, den: int)
    requires
        mag(dir_c) <= DIR_BOUND,
        mag(accel) <= ACCEL_BOUND,
        1 <= num <= 1000,
        1 <= den <= 1000000,
        num <= den,
    ensures
        mag(move_delta(dir_c, accel, num, den)) <= 10000000000,
{
    crate::vector::lemma_mag_mul(dir_c, accel);
    assert(mag(dir_c) * mag(accel) <= DIR_BOUND * ACCEL_BOUND) by (nonlinear_arith)
        requires
            0 <= mag(dir_c) <= DIR_BOUND && 0 <= mag(accel) <= ACCEL_BOUND,
    ;
    crate::vector::lemma_mag_mul(dir_c * accel, num);
    let q = move_delta(dir_c, accel, num, den);
    crate::math::lemma_div_tz_basics(dir_c * accel * num, 1000 * den);
    assert(mag(q) * (1000 * den) <= mag(dir_c * accel * num));
    assert(mag(dir_c * accel) * mag(num) <= 10000000000000 * num) by (nonlinear_arith)
        requires
            0 <= mag(dir_c * accel) <= 10000000000000int && 1 <= num && mag(num) == num,
    ;
    assert(10000000000000 * num <= 10000000000000 * den) by (nonlinear_arith)
        requires
            num <= den,
    ;
    assert(mag(q) * (1000 * den) <= 10000000000000 * den ==> mag(q) <= 10000000000)
        by (nonlinear_arith)
        requires
            1 <= den && mag(q) >= 0,
    ;
}

} // verus!
