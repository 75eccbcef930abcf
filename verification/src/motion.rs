//! Velocity integration: gravity, queued movement intents, and the
//! horizontal damping filter, in the order the step pipeline runs them.

use vstd::prelude::*;

verus! {

use crate::math::{div_tz, mag, max_i, div_i64, mul_div_i64, lemma_div_tz_basics};
use crate::vector::{Vec2Fx, Vec3Fx, vec3_bounded};

/// Largest velocity coordinate the integrators accept, in thousandths
/// of a unit per second.
pub const VEL_LIMIT: i64 = 10000000000000;

/// Largest gravity coordinate accepted, in thousandths of a unit per
/// second squared.
pub const GRAV_BOUND: i64 = 1000000000;

/// Largest acceleration accepted, in thousandths of a unit per second
/// squared.
pub const ACCEL_BOUND: i64 = 1000000000;

/// Largest coordinate of a movement direction, in thousandths; a
/// normalized direction stays an order of magnitude below this.
pub const DIR_BOUND: i64 = 10000;

/// Most movement intents accepted in one step.
pub const EVENTS_LIMIT: usize = 64;

/// Frame delta time as the exact fraction `num / den` seconds.
#[derive(Clone, Copy, Debug, PartialEq, Eq, Structural)]
pub struct TimeDelta {
    pub num: i64,
    pub den: i64,
}

/// A usable delta time: a positive fraction of bounded size.
pub open spec fn time_delta_wf(dt: TimeDelta) -> bool {
    1 <= dt.num <= 1000 && 1 <= dt.den <= 1000000
}

/// Gravity acting on one controller, in thousandths of a unit per
/// second squared, usually pointing down.
#[derive(Clone, Copy, Debug, PartialEq, Eq, Structural)]
pub struct ControllerGravity(pub Vec3Fx);

/// Movement acceleration of one controller, in thousandths of a unit
/// per second squared.
#[derive(Clone, Copy, Debug, PartialEq, Eq, Structural)]
pub struct MovementAcceleration(pub i64);

/// Horizontal damping per step: velocity along x and z is scaled by
/// this many thousandths every step.
#[derive(Clone, Copy, Debug, PartialEq, Eq, Structural)]
pub struct MovementDampingFactor(pub i64);

/// A usable damping factor: a fraction of one, in thousandths.
pub open spec fn damping_wf(d: MovementDampingFactor) -> bool {
    0 <= d.0 <= 1000
}

/// A transient movement intent: either a horizontal direction to
/// accelerate along, or a crouch toggle. Crouching is an unimplemented
/// stub: feeding a crouch intent to a grounded controller is refused.
#[derive(Clone, Copy, Debug, PartialEq, Eq, Structural)]
pub enum MovementAction {
    Move(Vec2Fx),
    IsCrouching(bool),
}

/// The direction carried by a movement intent is within `DIR_BOUND`.
pub open spec fn event_wf(e: MovementAction) -> bool {
    match e {
        MovementAction::Move(d) => mag(d.x as int) <= DIR_BOUND && mag(d.y as int) <= DIR_BOUND,
        MovementAction::IsCrouching(_) => true,
    }
}

/// One velocity coordinate after a gravity step: `v + g * dt`,
/// truncated to whole thousandths.
pub open spec fn gravity_step(v: int, g: int, num: int, den: int) -> int {
    v + div_tz(g * num, den)
}

/// Integrate gravity into the velocity: `velocity += gravity * dt` on
/// every coordinate, applied whether or not the controller is
/// grounded.
pub fn apply_gravity(gravity: &ControllerGravity, velocity: &mut Vec3Fx, dt: &TimeDelta)
    requires
        time_delta_wf(*dt),
        vec3_bounded(gravity.0, GRAV_BOUND as int),
        vec3_bounded(*old(velocity), VEL_LIMIT as int),
    ensures
        final(velocity).x == gravity_step(old(velocity).x as int, gravity.0.x as int,
            dt.num as int, dt.den as int),
        final(velocity).y == gravity_step(old(velocity).y as int, gravity.0.y as int,
            dt.num as int, dt.den as int),
        final(velocity).z == gravity_step(old(velocity).z as int, gravity.0.z as int,
            dt.num as int, dt.den as int),
{
    proof {
        lemma_gravity_product_bounds(gravity.0.x as int, dt.num as int, dt.den as int);
        lemma_gravity_product_bounds(gravity.0.y as int, dt.num as int, dt.den as int);
        lemma_gravity_product_bounds(gravity.0.z as int, dt.num as int, dt.den as int);
    }
    let dvx: i64 = mul_div_i64(gravity.0.x, dt.num, dt.den);
    let dvy: i64 = mul_div_i64(gravity.0.y, dt.num, dt.den);
    let dvz: i64 = mul_div_i64(gravity.0.z, dt.num, dt.den);
    velocity.x = velocity.x + dvx;
    velocity.y = velocity.y + dvy;
    velocity.z = velocity.z + dvz;
}

/// The product `g * num` stays within `i64` for a bounded gravity
/// coordinate and a well-formed delta time, and so does its quotient.
proof fn lemma_gravity_product_bounds(g: int, num: int, den: int)
    requires
        mag(g) <= GRAV_BOUND,
        1 <= num <= 1000,
        1 <= den <= 1000000,
    ensures
        mag(g * num) <= GRAV_BOUND * 1000,
        mag(div_tz(g * num, den)) <= GRAV_BOUND * 1000,
{
    crate::vector::lemma_mag_mul(g, num);
    assert(mag(g) * mag(num) <= GRAV_BOUND * 1000) by (nonlinear_arith)
        requires
            0 <= mag(g) <= GRAV_BOUND && 0 <= mag(num) <= 1000,
    ;
    lemma_div_tz_basics(g * num, den);
}

/// One coordinate's change for one movement intent:
/// `direction * acceleration * dt`, with the direction in thousandths.
pub open spec fn move_delta(dir_c: int, accel: int, num: int, den: int) -> int {
    div_tz(dir_c * accel * num, 1000 * den)
}

/// The `x` and `z` velocity coordinates after consuming a queue of
/// movement intents in order: each `Move` accumulates its scaled
/// direction, crouch toggles change nothing.
pub open spec fn vels_after_moves(
    events: Seq<MovementAction>,
    vx: int,
    vz: int,
    accel: int,
    num: int,
    den: int,
) -> (int, int)
    decreases events.len(),
{
    if events.len() == 0 {
        (vx, vz)
    } else {
        let rest = events.drop_first();
        match events[0] {
            MovementAction::Move(d) => vels_after_moves(
                rest,
                vx + move_delta(d.x as int, accel, num, den),
                vz + move_delta(d.y as int, accel, num, den),
                accel,
                num,
                den,
            ),
            MovementAction::IsCrouching(_) => vels_after_moves(rest, vx, vz, accel, num, den),
        }
    }
}

/// One movement intent's coordinate change, computed exactly.
fn move_delta_i64(dir_c: i64, accel: i64, num: i64, den: i64) -> (r: i64)
    requires
        mag(dir_c as int) <= DIR_BOUND,
        mag(accel as int) <= ACCEL_BOUND,
        1 <= num <= 1000,
        1 <= den <= 1000000,
    ensures
        r == move_delta(dir_c as int, accel as int, num as int, den as int),
        mag(r as int) <= DIR_BOUND * ACCEL_BOUND * 1000,
{
    proof {
        lemma_move_delta_bounds(dir_c as int, accel as int, num as int, den as int);
    }
    let p: i64 = dir_c * accel;
    let q: i64 = p * num;
    let r = div_i64(q, 1000 * den);
    r
}

/// The triple product in a movement delta stays within `i64`, and so
/// does its quotient.
proof fn lemma_move_delta_bounds(dir_c: int, accel: int, num: int, den: int)
    requires
        mag(dir_c) <= DIR_BOUND,
        mag(accel) <= ACCEL_BOUND,
        1 <= num <= 1000,
        1 <= den <= 1000000,
    ensures
        mag(dir_c * accel) <= DIR_BOUND * ACCEL_BOUND,
        mag(dir_c * accel * num) <= DIR_BOUND * ACCEL_BOUND * 1000,
        mag(move_delta(dir_c, accel, num, den)) <= DIR_BOUND * ACCEL_BOUND * 1000,
{
    crate::vector::lemma_mag_mul(dir_c, accel);
    assert(mag(dir_c) * mag(accel) <= DIR_BOUND * ACCEL_BOUND) by (nonlinear_arith)
        requires
            0 <= mag(dir_c) <= DIR_BOUND && 0 <= mag(accel) <= ACCEL_BOUND,
    ;
    crate::vector::lemma_mag_mul(dir_c * accel, num);
    assert(mag(dir_c * accel) * mag(num) <= DIR_BOUND * ACCEL_BOUND * 1000) by (nonlinear_arith)
        requires
            0 <= mag(dir_c * accel) <= DIR_BOUND * ACCEL_BOUND && 0 <= mag(num) <= 1000,
    ;
    lemma_div_tz_basics(dir_c * accel * num, 1000 * den);
}

/// Consume this step's movement intents: every `Move` event adds its
/// direction scaled by the acceleration and the delta time to the
/// horizontal velocity; the vertical coordinate is untouched. A crouch
/// intent on a grounded controller is the unimplemented stub and is
/// refused by precondition; on an airborne controller it does nothing.
pub fn movement(
    events: &Vec<MovementAction>,
    acceleration: &MovementAcceleration,
    velocity: &mut Vec3Fx,
    grounded: bool,
    dt: &TimeDelta,
)
    requires
        time_delta_wf(*dt),
        mag(acceleration.0 as int) <= ACCEL_BOUND,
        vec3_bounded(*old(velocity), VEL_LIMIT as int),
        events@.len() <= EVENTS_LIMIT,
        forall|i: int| 0 <= i < events@.len() ==> event_wf(#[trigger] events@[i]),
        grounded ==> forall|i: int|
            0 <= i < events@.len() ==> !((#[trigger] events@[i]) is IsCrouching),
    ensures
        ({
            let after = vels_after_moves(events@, old(velocity).x as int, old(velocity).z as int,
                acceleration.0 as int, dt.num as int, dt.den as int);
            final(velocity).x == after.0 && final(velocity).z == after.1 && final(velocity).y
                == old(velocity).y
        }),
{
    let ghost all = events@;
    let ghost accel = acceleration.0 as int;
    let ghost num = dt.num as int;
    let ghost den = dt.den as int;
    let ghost target = vels_after_moves(all, velocity.x as int, velocity.z as int, accel, num,
        den);
    proof {
        assert(all.skip(0) =~= all);
    }
    let mut i: usize = 0;
    while i < events.len()
        invariant
            0 <= i <= all.len(),
            all.len() <= EVENTS_LIMIT,
            all == events@,
            accel == acceleration.0 as int,
            num == dt.num as int,
            den == dt.den as int,
            time_delta_wf(*dt),
            mag(accel) <= ACCEL_BOUND,
            forall|j: int| 0 <= j < all.len() ==> event_wf(#[trigger] all[j]),
            mag(velocity.x as int) <= VEL_LIMIT + i * 10000000000000000,
            mag(velocity.z as int) <= VEL_LIMIT + i * 10000000000000000,
            velocity.y == old(velocity).y,
            vels_after_moves(all.skip(i as int), velocity.x as int, velocity.z as int, accel,
                num, den) == target,
            target == vels_after_moves(all, old(velocity).x as int, old(velocity).z as int,
                accel, num, den),
        decreases all.len() - i,
    {
        let ghost before = *velocity;
        match events[i] {
            MovementAction::Move(d) => {
                let dx = move_delta_i64(d.x, acceleration.0, dt.num, dt.den);
                let dz = move_delta_i64(d.y, acceleration.0, dt.num, dt.den);
                assert(DIR_BOUND * ACCEL_BOUND * 1000 == 10000000000000000int);
                assert(mag(velocity.x + dx) <= VEL_LIMIT + (i + 1) * 10000000000000000);
                assert(mag(velocity.z + dz) <= VEL_LIMIT + (i + 1) * 10000000000000000);
                velocity.x = velocity.x + dx;
                velocity.z = velocity.z + dz;
            },
            MovementAction::IsCrouching(_) => {
            },
        }
        proof {
            assert(all.skip(i as int).drop_first() =~= all.skip(i as int + 1));
            assert(all.skip(i as int)[0] == all[i as int]);
        }
        i = i + 1;
    }
    proof {
        assert(all.skip(all.len() as int) =~= Seq::<MovementAction>::empty());
    }
}

/// One coordinate after the damping filter: scaled by `d` thousandths,
/// truncated toward zero.
pub open spec fn damp_once(v: int, d: int) -> int {
    div_tz(v * d, 1000)
}

/// A coordinate after `k` applications of the damping filter.
pub open spec fn damp_n(v: int, d: int, k: nat) -> int
    decreases k,
{
    if k == 0 {
        v
    } else {
        damp_once(damp_n(v, d, (k - 1) as nat), d)
    }
}

/// Damp the horizontal velocity: `x` and `z` are scaled by the damping
/// factor each step, the vertical coordinate never is, preserving
/// free-fall and jump arcs.
pub fn apply_movement_damping(damping: &MovementDampingFactor, velocity: &mut Vec3Fx)
    requires
        damping_wf(*damping),
        mag(old(velocity).x as int) * damping.0 <= i64::MAX,
        mag(old(velocity).z as int) * damping.0 <= i64::MAX,
    ensures
        final(velocity).x == damp_once(old(velocity).x as int, damping.0 as int),
        final(velocity).z == damp_once(old(velocity).z as int, damping.0 as int),
        final(velocity).y == old(velocity).y,
{
    proof {
        crate::vector::lemma_mag_mul(old(velocity).x as int, damping.0 as int);
        crate::vector::lemma_mag_mul(old(velocity).z as int, damping.0 as int);
        assert(mag(old(velocity).x as int) * mag(damping.0 as int) == mag(old(velocity).x as int)
            * damping.0);
        assert(mag(old(velocity).z as int) * mag(damping.0 as int) == mag(old(velocity).z as int)
            * damping.0);
    }
    velocity.x = mul_div_i64(velocity.x, damping.0, 1000);
    velocity.z = mul_div_i64(velocity.z, damping.0, 1000);
}

/// One damping application with a factor below one never reverses the
/// sign, scales the magnitude at least geometrically, and strictly
/// shrinks any nonzero coordinate.
pub proof fn lemma_damp_once(v: int, d: int)
    requires
        0 <= d <= 999,
    ensures
        v >= 0 ==> 0 <= damp_once(v, d) <= v,
        v <= 0 ==> v <= damp_once(v, d) <= 0,
        1000 * mag(damp_once(v, d)) <= mag(v) * d,
        v != 0 ==> mag(damp_once(v, d)) < mag(v),
        v == 0 ==> damp_once(v, d) == 0,
{
    crate::vector::lemma_mag_mul(v, d);
    lemma_div_tz_basics(v * d, 1000);
    assert(v >= 0 ==> v * d >= 0) by (nonlinear_arith)
        requires
            d >= 0,
    ;
    assert(v <= 0 ==> v * d <= 0) by (nonlinear_arith)
        requires
            d >= 0,
    ;
    assert(mag(v) * d <= mag(v) * 999) by (nonlinear_arith)
        requires
            0 <= mag(v) && d <= 999,
    ;
    assert(v >= 0 ==> damp_once(v, d) <= v) by {
        if v >= 0 {
            assert(v * d <= v * 1000) by (nonlinear_arith)
                requires
                    v >= 0 && d <= 1000,
            ;
            crate::math::lemma_div_tz_ordered(v * d, v * 1000, 1000);
            crate::math::lemma_div_tz_exact(v, 1000);
        }
    }
    assert(v <= 0 ==> damp_once(v, d) >= v) by {
        if v <= 0 {
            assert(v * 1000 <= v * d) by (nonlinear_arith)
                requires
                    v <= 0 && d <= 1000,
            ;
            crate::math::lemma_div_tz_ordered(v * 1000, v * d, 1000);
            crate::math::lemma_div_tz_exact(v, 1000);
        }
    }
}

/// Repeated damping with a factor strictly between zero and one drives
/// a velocity coordinate toward zero without ever reversing its sign:
/// after `k` steps the magnitude has shrunk by at least `k`, so a
/// coordinate of magnitude `m` is exactly zero after `m` steps.
pub proof fn lemma_damping_decay(v: int, d: int, k: nat)
    requires
        1 <= d <= 999,
    ensures
        v >= 0 ==> 0 <= damp_n(v, d, k) <= v,
        v <= 0 ==> v <= damp_n(v, d, k) <= 0,
        mag(damp_n(v, d, k)) <= max_i(mag(v) - k, 0),
        k >= mag(v) ==> damp_n(v, d, k) == 0,
    decreases k,
{
    if k == 0 {
    } else {
        lemma_damping_decay(v, d, (k - 1) as nat);
        let prev = damp_n(v, d, (k - 1) as nat);
        lemma_damp_once(prev, d);
    }
}

/// Horizontal-only normalized intent scale for a diagonal: one
/// thousand over the square root of two, rounded.
pub const DIAGONAL_MILLI: i64 = 707;

/// Straight-axis normalized intent scale: exactly one, in thousandths.
pub const STRAIGHT_MILLI: i64 = 1000;

/// The movement intent implied by the four direction keys, in the
/// body's local frame: the first coordinate is along the forward axis,
/// the second along the right axis, normalized to thousandths. One
/// intent per step; opposite keys cancel.
pub open spec fn intent_spec(up: bool, right: bool, down: bool, left: bool) -> Option<
    (int, int),
> {
    let f: int = (if up {
        1int
    } else {
        0int
    }) - (if down {
        1int
    } else {
        0int
    });
    let r: int = (if right {
        1int
    } else {
        0int
    }) - (if left {
        1int
    } else {
        0int
    });
    if f == 0 && r == 0 {
        Option::None
    } else if f == 0 || r == 0 {
        Option::Some((f * STRAIGHT_MILLI, r * STRAIGHT_MILLI))
    } else {
        Option::Some((f * DIAGONAL_MILLI, r * DIAGONAL_MILLI))
    }
}

/// Turn the four direction keys into this step's movement intent: a
/// normalized direction in the body's local frame (`x` forward, `y`
/// rightward, in thousandths), or nothing when the keys cancel out.
pub fn keyboard_input(up: bool, right: bool, down: bool, left: bool) -> (r: Option<Vec2Fx>)
    ensures
        r is Some <==> intent_spec(up, right, down, left) is Some,
        r is Some ==> (r->0.x as int, r->0.y as int) == intent_spec(up, right, down, left)->0,
{
    let f: i64 = (if up {
        1i64
    } else {
        0i64
    }) - (if down {
        1i64
    } else {
        0i64
    });
    let r: i64 = (if right {
        1i64
    } else {
        0i64
    }) - (if left {
        1i64
    } else {
        0i64
    });
    if f == 0 && r == 0 {
        Option::None
    } else if f == 0 || r == 0 {
        Option::Some(Vec2Fx { x: f * STRAIGHT_MILLI, y: r * STRAIGHT_MILLI })
    } else {
        Option::Some(Vec2Fx { x: f * DIAGONAL_MILLI, y: r * DIAGONAL_MILLI })
    }
}

} // verus!
