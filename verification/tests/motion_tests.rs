use kinematic_controller::motion::{
    apply_gravity, apply_movement_damping, keyboard_input, movement, ControllerGravity,
    MovementAcceleration, MovementAction, MovementDampingFactor, TimeDelta,
};
use kinematic_controller::vector::{Vec2Fx, Vec3Fx};

const DT_60HZ: TimeDelta = TimeDelta { num: 1, den: 60 };

#[test]
fn gravity_one_step_at_sixty_hertz() {
    let gravity = ControllerGravity(Vec3Fx { x: 0, y: -19620, z: 0 });
    let mut velocity = Vec3Fx { x: 0, y: 0, z: 0 };
    apply_gravity(&gravity, &mut velocity, &DT_60HZ);
    // -19.62 / 60 = -0.327 units per second, exactly.
    assert_eq!(velocity, Vec3Fx { x: 0, y: -327, z: 0 });
}

#[test]
fn gravity_sixty_steps_reach_full_strength() {
    let gravity = ControllerGravity(Vec3Fx { x: 0, y: -19620, z: 0 });
    let mut velocity = Vec3Fx { x: 0, y: 0, z: 0 };
    for _ in 0..60 {
        apply_gravity(&gravity, &mut velocity, &DT_60HZ);
    }
    assert_eq!(velocity.y, -19620);
}

#[test]
fn gravity_applies_to_every_coordinate() {
    let gravity = ControllerGravity(Vec3Fx { x: 600, y: -1200, z: 6000 });
    let mut velocity = Vec3Fx { x: 10, y: 20, z: 30 };
    apply_gravity(&gravity, &mut velocity, &DT_60HZ);
    assert_eq!(velocity, Vec3Fx { x: 20, y: 0, z: 130 });
}

#[test]
fn movement_accumulates_direction_times_acceleration() {
    let events = vec![MovementAction::Move(Vec2Fx { x: 1000, y: 0 })];
    let accel = MovementAcceleration(30000);
    let mut velocity = Vec3Fx { x: 0, y: 0, z: 0 };
    movement(&events, &accel, &mut velocity, false, &DT_60HZ);
    // 1.0 * 30 / 60 = 0.5 units per second on x, nothing elsewhere.
    assert_eq!(velocity, Vec3Fx { x: 500, y: 0, z: 0 });
}

#[test]
fn two_move_events_in_one_step_stack() {
    let events = vec![
        MovementAction::Move(Vec2Fx { x: 1000, y: 0 }),
        MovementAction::Move(Vec2Fx { x: 0, y: -1000 }),
    ];
    let accel = MovementAcceleration(30000);
    let mut velocity = Vec3Fx { x: 0, y: 0, z: 0 };
    movement(&events, &accel, &mut velocity, false, &DT_60HZ);
    assert_eq!(velocity, Vec3Fx { x: 500, y: 0, z: -500 });
}

#[test]
fn crouch_in_the_air_is_a_no_op() {
    let events = vec![MovementAction::IsCrouching(true)];
    let accel = MovementAcceleration(30000);
    let mut velocity = Vec3Fx { x: 70, y: -80, z: 90 };
    movement(&events, &accel, &mut velocity, false, &DT_60HZ);
    assert_eq!(velocity, Vec3Fx { x: 70, y: -80, z: 90 });
}

#[test]
fn damping_scales_horizontal_velocity() {
    let damping = MovementDampingFactor(900);
    let mut velocity = Vec3Fx { x: 1000, y: -5000, z: -200 };
    apply_movement_damping(&damping, &mut velocity);
    assert_eq!(velocity, Vec3Fx { x: 900, y: -5000, z: -180 });
}

#[test]
fn damping_never_reverses_sign_and_reaches_zero() {
    let damping = MovementDampingFactor(900);
    let mut velocity = Vec3Fx { x: 1000, y: 0, z: -1000 };
    let mut last_x = velocity.x;
    let mut last_z = velocity.z;
    for _ in 0..1000 {
        apply_movement_damping(&damping, &mut velocity);
        assert!(velocity.x >= 0 && velocity.x <= last_x);
        assert!(velocity.z <= 0 && velocity.z >= last_z);
        last_x = velocity.x;
        last_z = velocity.z;
    }
    assert_eq!(velocity.x, 0);
    assert_eq!(velocity.z, 0);
}

#[test]
fn keyboard_single_key_gives_unit_intent() {
    assert_eq!(keyboard_input(true, false, false, false), Some(Vec2Fx { x: 1000, y: 0 }));
    assert_eq!(keyboard_input(false, true, false, false), Some(Vec2Fx { x: 0, y: 1000 }));
    assert_eq!(keyboard_input(false, false, true, false), Some(Vec2Fx { x: -1000, y: 0 }));
    assert_eq!(keyboard_input(false, false, false, true), Some(Vec2Fx { x: 0, y: -1000 }));
}

#[test]
fn keyboard_diagonal_is_normalized() {
    assert_eq!(keyboard_input(true, true, false, false), Some(Vec2Fx { x: 707, y: 707 }));
    assert_eq!(keyboard_input(false, false, true, true), Some(Vec2Fx { x: -707, y: -707 }));
}

#[test]
fn keyboard_opposite_keys_cancel() {
    assert_eq!(keyboard_input(true, false, true, false), None);
    assert_eq!(keyboard_input(false, true, false, true), None);
    assert_eq!(keyboard_input(false, false, false, false), None);
    assert_eq!(keyboard_input(true, true, true, true), None);
}
