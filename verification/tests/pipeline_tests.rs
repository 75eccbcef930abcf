use kinematic_controller::controller::{
    controller_step, CharacterControllerBundle, ControllerState, MovementBundle,
};
use kinematic_controller::grounded::ShapeHit;
use kinematic_controller::motion::{ControllerGravity, MovementAction, TimeDelta};
use kinematic_controller::orientation::{CameraSensitivity, Orientation};
use kinematic_controller::vector::{Vec2Fx, Vec3Fx};

const DT_60HZ: TimeDelta = TimeDelta { num: 1, den: 60 };

fn resting_state() -> ControllerState {
    ControllerState {
        orientation: Orientation { yaw: 0, pitch: 0 },
        velocity: Vec3Fx { x: 0, y: 0, z: 0 },
        grounded: false,
    }
}

#[test]
fn free_fall_step_matches_gravity() {
    let mut state = resting_state();
    let sensitivity = CameraSensitivity::default();
    let hits: Vec<ShapeHit> = vec![];
    let events: Vec<MovementAction> = vec![];
    let config = MovementBundle::default();
    let gravity = ControllerGravity(Vec3Fx { x: 0, y: -19620, z: 0 });
    controller_step(
        &mut state,
        0,
        0,
        &sensitivity,
        &hits,
        &events,
        &config,
        &gravity,
        &DT_60HZ,
    );
    assert_eq!(state.velocity, Vec3Fx { x: 0, y: -327, z: 0 });
    assert!(!state.grounded);
    assert_eq!(state.orientation, Orientation { yaw: 0, pitch: 0 });
}

#[test]
fn sixty_free_fall_steps_reach_full_gravity() {
    let mut state = resting_state();
    let sensitivity = CameraSensitivity::default();
    let hits: Vec<ShapeHit> = vec![];
    let events: Vec<MovementAction> = vec![];
    let config = MovementBundle::default();
    let gravity = ControllerGravity(Vec3Fx { x: 0, y: -19620, z: 0 });
    for _ in 0..60 {
        controller_step(
            &mut state,
            0,
            0,
            &sensitivity,
            &hits,
            &events,
            &config,
            &gravity,
            &DT_60HZ,
        );
    }
    assert_eq!(state.velocity.y, -19620);
}

#[test]
fn grounded_step_with_movement_damps_new_speed() {
    let mut state = resting_state();
    let sensitivity = CameraSensitivity::default();
    let hits = vec![ShapeHit { normal: Vec3Fx { x: 0, y: 1000, z: 0 } }];
    let events = vec![MovementAction::Move(Vec2Fx { x: 1000, y: 0 })];
    let config = MovementBundle::default();
    let gravity = ControllerGravity(Vec3Fx { x: 0, y: -19620, z: 0 });
    controller_step(
        &mut state,
        0,
        0,
        &sensitivity,
        &hits,
        &events,
        &config,
        &gravity,
        &DT_60HZ,
    );
    assert!(state.grounded);
    // Movement adds 0.5 units per second on x, then damping scales it
    // by 0.9; gravity still pulls on y.
    assert_eq!(state.velocity, Vec3Fx { x: 450, y: -327, z: 0 });
}

#[test]
fn step_turns_the_view_and_clamps_the_pitch() {
    let mut state = resting_state();
    let sensitivity = CameraSensitivity::default();
    let hits: Vec<ShapeHit> = vec![];
    let events: Vec<MovementAction> = vec![];
    let config = MovementBundle::default();
    let gravity = ControllerGravity(Vec3Fx { x: 0, y: 0, z: 0 });
    controller_step(
        &mut state,
        10,
        -2000,
        &sensitivity,
        &hits,
        &events,
        &config,
        &gravity,
        &DT_60HZ,
    );
    assert_eq!(state.orientation.yaw, -30000);
    assert_eq!(
        state.orientation.pitch,
        kinematic_controller::orientation::PITCH_LIMIT_URAD
    );
}

#[test]
fn movement_bundle_default_tuning() {
    let m = MovementBundle::default();
    assert_eq!(m.acceleration.0, 30000);
    assert_eq!(m.damping.0, 900);
    assert_eq!(m.max_slope_angle.0, 156);
}

#[test]
fn controller_bundle_new_and_with_movement() {
    let gravity = Vec3Fx { x: 0, y: -19620, z: 0 };
    let bundle = CharacterControllerBundle::new(gravity);
    assert!(bundle.kinematic);
    assert_eq!(bundle.ground_caster.scale_milli, 990);
    assert_eq!(bundle.ground_caster.max_distance_milli, 200);
    assert_eq!(bundle.gravity.0, gravity);
    assert_eq!(bundle.movement, MovementBundle::default());

    let tuned = bundle.with_movement(50000, 850, 500);
    assert_eq!(tuned.movement.acceleration.0, 50000);
    assert_eq!(tuned.movement.damping.0, 850);
    assert_eq!(tuned.movement.max_slope_angle.0, 500);
    assert_eq!(tuned.gravity.0, gravity);
}
