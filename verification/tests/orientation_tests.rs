use kinematic_controller::orientation::{
    mouse_movement, CameraSensitivity, Orientation, PITCH_LIMIT_URAD,
};

#[test]
fn zero_pointer_delta_is_no_op() {
    let mut o = Orientation { yaw: 123456, pitch: 200000 };
    let s = CameraSensitivity::default();
    mouse_movement(&mut o, 0, 0, &s);
    assert_eq!(o, Orientation { yaw: 123456, pitch: 200000 });
}

#[test]
fn pointer_delta_turns_yaw_and_pitch() {
    let mut o = Orientation { yaw: 0, pitch: 0 };
    let s = CameraSensitivity::default();
    // 100 counts right turn the body left by 100 * 3000 microradians,
    // 50 counts up tilt the camera up by 50 * 2000 microradians.
    mouse_movement(&mut o, 100, -50, &s);
    assert_eq!(o.yaw, -300000);
    assert_eq!(o.pitch, 100000);
}

#[test]
fn pitch_clamp_saturates_upward() {
    let mut o = Orientation { yaw: 0, pitch: 1500000 };
    let s = CameraSensitivity::default();
    mouse_movement(&mut o, 0, -1000, &s);
    assert_eq!(o.pitch, PITCH_LIMIT_URAD);
}

#[test]
fn pitch_clamp_saturates_downward() {
    let mut o = Orientation { yaw: 0, pitch: -1500000 };
    let s = CameraSensitivity::default();
    mouse_movement(&mut o, 0, 1000, &s);
    assert_eq!(o.pitch, -PITCH_LIMIT_URAD);
}

#[test]
fn pitch_stays_clamped_over_many_steps() {
    let mut o = Orientation { yaw: 0, pitch: 0 };
    let s = CameraSensitivity::default();
    let deltas: [(i64, i64); 8] =
        [(5, -900), (-3, -900), (7, 800), (0, -1000), (2, -1000), (-8, 1000), (1, 1000), (4, 1000)];
    for step in 0..100 {
        let (dx, dy) = deltas[step % deltas.len()];
        mouse_movement(&mut o, dx, dy, &s);
        assert!(o.pitch.abs() <= PITCH_LIMIT_URAD);
    }
}

#[test]
fn default_sensitivity_matches_three_and_two_thousandths() {
    let s = CameraSensitivity::default();
    assert_eq!(s.x, 3000);
    assert_eq!(s.y, 2000);
}
