use kinematic_controller::grounded::MaxSlopeAngle;
use kinematic_controller::motion::TimeDelta;
use kinematic_controller::resolver::{
    deepest_penetration, kinematic_controller_collisions, reject_velocity, resolve_manifold,
    snap_to_slope, speculative_response, ContactManifold, ContactPoint,
};
use kinematic_controller::vector::Vec3Fx;

const DT_60HZ: TimeDelta = TimeDelta { num: 1, den: 60 };

#[test]
fn wall_reject_zeroes_normal_component() {
    // Wall on the +x side; its normal points back at the controller.
    let n = Vec3Fx { x: -1000, y: 0, z: 0 };
    let mut velocity = Vec3Fx { x: 1000, y: 0, z: 0 };
    reject_velocity(&mut velocity, &n);
    assert_eq!(velocity, Vec3Fx { x: 0, y: 0, z: 0 });
}

#[test]
fn wall_reject_keeps_tangential_component() {
    let n = Vec3Fx { x: -1000, y: 0, z: 0 };
    let mut velocity = Vec3Fx { x: 1000, y: -300, z: 2000 };
    reject_velocity(&mut velocity, &n);
    assert_eq!(velocity, Vec3Fx { x: 0, y: -300, z: 2000 });
}

#[test]
fn moving_away_from_wall_gets_no_correction() {
    let n = Vec3Fx { x: -1000, y: 0, z: 0 };
    let mut velocity = Vec3Fx { x: -500, y: 100, z: 0 };
    reject_velocity(&mut velocity, &n);
    assert_eq!(velocity, Vec3Fx { x: -500, y: 100, z: 0 });
}

#[test]
fn ramp_snap_matches_slope_tangent() {
    // A 45-degree ramp rising toward +x; moving up it at one unit per
    // second horizontally implies one unit per second vertically.
    let n = Vec3Fx { x: -707, y: 707, z: 0 };
    let mut velocity = Vec3Fx { x: 1000, y: 0, z: 0 };
    snap_to_slope(&mut velocity, &n);
    assert_eq!(velocity, Vec3Fx { x: 1000, y: 1000, z: 0 });
}

#[test]
fn ramp_snap_never_slows_a_faster_ascent() {
    let n = Vec3Fx { x: -707, y: 707, z: 0 };
    let mut velocity = Vec3Fx { x: 1000, y: 5000, z: 0 };
    snap_to_slope(&mut velocity, &n);
    assert_eq!(velocity.y, 5000);
}

#[test]
fn ramp_snap_downslope_keeps_vertical_speed() {
    let n = Vec3Fx { x: -707, y: 707, z: 0 };
    let mut velocity = Vec3Fx { x: -1000, y: 0, z: 0 };
    snap_to_slope(&mut velocity, &n);
    // Walking down the ramp keeps the vertical speed: the snap only
    // ever raises it.
    assert_eq!(velocity, Vec3Fx { x: -1000, y: 0, z: 0 });
}

#[test]
fn speculative_contact_slows_to_touching_speed() {
    // Wall 0.1 units away on the -x side, approach at 10 units per
    // second, one sixtieth of a second per step: the correction leaves
    // exactly the speed that reaches the wall next step.
    let n = Vec3Fx { x: 1000, y: 0, z: 0 };
    let mut velocity = Vec3Fx { x: -10000, y: 0, z: 0 };
    speculative_response(&mut velocity, &n, -100, false, &DT_60HZ);
    assert_eq!(velocity, Vec3Fx { x: -6000, y: 0, z: 0 });
}

#[test]
fn speculative_contact_on_climbable_slope_never_pushes_down() {
    let n = Vec3Fx { x: -707, y: 707, z: 0 };
    let before = Vec3Fx { x: 9000, y: -2000, z: 0 };
    let mut velocity = before;
    speculative_response(&mut velocity, &n, -100, true, &DT_60HZ);
    assert!(velocity.y >= before.y);
    assert_eq!(velocity.x, before.x);
    assert_eq!(velocity.z, before.z);
}

#[test]
fn deepest_penetration_takes_the_maximum() {
    let points = vec![
        ContactPoint { penetration: -50 },
        ContactPoint { penetration: 120 },
        ContactPoint { penetration: 80 },
    ];
    assert_eq!(deepest_penetration(&points), 120);
}

#[test]
fn resolve_manifold_pushes_out_and_rejects_on_wall() {
    // Controller is the second body; the manifold normal already
    // points from the wall toward it.
    let manifold = ContactManifold {
        normal: Vec3Fx { x: -1000, y: 0, z: 0 },
        points: vec![ContactPoint { penetration: 50 }],
    };
    let mut position = Vec3Fx { x: 2000, y: 1000, z: 0 };
    let mut velocity = Vec3Fx { x: 1000, y: 0, z: 500 };
    let max_slope = Some(MaxSlopeAngle(156));
    resolve_manifold(&mut position, &mut velocity, &max_slope, &manifold, false, false, &DT_60HZ);
    assert_eq!(position, Vec3Fx { x: 1950, y: 1000, z: 0 });
    assert_eq!(velocity, Vec3Fx { x: 0, y: 0, z: 500 });
}

#[test]
fn resolve_manifold_flips_normal_when_controller_is_first() {
    let manifold = ContactManifold {
        normal: Vec3Fx { x: 1000, y: 0, z: 0 },
        points: vec![ContactPoint { penetration: 50 }],
    };
    let mut position = Vec3Fx { x: 2000, y: 1000, z: 0 };
    let mut velocity = Vec3Fx { x: 1000, y: 0, z: 500 };
    let max_slope = Some(MaxSlopeAngle(156));
    resolve_manifold(&mut position, &mut velocity, &max_slope, &manifold, true, false, &DT_60HZ);
    assert_eq!(position, Vec3Fx { x: 1950, y: 1000, z: 0 });
    assert_eq!(velocity, Vec3Fx { x: 0, y: 0, z: 500 });
}

#[test]
fn resolve_manifold_snaps_on_penetrating_floor() {
    let manifold = ContactManifold {
        normal: Vec3Fx { x: 0, y: 1000, z: 0 },
        points: vec![ContactPoint { penetration: 20 }],
    };
    let mut position = Vec3Fx { x: 0, y: 980, z: 0 };
    let mut velocity = Vec3Fx { x: 3000, y: -327, z: 0 };
    let max_slope = Some(MaxSlopeAngle(156));
    resolve_manifold(&mut position, &mut velocity, &max_slope, &manifold, false, false, &DT_60HZ);
    // Pushed back up out of the floor, and the flat floor implies a
    // vertical speed of zero, which beats falling.
    assert_eq!(position, Vec3Fx { x: 0, y: 1000, z: 0 });
    assert_eq!(velocity, Vec3Fx { x: 3000, y: 0, z: 0 });
}

#[test]
fn dynamic_body_gets_position_correction_only() {
    let manifold = ContactManifold {
        normal: Vec3Fx { x: -1000, y: 0, z: 0 },
        points: vec![ContactPoint { penetration: 50 }],
    };
    let mut position = Vec3Fx { x: 2000, y: 0, z: 0 };
    let mut velocity = Vec3Fx { x: 1000, y: 0, z: 0 };
    let max_slope = Some(MaxSlopeAngle(156));
    resolve_manifold(&mut position, &mut velocity, &max_slope, &manifold, false, true, &DT_60HZ);
    assert_eq!(position.x, 1950);
    assert_eq!(velocity, Vec3Fx { x: 1000, y: 0, z: 0 });
}

#[test]
fn non_kinematic_controller_is_left_alone() {
    let manifolds = vec![ContactManifold {
        normal: Vec3Fx { x: -1000, y: 0, z: 0 },
        points: vec![ContactPoint { penetration: 50 }],
    }];
    let mut position = Vec3Fx { x: 2000, y: 0, z: 0 };
    let mut velocity = Vec3Fx { x: 1000, y: 0, z: 0 };
    let max_slope = Some(MaxSlopeAngle(156));
    kinematic_controller_collisions(
        &mut position,
        &mut velocity,
        &max_slope,
        &manifolds,
        false,
        false,
        false,
        &DT_60HZ,
    );
    assert_eq!(position, Vec3Fx { x: 2000, y: 0, z: 0 });
    assert_eq!(velocity, Vec3Fx { x: 1000, y: 0, z: 0 });
}

#[test]
fn contact_pair_resolves_manifolds_in_order() {
    // First a floor manifold, then a wall manifold: the floor snaps
    // the fall, the wall rejects the forward speed.
    let manifolds = vec![
        ContactManifold {
            normal: Vec3Fx { x: 0, y: 1000, z: 0 },
            points: vec![ContactPoint { penetration: 20 }],
        },
        ContactManifold {
            normal: Vec3Fx { x: -1000, y: 0, z: 0 },
            points: vec![ContactPoint { penetration: -10 }],
        },
    ];
    let mut position = Vec3Fx { x: 0, y: 980, z: 0 };
    let mut velocity = Vec3Fx { x: 3000, y: -327, z: 0 };
    let max_slope = Some(MaxSlopeAngle(156));
    kinematic_controller_collisions(
        &mut position,
        &mut velocity,
        &max_slope,
        &manifolds,
        false,
        false,
        true,
        &DT_60HZ,
    );
    assert_eq!(position, Vec3Fx { x: 0, y: 1000, z: 0 });
    assert_eq!(velocity.y, 0);
    // The wall was speculative with separation 0.01 at 3 units per
    // second of approach: next-step touching speed is 0.6.
    assert_eq!(velocity.x, 600);
    assert_eq!(velocity.z, 0);
}
