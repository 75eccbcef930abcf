use kinematic_controller::grounded::{
    update_grounded, within_max_slope, MaxSlopeAngle, ShapeHit,
};
use kinematic_controller::vector::Vec3Fx;

#[test]
fn flat_floor_grounds_controller() {
    let hits = vec![ShapeHit { normal: Vec3Fx { x: 0, y: 1000, z: 0 } }];
    let max_slope = Some(MaxSlopeAngle(156));
    assert!(update_grounded(&hits, &max_slope));
}

#[test]
fn steep_wall_does_not_ground() {
    // Nearly vertical surface: its normal is almost horizontal.
    let hits = vec![ShapeHit { normal: Vec3Fx { x: 1000, y: 10, z: 0 } }];
    let max_slope = Some(MaxSlopeAngle(156));
    assert!(!update_grounded(&hits, &max_slope));
}

#[test]
fn downward_facing_surface_does_not_ground() {
    let hits = vec![ShapeHit { normal: Vec3Fx { x: 0, y: -1000, z: 0 } }];
    let max_slope = Some(MaxSlopeAngle(156));
    assert!(!update_grounded(&hits, &max_slope));
}

#[test]
fn no_hits_means_airborne() {
    let hits: Vec<ShapeHit> = vec![];
    let max_slope = Some(MaxSlopeAngle(156));
    assert!(!update_grounded(&hits, &max_slope));
}

#[test]
fn any_hit_grounds_when_no_max_slope_is_configured() {
    let hits = vec![ShapeHit { normal: Vec3Fx { x: 1000, y: 10, z: 0 } }];
    assert!(update_grounded(&hits, &None));
}

#[test]
fn one_walkable_hit_among_steep_ones_grounds() {
    let hits = vec![
        ShapeHit { normal: Vec3Fx { x: 1000, y: 0, z: 0 } },
        ShapeHit { normal: Vec3Fx { x: 100, y: 990, z: 0 } },
        ShapeHit { normal: Vec3Fx { x: 0, y: 0, z: 1000 } },
    ];
    let max_slope = Some(MaxSlopeAngle(156));
    assert!(update_grounded(&hits, &max_slope));
}

#[test]
fn forty_five_degree_slope_against_matching_cosine() {
    let diagonal = Vec3Fx { x: 707, y: 707, z: 0 };
    // cos(45 degrees) is a hair over 0.707, so the threshold 707 admits
    // the surface and 708 rejects it.
    assert!(within_max_slope(&diagonal, 707));
    assert!(!within_max_slope(&diagonal, 708));
}
