//! Kinematic character controller in exact fixed-point arithmetic.
//!
//! The controller state (orientation, velocity, position) and its
//! configuration are held as scaled integers: lengths and speeds in
//! thousandths of a world unit, angles in microradians, direction
//! vectors scaled so that a unit vector has squared length close to
//! `SCALE * SCALE`. Every update rule — orientation with pitch clamp,
//! grounded classification, gravity and movement integration, damping,
//! and contact resolution against slopes and walls — is an exact
//! function of these integers, so each step carries a full contract.
//!
//! The host engine (windowing, input, shape casts, narrow-phase
//! contacts) runs outside the library and exchanges plain scaled
//! integers with it.

pub mod controller;
pub mod grounded;
pub mod motion;
pub mod math;
pub mod orientation;
pub mod resolver;
pub mod vector;
