//! A verified 2D rigid-body sandbox core: shapes (circles and oriented
//! rectangles) with velocity integration, exact intersection tests
//! (circle-circle, circle-rectangle, rectangle-rectangle by separating axes),
//! elastic collision response, and the manipulation state machine that drives
//! pausing, dragging, resizing and rotating of shapes.
//!
//! All geometry is fixed point: one world unit is `ONE` subunits, so a
//! subunit is 10^-6 of a unit, which is also the tolerance at which the
//! surrounding application compares floating-point coordinates. Trigonometry
//! (polar decomposition, sines and cosines for rotations) cannot be verified
//! here; rotations therefore enter the core as ready-made fixed-point
//! cosine/sine pairs supplied by the caller, and everything downstream of
//! them is exact integer arithmetic.

#![allow(non_snake_case)]

use vstd::prelude::*;

pub mod circle;
pub mod laws;
pub mod rect;
pub mod shape;
pub mod sim;
pub mod vec2;

verus! {

/// Subunits per world unit.
pub const ONE: i64 = 1_000_000;

/// Largest magnitude allowed for a position coordinate, in subunits.
pub const POS_LIMIT: i64 = 1_000_000_000_000;

/// Largest magnitude allowed for a size coordinate or radius, in subunits.
pub const SIZE_LIMIT: i64 = 100_000_000_000;

/// Largest magnitude a rectangle corner can reach: a centre at `POS_LIMIT`
/// plus a whole size of offset.
pub const CORNER_LIMIT: i64 = 1_200_000_000_000;

/// Largest magnitude allowed for a velocity coordinate, in subunits per second.
pub const VEL_LIMIT: i64 = 100_000_000_000;

/// Largest magnitude allowed for an accumulated rotation angle, in microradians.
pub const ANGLE_LIMIT: i64 = 1_000_000_000_000_000;

/// Largest magnitude allowed for a mass, in thousandths of a square unit.
pub const MASS_LIMIT: i64 = 50_000_000_000_000;

/// Largest magnitude allowed for a fixed-point cosine or sine (`2 * ONE`,
/// leaving headroom over the exact unit circle).
pub const TRIG_LIMIT: i64 = 2_000_000;

/// Integration steps per second: the fixed timestep is 1/60 s.
pub const STEPS_PER_SECOND: i64 = 60;

/// Half the window width in subunits (the window is 1000 by 1000 units).
pub const HALF_W: i64 = 500_000_000;

/// Half the window height in subunits.
pub const HALF_H: i64 = 500_000_000;

} // verus!
