//! Axis-based input-binding resolution and first-person camera integration.
//!
//! All scalars are fixed-point integers: a value of `math::UNIT` stands for
//! one unit (one world unit, one radian, one second), so the whole controller
//! is exact integer arithmetic with explicit clamping and no floating point.

pub mod camera;
pub mod input;
pub mod math;
pub mod vec3;
