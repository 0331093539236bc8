//! A small 2D rigid-body simulation: craft under gravity, thrust and drag,
//! bouncing off boundary geometry via continuous (swept) collision detection.
//!
//! All physical quantities are fixed-point numbers: an `i64` holding
//! thousandths of the unit (meters, seconds, radians and their derivatives),
//! so that every computation is exact integer arithmetic.

pub mod constants;
pub mod control;
pub mod detect;
pub mod fx;
pub mod heli;
pub mod laws;
pub mod rot;
pub mod settings;
pub mod shape;
pub mod store;
pub mod systems;
pub mod vec2;
