//! Simulation core of a top-down arcade shooter, in fixed-point arithmetic.
//!
//! Lengths are in milli-units, times in microseconds, angles in micro-radians,
//! and headings are unit vectors scaled by one million.

pub mod geometry;
pub mod timer;
pub mod player;
pub mod hazards;
pub mod session;
pub mod random;
pub mod display;
