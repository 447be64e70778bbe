//! A small 2D gravitational N-body integrator on fixed-point arithmetic.
//!
//! Bodies are point masses with position and velocity; every quantity is a
//! 64-bit fixed-point number with [`scalar::SCALE`] raw units per simulation
//! unit. Each tick advances every body under mutual Newtonian gravity with a
//! semi-implicit Euler step, applied pair by pair in index order.

pub mod body;
pub mod laws;
pub mod scalar;
pub mod simulation;
