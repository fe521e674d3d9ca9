//! A two-dimensional gravitational N-body engine in fixed-point arithmetic.
//!
//! Every quantity (length, velocity, mass, force, the gravitational constant)
//! is an integer count of millionths of a unit, so that each step of the
//! simulation is exact integer arithmetic whose rounding is stated in the
//! contracts.
use vstd::prelude::*;

pub mod arith;
pub mod body;
pub mod config;
pub mod control;
pub mod force;
pub mod integrator;
mod seed;
pub mod simulation;
pub mod vector;
pub mod viewport;

verus! {

/// Number of fixed-point steps in one unit: quantities are stored in millionths.
pub const UNIT: i64 = 1_000_000;

/// Largest magnitude of a position or velocity component (2^45 millionths).
pub const WORLD_LIMIT: i64 = 0x2000_0000_0000;

/// Largest mass of a body (2^30 millionths).
pub const MAX_MASS: i64 = 0x4000_0000;

/// Largest gravitational constant (2^20 millionths).
pub const MAX_GRAVITY: i64 = 0x10_0000;

/// Largest number of bodies in a simulation.
pub const MAX_BODIES: usize = 0x1_0000;

} // verus!
