//! A 2-D particle simulation of circles inside a circular arena.
//!
//! Bodies are circles carrying a Verlet kinematic state (position,
//! previous position, acceleration). Each simulation step splits the
//! elapsed time into equal sub-steps and, for each sub-step, integrates
//! every body, clamps every body into the arena, and resolves pairwise
//! circle-circle penetration by positional correction.
//!
//! All quantities are plain integers in caller-chosen fixed-point units
//! (for example micro-units per pixel). Arithmetic is exact; square
//! roots and scalar divisions round toward zero.

use vstd::prelude::*;

pub mod circle;
pub mod math;
pub mod particle;
pub mod sim;
pub mod vector;

verus! {

/// Largest magnitude accepted for geometric parameters: body radii,
/// the arena radius and the arena center's coordinates.
pub const GEOM_LIMIT: i64 = 1_000_000_000;

/// Largest magnitude accepted for acceleration components.
pub const ACCEL_LIMIT: i64 = 1_000_000_000;

/// Largest magnitude of position and previous-position components that
/// the integration step and the step driver accept.
pub const POS_LIMIT: i64 = 4_000_000_000_000_000;

/// Longest sub-step duration accepted, in nanoseconds (ten seconds).
pub const DT_LIMIT_NANOS: u64 = 10_000_000_000;

/// Largest magnitude the acceleration term of one integration step can
/// reach: `ACCEL_LIMIT * DT_LIMIT_NANOS^2 / SECOND_NANOS_SQUARED`.
pub const DISP_LIMIT: i64 = 100_000_000_000;

/// Largest magnitude of position components right after an integration
/// step whose inputs obeyed `POS_LIMIT`, `ACCEL_LIMIT` and
/// `DT_LIMIT_NANOS`: `3 * POS_LIMIT + DISP_LIMIT`, rounded up.
pub const INTEGRATED_LIMIT: i64 = 13_000_000_000_000_000;

/// Largest magnitude of position components that the boundary
/// constraint accepts.
pub const CONSTRAIN_IN_LIMIT: i64 = 20_000_000_000_000_000;

/// Largest magnitude of position components right after the boundary
/// constraint: arena center plus arena radius, `2 * GEOM_LIMIT`.
pub const CONSTRAINED_LIMIT: i64 = 2_000_000_000;

/// Largest magnitude of position components that the collision pass
/// accepts on entry.
pub const COLLISION_ENTRY_LIMIT: i64 = 1_000_000_000_000;

/// Largest magnitude of position components when the collision pass
/// returns: every body moves at most `GEOM_LIMIT` per visited pair.
pub const COLLISION_EXIT_LIMIT: i64 = 3_000_000_000_000_000;

/// Largest magnitude of position components that the pairwise collision
/// test accepts.
pub const COLLIDE_LIMIT: i64 = 10_000_000_000_000_000;

/// Largest number of bodies the collision pass and the step driver accept.
pub const COUNT_LIMIT: usize = 1_000_000;

/// Number of sub-steps one driver step is split into.
pub const SUB_STEPS: u64 = 8;

/// Nanoseconds per second, squared: the divisor that turns
/// `acceleration * dt_nanos^2` into displacement units.
pub const SECOND_NANOS_SQUARED: u128 = 1_000_000_000_000_000_000;

} // verus!
