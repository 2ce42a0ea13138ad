//! Simulation constants.
//!
//! Time is measured in milliseconds, distance in millimetres, so speed is
//! in millimetres per millisecond (numerically equal to metres per second).
//! Probabilities are in parts per million.

use vstd::prelude::*;

verus! {

/// Scale of probabilities: one million parts per million is certainty.
pub const PPM_SCALE: u64 = 1_000_000;

/// Duration of one traffic-light phase.
pub const LIGHT_CYCLE_MS: u64 = 10_000;

/// Probability that an unjammed node becomes jammed on one update.
pub const JAM_PROBABILITY_PPM: u64 = 30_000;

/// Smallest accepted jam duration; smaller draws are rejected.
pub const JAM_BASE_MS: u64 = 8_000;

/// Exclusive upper bound on a jam duration.
pub const JAM_MAX_MS: u64 = 30_000;

/// Width of the interval a raw jam duration is drawn from.
pub const JAM_SPAN_MS: u64 = 22_000;

/// Speed of every vehicle, in millimetres per millisecond.
pub const VEHICLE_SPEED: u64 = 10;

/// Distance between two consecutive nodes of a line, in millimetres.
pub const DIST_BETWEEN_NODES_MM: u64 = 500_000;

/// Upper bound on the distance between two consecutive nodes.
pub const MAX_EDGE_MM: u64 = 1_000_000;

/// Upper bound on the elapsed time accepted by one simulation step.
pub const MAX_STEP_MS: u64 = 1_000_000_000;

/// Milliseconds in one simulated day.
pub const DAY_MS: u64 = 86_400_000;

} // verus!
