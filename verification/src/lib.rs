//! A discrete-time simulation of vehicles traversing a linear transit
//! network.
//!
//! Nodes carry per-side occupancy, an optional traffic light and a random
//! jam sub-state; vehicles ping-pong along immutable lines, and the graph
//! advances everything one tick at a time while preserving the
//! one-vehicle-per-(node, side) discipline.

pub mod consts;
pub mod graph;
pub mod line;
pub mod map;
pub mod mock;
pub mod node;
mod rng;
pub mod structs;
pub mod time;
