//! Dynamic pipeline splicing engine.
//!
//! The relay merges several independently fed input branches into one
//! continuous output stream. When a single branch's source runs dry, its
//! end-of-branch signal is suppressed and the branch's source stages are torn
//! down and rebuilt in place, without stopping the graph; only when the whole
//! relay is asked to stop is the signal allowed through to close the output.
//!
//! This crate holds the verified core: the graph model (a handle table of
//! stages), the graph mutator, the per-branch splice state machine, and the
//! control monitor. The media backend that actually moves buffers is driven
//! by an unverified shell which performs each action the core decides on and
//! hands the resulting events back.

pub mod errors;
pub mod graph;
pub mod monitor;
pub mod relay;
pub mod splice;
pub mod stage;
