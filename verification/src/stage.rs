//! Stages: the named processing units registered in the relay graph.

use vstd::prelude::*;

verus! {

/// The processing role a stage plays in the relay graph.
#[derive(Clone, Copy, Debug, PartialEq, Eq, Structural)]
pub enum StageKind {
    /// Reads one branch's configured (looping) input.
    Reader,
    /// Splits a branch's container stream into elementary streams; its output
    /// ports appear only after enough of the source has been parsed.
    Demultiplexer,
    /// Joins all branches into the single continuous output path; input ports
    /// are requested dynamically, one per connected branch.
    Merge,
    /// Parses the merged elementary stream.
    Parser,
    /// Re-wraps the parsed stream in its output container.
    Multiplexer,
    /// Writes the output stream to its configured location.
    Sink,
}

/// Execution state of a stage, or of the graph as a whole.
#[derive(Clone, Copy, Debug, PartialEq, Eq, Structural)]
pub enum RunState {
    Null,
    Ready,
    Paused,
    Playing,
}

/// Who a stage belongs to: the fixed trunk chain behind the merge stage, or
/// one branch, identified by the branch's ordinal.
#[derive(Clone, Copy, Debug, PartialEq, Eq, Structural)]
pub enum StageOwner {
    Trunk,
    Branch(u64),
}

/// One processing stage, as registered in the graph's handle table.
///
/// Stages are looked up by their stable identifier `id`; the table owns every
/// stage, and a stage never outlives its removal from the table.
#[derive(Clone, Copy, Debug)]
pub struct Stage {
    pub id: u64,
    pub kind: StageKind,
    pub owner: StageOwner,
    pub state: RunState,
}

} // verus!
