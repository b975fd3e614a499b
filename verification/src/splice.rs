//! The splice decision rule: what a branch's edge interceptor does with each
//! item it observes, depending only on the relay-stop flag.
//!
//! The interceptor callback runs synchronously on the data-flow execution
//! context, so it must not mutate the graph itself; it only returns a
//! disposition for the observed item and, at most, schedules deferred work.

use vstd::prelude::*;

verus! {

/// Lifecycle of one branch.
///
/// A branch cycles `Flowing -> EndSeen -> Rebuilding -> Flowing` for as long
/// as the relay runs; once the relay-stop flag is set, the next end-of-branch
/// event moves it to the terminal `Closed`. A branch whose rebuild failed is
/// `Abandoned`: it feeds no more data, and its siblings are unaffected.
#[derive(Clone, Copy, Debug, PartialEq, Eq, Structural)]
pub enum BranchPhase {
    /// Data is flowing through the branch into its merge input port.
    Flowing,
    /// The branch's source is exhausted; the end-of-branch event was dropped
    /// and a rebuild has been scheduled but has not run yet.
    EndSeen,
    /// A fresh source and demultiplexer stand in the graph; the branch waits
    /// for the demultiplexer's output port to be discovered and linked.
    Rebuilding,
    /// The relay is stopping and this branch's end-of-branch event was passed
    /// through. Terminal.
    Closed,
    /// A rebuild step failed; the branch was torn down and gets no more data.
    /// Terminal.
    Abandoned,
}

/// What the interceptor tells the backend to do with an observed item.
#[derive(Clone, Copy, Debug, PartialEq, Eq, Structural)]
pub enum Disposition {
    /// Let the item continue downstream to the merge stage.
    Pass,
    /// Swallow the item; the merge stage never sees it.
    Drop,
}

/// Deferred work an interceptor callback schedules. Structural mutation never
/// runs inline on the data-flow context, so the callback can only ask for it.
#[derive(Clone, Copy, Debug, PartialEq, Eq, Structural)]
pub enum SpliceAction {
    NoAction,
    /// Spawn a rebuild task for this branch off the data-flow context.
    ScheduleRebuild,
}

/// One unit of traffic crossing an edge: a control marker or a payload chunk.
#[derive(Clone, Copy, Debug, PartialEq, Eq, Structural)]
pub enum EdgeItem {
    /// The branch's source is exhausted (end-of-stream for that branch).
    EndOfBranch,
    /// Any other control marker.
    Control,
    /// An opaque payload chunk; the value is its timing metadata.
    Payload(u64),
}

/// The disposition rule: an end-of-branch event is dropped while the relay
/// keeps running and passed once the relay-stop flag is set; everything else
/// always passes.
pub open spec fn spec_disposition(stop: bool, item: EdgeItem) -> Disposition {
    if item is EndOfBranch && !stop {
        Disposition::Drop
    } else {
        Disposition::Pass
    }
}

/// A rebuild is scheduled exactly when an end-of-branch event was suppressed.
pub open spec fn spec_action(stop: bool, item: EdgeItem) -> SpliceAction {
    if item is EndOfBranch && !stop {
        SpliceAction::ScheduleRebuild
    } else {
        SpliceAction::NoAction
    }
}

/// Where the observed branch moves: an end-of-branch event drives it to
/// `EndSeen` (rebuild pending) or, when the relay is stopping, to `Closed`;
/// ordinary traffic leaves it where it was.
pub open spec fn spec_next_phase(stop: bool, item: EdgeItem, phase: BranchPhase) -> BranchPhase {
    if item is EndOfBranch {
        if stop {
            BranchPhase::Closed
        } else {
            BranchPhase::EndSeen
        }
    } else {
        phase
    }
}

/// What the interceptor lets onto the edge towards the merge stage: the item
/// itself when it passes, nothing when it is dropped.
pub open spec fn spec_forwarded(stop: bool, item: EdgeItem) -> Option<EdgeItem> {
    if spec_disposition(stop, item) is Pass {
        Some(item)
    } else {
        None
    }
}

/// Suppression: while the relay-stop flag is false, an end-of-branch event on
/// any single branch is dropped by that branch's interceptor, so it never
/// appears on the merge stage's output edge — and nothing else is held back,
/// so suppression opens no gap in the stream.
pub proof fn lemma_suppression(item: EdgeItem)
    ensures
        item is EndOfBranch ==> spec_forwarded(false, item) is None,
        !(item is EndOfBranch) ==> spec_forwarded(false, item) == Some(item),
{
}

/// Propagation: once the relay-stop flag is set, every item — in particular
/// the next end-of-branch event on each still-flowing branch — is passed
/// through unchanged, so the relay can finish.
pub proof fn lemma_propagation(item: EdgeItem)
    ensures
        spec_disposition(true, item) is Pass,
        spec_forwarded(true, item) == Some(item),
        spec_action(true, item) is NoAction,
{
}

} // verus!
