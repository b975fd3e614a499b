//! The relay's error taxonomy.

use vstd::prelude::*;

verus! {

/// What went wrong, and with what blast radius.
#[derive(Clone, Copy, Debug, PartialEq, Eq, Structural)]
pub enum SpliceError {
    /// A stage kind could not be instantiated by the backend. Fatal for the
    /// task that needed the stage; during startup it aborts the whole relay.
    BackendUnavailable,
    /// Two ports could not be linked: incompatible, or already linked. Fatal
    /// for that build-up task only; sibling branches keep flowing.
    LinkFailure,
    /// The merge stage had no free dynamic input port. Fatal for that rebuild.
    PortUnavailable,
    /// The backend reported an error on the lifecycle queue. Fatal for the
    /// whole relay: it triggers the immediate shutdown sequence.
    UpstreamError,
}

} // verus!
