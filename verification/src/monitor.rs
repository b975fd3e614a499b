//! The Control Monitor: consumes the backend's ordered lifecycle queue and
//! drives the overall relay lifecycle. On the first terminal message —
//! end-of-stream for the whole relay, or an upstream error — it drives the
//! graph to Null and stops consuming.

use vstd::prelude::*;

use crate::relay::Relay;
use crate::stage::RunState;

verus! {

/// One message from the backend's lifecycle queue.
#[derive(Debug)]
pub enum LifecycleMsg {
    /// The whole relay's output is complete. Terminal.
    EndOfStream,
    /// The backend reported an error, with the reporting stage's identity and
    /// its diagnostic text. Terminal: the relay shuts down at once.
    UpstreamError { source_id: u64, detail: String },
    /// A stage changed state. Informational only.
    StateChanged { from: RunState, to: RunState },
}

/// What the monitor does after one message.
#[derive(Clone, Copy, Debug, PartialEq, Eq, Structural)]
pub enum MonitorVerdict {
    /// Keep consuming the queue.
    Continue,
    /// Drive the graph to Null and stop consuming.
    Shutdown,
}

/// A message is terminal when it ends the whole relay.
pub open spec fn is_terminal(m: LifecycleMsg) -> bool {
    m is EndOfStream || m is UpstreamError
}

/// The monitor's decision for a single lifecycle message: shut down on
/// end-of-stream or error, keep going on anything informational.
pub fn monitor_step(msg: &LifecycleMsg) -> (v: MonitorVerdict)
    ensures
        (v is Shutdown) <==> is_terminal(*msg),
{
    match msg {
        LifecycleMsg::EndOfStream => MonitorVerdict::Shutdown,
        LifecycleMsg::UpstreamError { .. } => MonitorVerdict::Shutdown,
        LifecycleMsg::StateChanged { .. } => MonitorVerdict::Continue,
    }
}

/// Consume an ordered lifecycle queue. Messages are handled in order; the
/// first terminal message drives the graph to Null, raises the shutting-down
/// sentinel, and stops consumption — later messages are never read, so no
/// rebuild decision is taken after shutdown. Returns how many messages were
/// consumed.
pub fn monitor_drain(relay: &mut Relay, msgs: &Vec<LifecycleMsg>) -> (consumed: usize)
    requires
        old(relay).wf(),
    ensures
        final(relay).wf(),
        consumed <= msgs@.len(),
        // everything consumed before the last message was informational
        forall|j: int| 0 <= j < consumed as int - 1 ==> !is_terminal(#[trigger] msgs@[j]),
        // no terminal message: the queue is exhausted and the relay untouched
        (forall|j: int| 0 <= j < msgs@.len() ==> !is_terminal(#[trigger] msgs@[j])) ==> (consumed
            == msgs@.len() && *final(relay) == *old(relay)),
        // a terminal message: consumption stopped right on the first one and
        // the graph was driven to Null
        (exists|j: int| 0 <= j < msgs@.len() && is_terminal(#[trigger] msgs@[j])) ==> {
            &&& 1 <= consumed
            &&& is_terminal(msgs@[consumed as int - 1])
            &&& final(relay).graph.run_state is Null
            &&& final(relay).graph.shutting_down
            &&& final(relay).branches@ == old(relay).branches@
            &&& final(relay).stop == old(relay).stop
            &&& final(relay).n == old(relay).n
        },
{
    let len = msgs.len();
    let mut i: usize = 0;
    while i < len
        invariant
            old(relay).wf(),
            i <= len,
            len == msgs@.len(),
            forall|j: int| 0 <= j < i as int ==> !is_terminal(#[trigger] msgs@[j]),
            *relay == *old(relay),
        decreases len - i,
    {
        let v = monitor_step(&msgs[i]);
        match v {
            MonitorVerdict::Shutdown => {
                relay.shutdown_graph();
                return i + 1;
            },
            MonitorVerdict::Continue => {
                i = i + 1;
            },
        }
    }
    len
}

} // verus!
