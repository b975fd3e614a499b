//! The relay: N independently fed branches spliced into one continuous
//! output, with per-branch teardown and rebuild while the graph keeps
//! running.
//!
//! All structural mutation here models what the mutator performs off the
//! data-flow execution context; the interceptor-side entry point
//! [`Relay::on_edge_item`] only updates branch state and reports what
//! deferred work to schedule.

use vstd::prelude::*;

use crate::errors::SpliceError;
use crate::graph::Graph;
use crate::graph::has_stage;
use crate::graph::ids_unique;
use crate::graph::lemma_push_preserves_has_stage;
use crate::graph::lemma_remove_preserves_has_stage;
use crate::graph::lemma_update_then_remove;
use crate::graph::stage_is;
use crate::splice::BranchPhase;
use crate::splice::Disposition;
use crate::splice::EdgeItem;
use crate::splice::SpliceAction;
use crate::splice::spec_action;
use crate::splice::spec_disposition;
use crate::splice::spec_next_phase;
use crate::stage::RunState;
use crate::stage::Stage;
use crate::stage::StageKind;
use crate::stage::StageOwner;

verus! {

/// One independently refreshable input path feeding the merge stage.
///
/// The ordinal starts at the branch's slot and grows by the configured branch
/// count on every rebuild, so stage names and diagnostic output never collide
/// across rebuild cycles.
#[derive(Clone, Copy, Debug)]
pub struct Branch {
    /// Stable name component of the branch's current source and
    /// demultiplexer; congruent to the slot modulo the branch count.
    pub ordinal: u64,
    pub phase: BranchPhase,
    /// Identifier of the branch's current reader stage.
    pub source_id: u64,
    /// Identifier of the branch's current demultiplexer stage.
    pub demux_id: u64,
    /// The merge input port this branch feeds, while it is linked.
    pub merge_port: Option<u64>,
    /// Why the branch was abandoned, if it was.
    pub fault: Option<SpliceError>,
}

/// A branch's merge input port is linked exactly in the phases where its
/// demultiplexer output is connected to the merge stage.
pub open spec fn port_linked_phase(phase: BranchPhase) -> bool {
    phase is Flowing || phase is EndSeen || phase is Closed
}

/// Per-branch well-formedness, tied to the graph's handle table.
pub open spec fn branch_ok(
    b: Branch,
    k: int,
    n: int,
    stop: bool,
    next_port: u64,
    stages: Seq<Stage>,
) -> bool {
    &&& b.ordinal % (n as u64) == k as u64
    &&& ((b.merge_port is Some) <==> port_linked_phase(b.phase))
    &&& (b.phase is Closed ==> stop)
    &&& ((b.phase is Abandoned) <==> (b.fault is Some))
    &&& (!(b.phase is Abandoned) ==> {
        &&& has_stage(stages, b.source_id, StageKind::Reader, StageOwner::Branch(b.ordinal))
        &&& has_stage(
            stages,
            b.demux_id,
            StageKind::Demultiplexer,
            StageOwner::Branch(b.ordinal),
        )
        &&& b.source_id != b.demux_id
    })
    &&& (b.merge_port matches Some(p) ==> p < next_port)
}

/// Per-stage well-formedness: every registered stage runs in the graph's
/// current state, and every branch-owned stage is one half of the pair its
/// branch currently points at — so a live branch can never acquire a second
/// source or demultiplexer, and an abandoned or replaced pair never lingers.
pub open spec fn stage_ok(st: Stage, branches: Seq<Branch>, n: int, run_state: RunState) -> bool {
    &&& st.state == run_state
    &&& match st.owner {
        StageOwner::Trunk => st.kind is Merge || st.kind is Parser || st.kind is Multiplexer
            || st.kind is Sink,
        StageOwner::Branch(o) => {
            let k = (o % (n as u64)) as int;
            &&& o == branches[k].ordinal
            &&& !(branches[k].phase is Abandoned)
            &&& (st.kind is Reader || st.kind is Demultiplexer)
            &&& (st.kind is Reader ==> st.id == branches[k].source_id)
            &&& (st.kind is Demultiplexer ==> st.id == branches[k].demux_id)
        },
    }
}

/// All branches well-formed.
pub open spec fn branches_ok(
    branches: Seq<Branch>,
    n: int,
    stop: bool,
    next_port: u64,
    stages: Seq<Stage>,
) -> bool {
    forall|k: int|
        0 <= k < branches.len() ==> #[trigger] branch_ok(
            branches[k],
            k,
            n,
            stop,
            next_port,
            stages,
        )
}

/// All registered stages well-formed.
pub open spec fn stages_ok(
    stages: Seq<Stage>,
    branches: Seq<Branch>,
    n: int,
    run_state: RunState,
) -> bool {
    forall|i: int|
        0 <= i < stages.len() ==> stage_ok(#[trigger] stages[i], branches, n, run_state)
}

/// No two branches feed the same merge input port.
pub open spec fn ports_distinct(branches: Seq<Branch>) -> bool {
    forall|k1: int, k2: int|
        0 <= k1 < k2 < branches.len() && (#[trigger] branches[k1]).merge_port is Some && (
        #[trigger] branches[k2]).merge_port is Some ==> branches[k1].merge_port
            != branches[k2].merge_port
}

/// How many branches hold a linked merge input port.
pub open spec fn spec_linked_ports(bs: Seq<Branch>) -> nat
    decreases bs.len(),
{
    if bs.len() == 0 {
        0
    } else {
        spec_linked_ports(bs.drop_last()) + if bs.last().merge_port is Some {
            1nat
        } else {
            0nat
        }
    }
}

/// How many branches were abandoned.
pub open spec fn spec_abandoned(bs: Seq<Branch>) -> nat
    decreases bs.len(),
{
    if bs.len() == 0 {
        0
    } else {
        spec_abandoned(bs.drop_last()) + if bs.last().phase is Abandoned {
            1nat
        } else {
            0nat
        }
    }
}

/// When each branch holds a port exactly if it was not abandoned, the linked
/// ports and the abandoned branches partition the branch list.
proof fn lemma_port_partition(bs: Seq<Branch>)
    requires
        forall|k: int|
            0 <= k < bs.len() ==> ((#[trigger] bs[k]).merge_port is Some <==> !(
            bs[k].phase is Abandoned)),
    ensures
        spec_linked_ports(bs) + spec_abandoned(bs) == bs.len(),
    decreases bs.len(),
{
    if bs.len() > 0 {
        assert forall|k: int|
            0 <= k < bs.drop_last().len() implies ((#[trigger] bs.drop_last()[k]).merge_port
            is Some <==> !(bs.drop_last()[k].phase is Abandoned)) by {
            assert(bs.drop_last()[k] == bs[k]);
        }
        lemma_port_partition(bs.drop_last());
    }
}

/// After a branch's pair is dropped from the table, every stage registered
/// under another owner is still findable, every survivor is still
/// well-formed, and no stage of the dropped pair's branch ordinal remains.
proof fn lemma_detach_survivors(
    s0: Seq<Stage>,
    i1: int,
    i2: int,
    branches: Seq<Branch>,
    slot: int,
    n: int,
    stop: bool,
    next_port: u64,
    run_state: RunState,
)
    requires
        ids_unique(s0),
        1 <= n,
        branches.len() == n,
        0 <= slot < branches.len(),
        0 <= i1 < s0.len(),
        stage_is(
            s0[i1],
            branches[slot].source_id,
            StageKind::Reader,
            StageOwner::Branch(branches[slot].ordinal),
        ),
        0 <= i2 < s0.remove(i1).len(),
        stage_is(
            s0.remove(i1)[i2],
            branches[slot].demux_id,
            StageKind::Demultiplexer,
            StageOwner::Branch(branches[slot].ordinal),
        ),
        branches_ok(branches, n, stop, next_port, s0),
        stages_ok(s0, branches, n, run_state),
    ensures
        forall|id: u64, kind: StageKind, owner: StageOwner|
            has_stage(s0, id, kind, owner) && owner != StageOwner::Branch(branches[slot].ordinal)
                ==> #[trigger] has_stage(s0.remove(i1).remove(i2), id, kind, owner),
        forall|i: int|
            0 <= i < s0.remove(i1).remove(i2).len() ==> {
                let st = #[trigger] s0.remove(i1).remove(i2)[i];
                &&& stage_ok(st, branches, n, run_state)
                &&& st.owner != StageOwner::Branch(branches[slot].ordinal)
            },
{
    let b = branches[slot];
    let s1 = s0.remove(i1);
    let s2 = s1.remove(i2);
    s0.remove_ensures(i1);
    s1.remove_ensures(i2);
    assert(branch_ok(branches[slot], slot, n, stop, next_port, s0));
    assert forall|a: int, c: int| 0 <= a < c < s1.len() implies (#[trigger] s1[a]).id != (
    #[trigger] s1[c]).id by {
        let a0 = if a < i1 {
            a
        } else {
            a + 1
        };
        let c0 = if c < i1 {
            c
        } else {
            c + 1
        };
        assert(s1[a] == s0[a0]);
        assert(s1[c] == s0[c0]);
    }
    assert forall|id: u64, kind: StageKind, owner: StageOwner|
        has_stage(s0, id, kind, owner) && owner != StageOwner::Branch(b.ordinal) implies #[trigger] has_stage(
        s2,
        id,
        kind,
        owner,
    ) by {
        let j = choose|j: int| 0 <= j < s0.len() && stage_is(#[trigger] s0[j], id, kind, owner);
        assert(j != i1);
        let j1 = if j < i1 {
            j
        } else {
            j - 1
        };
        assert(s1[j1] == s0[j]);
        assert(j1 != i2);
        let j2 = if j1 < i2 {
            j1
        } else {
            j1 - 1
        };
        assert(s2[j2] == s1[j1]);
        assert(stage_is(s2[j2], id, kind, owner));
    }
    assert forall|i: int| 0 <= i < s2.len() implies {
        let st = #[trigger] s2[i];
        &&& stage_ok(st, branches, n, run_state)
        &&& st.owner != StageOwner::Branch(b.ordinal)
    } by {
        let m = if i < i2 {
            i
        } else {
            i + 1
        };
        assert(s2[i] == s1[m]);
        let m0 = if m < i1 {
            m
        } else {
            m + 1
        };
        assert(s1[m] == s0[m0]);
        assert(stage_ok(s0[m0], branches, n, run_state));
        if s2[i].owner == StageOwner::Branch(b.ordinal) {
            assert(b.ordinal % (n as u64) == slot as u64);
            if s2[i].kind is Reader {
                assert(s0[m0].id == b.source_id);
                assert(m0 != i1);
                assert(s0[i1].id == b.source_id);
                assert(false);
            } else {
                assert(s2[i].kind is Demultiplexer);
                assert(s1[m].id == b.demux_id);
                assert(m != i2);
                assert(s1[i2].id == b.demux_id);
                assert(false);
            }
        }
    }
}

/// The whole relay: the graph, the fixed trunk chain's identifiers, the
/// branches, and the relay-stop flag that every interceptor reads.
pub struct Relay {
    /// Configured parallelism: how many branches feed the merge stage.
    pub n: usize,
    /// The relay-stop flag: false while the relay runs, set exactly once when
    /// final shutdown is requested. Single writer, read by every interceptor.
    pub stop: bool,
    pub graph: Graph,
    pub branches: Vec<Branch>,
    /// Fresh-name counter for the merge stage's dynamic input ports.
    pub next_port: u64,
    /// Identifiers of the fixed trunk chain, merge stage downwards.
    pub merge_id: u64,
    pub parser_id: u64,
    pub muxer_id: u64,
    pub sink_id: u64,
}

impl Relay {
    /// The fixed trunk chain — merge, parser, multiplexer, sink — stands in
    /// the graph.
    pub open spec fn trunk_ok(self) -> bool {
        &&& has_stage(self.graph.stages@, self.merge_id, StageKind::Merge, StageOwner::Trunk)
        &&& has_stage(self.graph.stages@, self.parser_id, StageKind::Parser, StageOwner::Trunk)
        &&& has_stage(
            self.graph.stages@,
            self.muxer_id,
            StageKind::Multiplexer,
            StageOwner::Trunk,
        )
        &&& has_stage(self.graph.stages@, self.sink_id, StageKind::Sink, StageOwner::Trunk)
    }

    /// Relay well-formedness: the invariant every public operation preserves.
    pub open spec fn wf(self) -> bool {
        &&& 1 <= self.n
        &&& self.branches@.len() == self.n as int
        &&& self.graph.wf()
        &&& self.trunk_ok()
        &&& branches_ok(
            self.branches@,
            self.n as int,
            self.stop,
            self.next_port,
            self.graph.stages@,
        )
        &&& stages_ok(self.graph.stages@, self.branches@, self.n as int, self.graph.run_state)
        &&& ports_distinct(self.branches@)
    }

    /// Convenience: one branch, by slot.
    pub open spec fn branch(self, k: int) -> Branch {
        self.branches@[k]
    }

    /// Build the relay graph: the trunk chain and `n` branches, each with a
    /// fresh source and demultiplexer pair already linked to each other and
    /// waiting for dynamic-port discovery. Nothing runs yet.
    pub fn new(n: usize) -> (r: Relay)
        requires
            1 <= n,
            n <= 0x7fff_ffff,
        ensures
            r.wf(),
            r.n == n,
            !r.stop,
            r.next_port == 0,
            r.graph.next_id == 4 + 2 * (n as int),
            r.graph.stages@.len() == 4 + 2 * (n as int),
            r.graph.run_state is Null,
            !r.graph.shutting_down,
            forall|k: int|
                0 <= k < n as int ==> {
                    &&& (#[trigger] r.branch(k)).phase is Rebuilding
                    &&& r.branch(k).ordinal == k as u64
                    &&& r.branch(k).merge_port is None
                    &&& r.branch(k).fault is None
                },
    {
        let mut graph = Graph::new();
        let merge_id = graph.add_stage(StageKind::Merge, StageOwner::Trunk);
        let parser_id = graph.add_stage(StageKind::Parser, StageOwner::Trunk);
        let muxer_id = graph.add_stage(StageKind::Multiplexer, StageOwner::Trunk);
        let sink_id = graph.add_stage(StageKind::Sink, StageOwner::Trunk);
        proof {
            assert(stage_is(graph.stages@[0], merge_id, StageKind::Merge, StageOwner::Trunk));
            assert(stage_is(graph.stages@[1], parser_id, StageKind::Parser, StageOwner::Trunk));
            assert(stage_is(
                graph.stages@[2],
                muxer_id,
                StageKind::Multiplexer,
                StageOwner::Trunk,
            ));
            assert(stage_is(graph.stages@[3], sink_id, StageKind::Sink, StageOwner::Trunk));
        }
        let mut branches: Vec<Branch> = Vec::new();
        let mut k: usize = 0;
        while k < n
            invariant
                k <= n,
                n <= 0x7fff_ffff,
                branches@.len() == k as int,
                graph.wf(),
                graph.next_id == 4 + 2 * (k as int),
                graph.stages@.len() == 4 + 2 * (k as int),
                graph.run_state is Null,
                !graph.shutting_down,
                has_stage(graph.stages@, merge_id, StageKind::Merge, StageOwner::Trunk),
                has_stage(graph.stages@, parser_id, StageKind::Parser, StageOwner::Trunk),
                has_stage(graph.stages@, muxer_id, StageKind::Multiplexer, StageOwner::Trunk),
                has_stage(graph.stages@, sink_id, StageKind::Sink, StageOwner::Trunk),
                forall|j: int|
                    0 <= j < k as int ==> {
                        &&& (#[trigger] branches@[j]).ordinal == j as u64
                        &&& branches@[j].phase is Rebuilding
                        &&& branches@[j].merge_port is None
                        &&& branches@[j].fault is None
                        &&& branches@[j].source_id != branches@[j].demux_id
                        &&& has_stage(
                            graph.stages@,
                            branches@[j].source_id,
                            StageKind::Reader,
                            StageOwner::Branch(j as u64),
                        )
                        &&& has_stage(
                            graph.stages@,
                            branches@[j].demux_id,
                            StageKind::Demultiplexer,
                            StageOwner::Branch(j as u64),
                        )
                    },
                forall|i: int|
                    0 <= i < graph.stages@.len() ==> {
                        let st = #[trigger] graph.stages@[i];
                        &&& st.state is Null
                        &&& match st.owner {
                            StageOwner::Trunk => st.kind is Merge || st.kind is Parser
                                || st.kind is Multiplexer || st.kind is Sink,
                            StageOwner::Branch(o) => {
                                &&& o < k as u64
                                &&& o == branches@[o as int].ordinal
                                &&& (st.kind is Reader || st.kind is Demultiplexer)
                                &&& (st.kind is Reader ==> st.id == branches@[o as int].source_id)
                                &&& (st.kind is Demultiplexer
                                    ==> st.id == branches@[o as int].demux_id)
                            },
                        }
                    },
            decreases n - k,
        {
            let ghost s0 = graph.stages@;
            let source_id = graph.add_stage(StageKind::Reader, StageOwner::Branch(k as u64));
            let ghost s1 = graph.stages@;
            let demux_id = graph.add_stage(StageKind::Demultiplexer, StageOwner::Branch(k as u64));
            branches.push(
                Branch {
                    ordinal: k as u64,
                    phase: BranchPhase::Rebuilding,
                    source_id,
                    demux_id,
                    merge_port: None,
                    fault: None,
                },
            );
            proof {
                lemma_push_preserves_has_stage(s0, s1.last());
                assert(s1 == s0.push(s1.last()));
                lemma_push_preserves_has_stage(s1, graph.stages@.last());
                assert(graph.stages@ == s1.push(graph.stages@.last()));
                assert(stage_is(
                    graph.stages@[s0.len() as int],
                    source_id,
                    StageKind::Reader,
                    StageOwner::Branch(k as u64),
                ));
                assert(stage_is(
                    graph.stages@[s0.len() as int + 1],
                    demux_id,
                    StageKind::Demultiplexer,
                    StageOwner::Branch(k as u64),
                ));
            }
            k = k + 1;
        }
        let r = Relay {
            n,
            stop: false,
            graph,
            branches,
            next_port: 0,
            merge_id,
            parser_id,
            muxer_id,
            sink_id,
        };
        proof {
            assert forall|k2: int| 0 <= k2 < r.branches@.len() implies #[trigger] branch_ok(
                r.branches@[k2],
                k2,
                r.n as int,
                r.stop,
                r.next_port,
                r.graph.stages@,
            ) by {
                assert(r.branches@[k2].ordinal == k2 as u64);
                assert((k2 as u64) % (n as u64) == k2 as u64) by (nonlinear_arith)
                    requires
                        0 <= k2 < n as int,
                ;
            }
            assert forall|i: int| 0 <= i < r.graph.stages@.len() implies stage_ok(
                #[trigger] r.graph.stages@[i],
                r.branches@,
                r.n as int,
                r.graph.run_state,
            ) by {
                let st = r.graph.stages@[i];
                if let StageOwner::Branch(o) = st.owner {
                    assert((o % (n as u64)) == o) by (nonlinear_arith)
                        requires
                            o < n as u64,
                    ;
                }
            }
        }
        r
    }

    /// Set the relay-stop flag. It is written exactly once, by the
    /// controlling task issuing final shutdown; from here on every branch
    /// interceptor passes end-of-branch events through instead of suppressing
    /// them.
    pub fn request_shutdown(&mut self)
        requires
            old(self).wf(),
            !old(self).stop,
        ensures
            final(self).wf(),
            final(self).stop,
            final(self).graph == old(self).graph,
            final(self).branches@ == old(self).branches@,
            final(self).n == old(self).n,
            final(self).next_port == old(self).next_port,
    {
        self.stop = true;
        proof {
            assert forall|k: int| 0 <= k < self.branches@.len() implies #[trigger] branch_ok(
                self.branches@[k],
                k,
                self.n as int,
                self.stop,
                self.next_port,
                self.graph.stages@,
            ) by {
                assert(branch_ok(
                    self.branches@[k],
                    k,
                    self.n as int,
                    false,
                    self.next_port,
                    self.graph.stages@,
                ));
            }
        }
    }

    /// Dynamic-port discovery resolved for a rebuilding branch: its fresh
    /// demultiplexer's output port has appeared, so a new input port is
    /// requested from the merge stage and the branch is linked into it.
    pub fn on_port_discovered(&mut self, slot: usize) -> (port: u64)
        requires
            old(self).wf(),
            slot < old(self).branches@.len(),
            old(self).branch(slot as int).phase is Rebuilding,
            old(self).next_port < u64::MAX,
        ensures
            final(self).wf(),
            port == old(self).next_port,
            final(self).branch(slot as int) == (Branch {
                phase: BranchPhase::Flowing,
                merge_port: Some(port),
                ..old(self).branch(slot as int)
            }),
            final(self).branches@ == old(self).branches@.update(
                slot as int,
                final(self).branch(slot as int),
            ),
            final(self).next_port == old(self).next_port + 1,
            final(self).graph == old(self).graph,
            final(self).stop == old(self).stop,
            final(self).n == old(self).n,
    {
        let port = self.next_port;
        self.next_port = port + 1;
        let mut b = self.branches[slot];
        b.phase = BranchPhase::Flowing;
        b.merge_port = Some(port);
        self.branches[slot] = b;
        proof {
            assert(self.branches@ =~= old(self).branches@.update(slot as int, b));
            assert forall|k: int| 0 <= k < self.branches@.len() implies #[trigger] branch_ok(
                self.branches@[k],
                k,
                self.n as int,
                self.stop,
                self.next_port,
                self.graph.stages@,
            ) by {
                assert(branch_ok(
                    old(self).branches@[k],
                    k,
                    self.n as int,
                    self.stop,
                    old(self).next_port,
                    self.graph.stages@,
                ));
            }
            assert forall|k1: int, k2: int|
                0 <= k1 < k2 < self.branches@.len() && (
                #[trigger] self.branches@[k1]).merge_port is Some && (
                #[trigger] self.branches@[k2]).merge_port is Some implies self.branches@[k1].merge_port
                != self.branches@[k2].merge_port by {
                assert(branch_ok(
                    old(self).branches@[k1],
                    k1,
                    self.n as int,
                    self.stop,
                    old(self).next_port,
                    self.graph.stages@,
                ));
                assert(branch_ok(
                    old(self).branches@[k2],
                    k2,
                    self.n as int,
                    self.stop,
                    old(self).next_port,
                    self.graph.stages@,
                ));
            }
            assert forall|i: int| 0 <= i < self.graph.stages@.len() implies stage_ok(
                #[trigger] self.graph.stages@[i],
                self.branches@,
                self.n as int,
                self.graph.run_state,
            ) by {
                assert(stage_ok(
                    self.graph.stages@[i],
                    old(self).branches@,
                    self.n as int,
                    self.graph.run_state,
                ));
            }
        }
        port
    }

    /// Graph-wide state control: drive the graph and every stage standing in
    /// it to `st` in one sweep.
    pub fn set_run_state(&mut self, st: RunState)
        requires
            old(self).wf(),
        ensures
            final(self).wf(),
            final(self).graph.run_state == st,
            final(self).graph.stages@.len() == old(self).graph.stages@.len(),
            forall|i: int|
                0 <= i < old(self).graph.stages@.len() ==> #[trigger] final(self).graph.stages@[i]
                    == (Stage { state: st, ..old(self).graph.stages@[i] }),
            final(self).graph.shutting_down == old(self).graph.shutting_down,
            final(self).graph.next_id == old(self).graph.next_id,
            final(self).branches@ == old(self).branches@,
            final(self).stop == old(self).stop,
            final(self).n == old(self).n,
            final(self).next_port == old(self).next_port,
    {
        self.graph.set_run_state_all(st);
        proof {
            let s0 = old(self).graph.stages@;
            let s1 = self.graph.stages@;
            assert forall|id: u64, kind: StageKind, owner: StageOwner|
                has_stage(s0, id, kind, owner) implies #[trigger] has_stage(
                s1,
                id,
                kind,
                owner,
            ) by {
                let j = choose|j: int|
                    0 <= j < s0.len() && stage_is(#[trigger] s0[j], id, kind, owner);
                assert(stage_is(s1[j], id, kind, owner));
            }
            assert forall|k: int| 0 <= k < self.branches@.len() implies #[trigger] branch_ok(
                self.branches@[k],
                k,
                self.n as int,
                self.stop,
                self.next_port,
                s1,
            ) by {
                assert(branch_ok(self.branches@[k], k, self.n as int, self.stop, self.next_port, s0));
            }
        }
    }

    /// The Control Monitor's terminal action: the whole graph is driven to
    /// Null and the shutting-down sentinel is raised, so a detached task born
    /// just before shutdown fails gracefully instead of racing teardown.
    pub fn shutdown_graph(&mut self)
        requires
            old(self).wf(),
        ensures
            final(self).wf(),
            final(self).graph.run_state is Null,
            final(self).graph.shutting_down,
            final(self).graph.stages@.len() == old(self).graph.stages@.len(),
            forall|i: int|
                0 <= i < old(self).graph.stages@.len()
                    ==> (#[trigger] final(self).graph.stages@[i]).state is Null,
            final(self).branches@ == old(self).branches@,
            final(self).stop == old(self).stop,
            final(self).n == old(self).n,
            final(self).next_port == old(self).next_port,
    {
        self.set_run_state(RunState::Null);
        self.graph.mark_shutting_down();
    }

    /// Mutator teardown sequence for one branch's pair: unlink the exhausted
    /// source and demultiplexer, drive both to Null, and drop them from the
    /// handle table. Returns, for the proof's benefit, where the two stood.
    fn detach_pair(&mut self, slot: usize) -> (idx: Ghost<(int, int)>)
        requires
            old(self).wf(),
            slot < old(self).branches@.len(),
            !(old(self).branch(slot as int).phase is Abandoned),
        ensures
            ({
                let (i1, i2) = idx@;
                let s0 = old(self).graph.stages@;
                let b = old(self).branch(slot as int);
                &&& 0 <= i1 < s0.len()
                &&& stage_is(s0[i1], b.source_id, StageKind::Reader, StageOwner::Branch(b.ordinal))
                &&& 0 <= i2 < s0.remove(i1).len()
                &&& stage_is(
                    s0.remove(i1)[i2],
                    b.demux_id,
                    StageKind::Demultiplexer,
                    StageOwner::Branch(b.ordinal),
                )
                &&& final(self).graph.stages@ == s0.remove(i1).remove(i2)
            }),
            final(self).graph.wf(),
            final(self).graph.next_id == old(self).graph.next_id,
            final(self).graph.run_state == old(self).graph.run_state,
            final(self).graph.shutting_down == old(self).graph.shutting_down,
            final(self).branches@ == old(self).branches@,
            final(self).stop == old(self).stop,
            final(self).n == old(self).n,
            final(self).next_port == old(self).next_port,
            final(self).merge_id == old(self).merge_id,
            final(self).parser_id == old(self).parser_id,
            final(self).muxer_id == old(self).muxer_id,
            final(self).sink_id == old(self).sink_id,
    {
        let ghost s0 = self.graph.stages@;
        let ghost b0 = self.branch(slot as int);
        let b = self.branches[slot];
        proof {
            assert(branch_ok(
                self.branches@[slot as int],
                slot as int,
                self.n as int,
                self.stop,
                self.next_port,
                s0,
            ));
        }
        let i1 = self.graph.index_of(b.source_id);
        proof {
            let j = choose|j: int|
                0 <= j < s0.len() && stage_is(
                    #[trigger] s0[j],
                    b0.source_id,
                    StageKind::Reader,
                    StageOwner::Branch(b0.ordinal),
                );
            assert(s0[j].id == s0[i1 as int].id);
            assert(j == i1 as int);
        }
        self.graph.set_state_at(i1, RunState::Null);
        proof {
            lemma_update_then_remove(
                s0,
                i1 as int,
                (Stage { state: RunState::Null, ..s0[i1 as int] }),
            );
        }
        let _removed_source = self.graph.remove_at(i1);
        let ghost s1 = self.graph.stages@;
        proof {
            assert(s1 == s0.remove(i1 as int));
            lemma_remove_preserves_has_stage(
                s0,
                i1 as int,
                b0.demux_id,
                StageKind::Demultiplexer,
                StageOwner::Branch(b0.ordinal),
            );
        }
        let i2 = self.graph.index_of(b.demux_id);
        proof {
            let j = choose|j: int|
                0 <= j < s1.len() && stage_is(
                    #[trigger] s1[j],
                    b0.demux_id,
                    StageKind::Demultiplexer,
                    StageOwner::Branch(b0.ordinal),
                );
            assert(s1[j].id == s1[i2 as int].id);
            assert(j == i2 as int);
        }
        self.graph.set_state_at(i2, RunState::Null);
        proof {
            lemma_update_then_remove(
                s1,
                i2 as int,
                (Stage { state: RunState::Null, ..s1[i2 as int] }),
            );
        }
        let _removed_demux = self.graph.remove_at(i2);
        Ghost((i1 as int, i2 as int))
    }

    /// Failure policy: a rebuild step that failed — the backend could not
    /// instantiate a stage, a link was refused, or the merge stage had no
    /// free input port — abandons this one branch. Its stages are torn down
    /// and removed, it feeds no more data, and the fault is recorded; the
    /// sibling branches and the relay as a whole keep running. There is no
    /// automatic retry.
    pub fn abandon_branch(&mut self, slot: usize, fault: SpliceError)
        requires
            old(self).wf(),
            slot < old(self).branches@.len(),
            old(self).branch(slot as int).phase is EndSeen || old(self).branch(
                slot as int,
            ).phase is Rebuilding,
        ensures
            final(self).wf(),
            final(self).branch(slot as int) == (Branch {
                phase: BranchPhase::Abandoned,
                merge_port: None,
                fault: Some(fault),
                ..old(self).branch(slot as int)
            }),
            final(self).branches@ == old(self).branches@.update(
                slot as int,
                final(self).branch(slot as int),
            ),
            forall|i: int|
                0 <= i < final(self).graph.stages@.len()
                    ==> (#[trigger] final(self).graph.stages@[i]).owner != StageOwner::Branch(
                    old(self).branch(slot as int).ordinal,
                ),
            final(self).graph.stages@.len() == old(self).graph.stages@.len() - 2,
            final(self).graph.next_id == old(self).graph.next_id,
            final(self).graph.run_state == old(self).graph.run_state,
            final(self).stop == old(self).stop,
            final(self).n == old(self).n,
            final(self).next_port == old(self).next_port,
    {
        let ghost s0 = self.graph.stages@;
        let ghost branches0 = self.branches@;
        let idx = self.detach_pair(slot);
        proof {
            let (i1, i2) = idx@;
            lemma_detach_survivors(
                s0,
                i1,
                i2,
                branches0,
                slot as int,
                self.n as int,
                self.stop,
                self.next_port,
                self.graph.run_state,
            );
        }
        let mut b = self.branches[slot];
        b.phase = BranchPhase::Abandoned;
        b.merge_port = None;
        b.fault = Some(fault);
        self.branches[slot] = b;
        proof {
            assert(self.branches@ =~= branches0.update(slot as int, b));
            let ghost ord = old(self).branch(slot as int).ordinal;
            assert(branch_ok(
                branches0[slot as int],
                slot as int,
                self.n as int,
                self.stop,
                self.next_port,
                s0,
            ));
            assert(ord % (self.n as u64) == slot as u64);
            assert forall|k: int| 0 <= k < self.branches@.len() implies #[trigger] branch_ok(
                self.branches@[k],
                k,
                self.n as int,
                self.stop,
                self.next_port,
                self.graph.stages@,
            ) by {
                assert(branch_ok(
                    branches0[k],
                    k,
                    self.n as int,
                    self.stop,
                    self.next_port,
                    s0,
                ));
                if k != slot as int && !(branches0[k].phase is Abandoned) {
                    assert(branches0[k].ordinal % (self.n as u64) == k as u64);
                    assert(ord % (self.n as u64) == slot as u64);
                    assert(StageOwner::Branch(branches0[k].ordinal) != StageOwner::Branch(ord));
                }
            }
            assert forall|i: int| 0 <= i < self.graph.stages@.len() implies stage_ok(
                #[trigger] self.graph.stages@[i],
                self.branches@,
                self.n as int,
                self.graph.run_state,
            ) by {
                let st = self.graph.stages@[i];
                assert(stage_ok(st, branches0, self.n as int, self.graph.run_state));
                if let StageOwner::Branch(o) = st.owner {
                    let k = (o % (self.n as u64)) as int;
                    assert(o != ord);
                    assert(k != slot as int);
                }
            }
            assert forall|k1: int, k2: int|
                0 <= k1 < k2 < self.branches@.len() && (
                #[trigger] self.branches@[k1]).merge_port is Some && (
                #[trigger] self.branches@[k2]).merge_port is Some implies self.branches@[k1].merge_port
                != self.branches@[k2].merge_port by {
                assert(branches0[k1].merge_port == self.branches@[k1].merge_port || k1
                    == slot as int);
            }
        }
    }

    /// The rebuild task, run off the data-flow context after an end-of-branch
    /// event was suppressed: tear down the exhausted source+demultiplexer
    /// pair (unlink, stop, remove), create a fresh pair reading the same
    /// looping input, add and link it, and synchronize the new stages with
    /// the graph's current run state. The replacement takes ordinal
    /// `old + N`, so stage names never collide across rebuild cycles; the
    /// branch then waits for dynamic-port discovery to flow again.
    pub fn rebuild_branch(&mut self, slot: usize) -> (new_ordinal: u64)
        requires
            old(self).wf(),
            slot < old(self).branches@.len(),
            old(self).branch(slot as int).phase is EndSeen,
            old(self).branch(slot as int).ordinal + old(self).n as u64 <= u64::MAX,
            old(self).graph.next_id + 2 <= u64::MAX,
        ensures
            final(self).wf(),
            new_ordinal == old(self).branch(slot as int).ordinal + old(self).n as u64,
            final(self).branch(slot as int) == (Branch {
                ordinal: new_ordinal,
                phase: BranchPhase::Rebuilding,
                source_id: final(self).branch(slot as int).source_id,
                demux_id: final(self).branch(slot as int).demux_id,
                merge_port: None,
                fault: None,
            }),
            final(self).branches@ == old(self).branches@.update(
                slot as int,
                final(self).branch(slot as int),
            ),
            // the exhausted pair is gone: never two pairs for one branch
            forall|i: int|
                0 <= i < final(self).graph.stages@.len()
                    ==> (#[trigger] final(self).graph.stages@[i]).owner != StageOwner::Branch(
                    old(self).branch(slot as int).ordinal,
                ),
            // the fresh pair stands in the graph: never a gap
            has_stage(
                final(self).graph.stages@,
                final(self).branch(slot as int).source_id,
                StageKind::Reader,
                StageOwner::Branch(new_ordinal),
            ),
            has_stage(
                final(self).graph.stages@,
                final(self).branch(slot as int).demux_id,
                StageKind::Demultiplexer,
                StageOwner::Branch(new_ordinal),
            ),
            final(self).graph.stages@.len() == old(self).graph.stages@.len(),
            final(self).graph.next_id == old(self).graph.next_id + 2,
            final(self).graph.run_state == old(self).graph.run_state,
            final(self).stop == old(self).stop,
            final(self).n == old(self).n,
            final(self).next_port == old(self).next_port,
    {
        let ghost s0 = self.graph.stages@;
        let ghost branches0 = self.branches@;
        let b = self.branches[slot];
        let idx = self.detach_pair(slot);
        let ghost s2 = self.graph.stages@;
        proof {
            let (i1, i2) = idx@;
            lemma_detach_survivors(
                s0,
                i1,
                i2,
                branches0,
                slot as int,
                self.n as int,
                self.stop,
                self.next_port,
                self.graph.run_state,
            );
        }
        let new_ordinal = b.ordinal + (self.n as u64);
        let source_id = self.graph.add_stage(
            StageKind::Reader,
            StageOwner::Branch(new_ordinal),
        );
        let demux_id = self.graph.add_stage(
            StageKind::Demultiplexer,
            StageOwner::Branch(new_ordinal),
        );
        let len = self.graph.stages.len();
        self.graph.sync_state_at(len - 2);
        self.graph.sync_state_at(len - 1);
        let ghost rs = self.graph.run_state;
        let ghost rd = Stage {
            id: source_id,
            kind: StageKind::Reader,
            owner: StageOwner::Branch(new_ordinal),
            state: rs,
        };
        let ghost dx = Stage {
            id: demux_id,
            kind: StageKind::Demultiplexer,
            owner: StageOwner::Branch(new_ordinal),
            state: rs,
        };
        proof {
            assert(self.graph.stages@ =~= s2.push(rd).push(dx));
        }
        let mut nb = b;
        nb.ordinal = new_ordinal;
        nb.phase = BranchPhase::Rebuilding;
        nb.source_id = source_id;
        nb.demux_id = demux_id;
        nb.merge_port = None;
        nb.fault = None;
        self.branches[slot] = nb;
        proof {
            let ghost ord = b.ordinal;
            let ghost nn = self.n as u64;
            let ghost s4 = s2.push(rd).push(dx);
            assert(self.branches@ =~= branches0.update(slot as int, nb));
            lemma_push_preserves_has_stage(s2, rd);
            lemma_push_preserves_has_stage(s2.push(rd), dx);
            assert(branch_ok(
                branches0[slot as int],
                slot as int,
                self.n as int,
                self.stop,
                self.next_port,
                s0,
            ));
            assert(ord % nn == slot as u64);
            assert(new_ordinal % nn == slot as u64) by (nonlinear_arith)
                requires
                    1 <= nn,
                    new_ordinal == ord + nn,
                    ord % nn == slot as u64,
            ;
            assert(stage_is(s4[s2.len() as int], source_id, StageKind::Reader, StageOwner::Branch(new_ordinal)));
            assert(stage_is(
                s4[s2.len() as int + 1],
                demux_id,
                StageKind::Demultiplexer,
                StageOwner::Branch(new_ordinal),
            ));
            assert forall|k: int| 0 <= k < self.branches@.len() implies #[trigger] branch_ok(
                self.branches@[k],
                k,
                self.n as int,
                self.stop,
                self.next_port,
                self.graph.stages@,
            ) by {
                assert(branch_ok(
                    branches0[k],
                    k,
                    self.n as int,
                    self.stop,
                    self.next_port,
                    s0,
                ));
                if k != slot as int && !(branches0[k].phase is Abandoned) {
                    assert(branches0[k].ordinal % nn == k as u64);
                    assert(StageOwner::Branch(branches0[k].ordinal) != StageOwner::Branch(ord));
                }
            }
            assert forall|i: int| 0 <= i < self.graph.stages@.len() implies stage_ok(
                #[trigger] self.graph.stages@[i],
                self.branches@,
                self.n as int,
                self.graph.run_state,
            ) by {
                let st = self.graph.stages@[i];
                if i < s2.len() {
                    assert(st == s2[i]);
                    assert(stage_ok(st, branches0, self.n as int, self.graph.run_state));
                    assert(st.owner != StageOwner::Branch(ord));
                    if let StageOwner::Branch(o) = st.owner {
                        let k = (o % nn) as int;
                        assert(o == branches0[k].ordinal);
                        if k == slot as int {
                            assert(o == ord);
                            assert(false);
                        }
                    }
                } else if i == s2.len() {
                    assert(st == rd);
                } else {
                    assert(st == dx);
                }
            }
            assert forall|k1: int, k2: int|
                0 <= k1 < k2 < self.branches@.len() && (
                #[trigger] self.branches@[k1]).merge_port is Some && (
                #[trigger] self.branches@[k2]).merge_port is Some implies self.branches@[k1].merge_port
                != self.branches@[k2].merge_port by {
                assert(branches0[k1].merge_port == self.branches@[k1].merge_port || k1
                    == slot as int);
            }
            // the old pair is gone, and the fresh pair carries the new ordinal
            assert forall|i: int| 0 <= i < self.graph.stages@.len() implies (
            #[trigger] self.graph.stages@[i]).owner != StageOwner::Branch(ord) by {
                if i < s2.len() {
                    assert(self.graph.stages@[i] == s2[i]);
                }
            }
        }
        new_ordinal
    }

    /// Interceptor callback for one branch's downstream edge. Runs on the
    /// data-flow context: it never mutates the graph, only the branch's own
    /// state, and returns the item's disposition together with the deferred
    /// work to schedule.
    ///
    /// The exhausted demultiplexer emits one end-of-branch marker and its
    /// edge is torn down before any replacement flows, so the interceptor is
    /// live only while its branch flows (or is closed and draining).
    pub fn on_edge_item(&mut self, slot: usize, item: EdgeItem) -> (r: (Disposition, SpliceAction))
        requires
            old(self).wf(),
            slot < old(self).branches@.len(),
            old(self).branch(slot as int).phase is Flowing || old(self).branch(
                slot as int,
            ).phase is Closed,
        ensures
            final(self).wf(),
            r.0 == spec_disposition(old(self).stop, item),
            r.1 == spec_action(old(self).stop, item),
            final(self).branch(slot as int).phase == spec_next_phase(
                old(self).stop,
                item,
                old(self).branch(slot as int).phase,
            ),
            final(self).branches@ == old(self).branches@.update(
                slot as int,
                final(self).branch(slot as int),
            ),
            final(self).branch(slot as int) == (Branch {
                phase: final(self).branch(slot as int).phase,
                ..old(self).branch(slot as int)
            }),
            final(self).graph == old(self).graph,
            final(self).stop == old(self).stop,
            final(self).n == old(self).n,
            final(self).next_port == old(self).next_port,
    {
        let is_end = match item {
            EdgeItem::EndOfBranch => true,
            _ => false,
        };
        let stop = self.stop;
        let mut b = self.branches[slot];
        let r = if is_end {
            if stop {
                b.phase = BranchPhase::Closed;
                (Disposition::Pass, SpliceAction::NoAction)
            } else {
                b.phase = BranchPhase::EndSeen;
                (Disposition::Drop, SpliceAction::ScheduleRebuild)
            }
        } else {
            (Disposition::Pass, SpliceAction::NoAction)
        };
        self.branches[slot] = b;
        proof {
            assert(self.branches@ =~= old(self).branches@.update(slot as int, b));
            assert forall|k: int| 0 <= k < self.branches@.len() implies #[trigger] branch_ok(
                self.branches@[k],
                k,
                self.n as int,
                self.stop,
                self.next_port,
                self.graph.stages@,
            ) by {
                assert(branch_ok(
                    old(self).branches@[k],
                    k,
                    self.n as int,
                    self.stop,
                    self.next_port,
                    self.graph.stages@,
                ));
            }
            assert forall|i: int| 0 <= i < self.graph.stages@.len() implies stage_ok(
                #[trigger] self.graph.stages@[i],
                self.branches@,
                self.n as int,
                self.graph.run_state,
            ) by {
                assert(stage_ok(
                    self.graph.stages@[i],
                    old(self).branches@,
                    self.n as int,
                    self.graph.run_state,
                ));
            }
        }
        r
    }

    /// Configured parallelism: how many branches the relay was built with.
    pub fn branch_count(&self) -> (c: usize)
        ensures
            c == self.n,
    {
        self.n
    }

    /// Whether final shutdown was requested.
    pub fn stop_requested(&self) -> (s: bool)
        ensures
            s == self.stop,
    {
        self.stop
    }

    /// One branch's current phase.
    pub fn branch_phase(&self, slot: usize) -> (p: BranchPhase)
        requires
            slot < self.branches@.len(),
        ensures
            p == self.branch(slot as int).phase,
    {
        self.branches[slot].phase
    }

    /// One branch's current ordinal.
    pub fn branch_ordinal(&self, slot: usize) -> (o: u64)
        requires
            slot < self.branches@.len(),
        ensures
            o == self.branch(slot as int).ordinal,
    {
        self.branches[slot].ordinal
    }

    /// Why a branch was abandoned, if it was.
    pub fn branch_fault(&self, slot: usize) -> (f: Option<SpliceError>)
        requires
            slot < self.branches@.len(),
        ensures
            f == self.branch(slot as int).fault,
    {
        self.branches[slot].fault
    }

    /// How many stages stand in the graph's handle table.
    pub fn stage_total(&self) -> (c: usize)
        ensures
            c == self.graph.stages@.len(),
    {
        self.graph.stages.len()
    }

    /// How many input ports of the merge stage are currently linked to a
    /// branch.
    pub fn linked_merge_ports(&self) -> (count: usize)
        ensures
            count as nat == spec_linked_ports(self.branches@),
    {
        let len = self.branches.len();
        let mut count: usize = 0;
        let mut i: usize = 0;
        while i < len
            invariant
                i <= len,
                len == self.branches@.len(),
                count <= i,
                count as nat == spec_linked_ports(self.branches@.subrange(0, i as int)),
            decreases len - i,
        {
            proof {
                let pre = self.branches@.subrange(0, i as int);
                let post = self.branches@.subrange(0, i as int + 1);
                assert(post.drop_last() =~= pre);
                assert(post.last() == self.branches@[i as int]);
            }
            if self.branches[i].merge_port.is_some() {
                count = count + 1;
            }
            i = i + 1;
        }
        proof {
            assert(self.branches@.subrange(0, len as int) =~= self.branches@);
        }
        count
    }

    /// How many branches were abandoned after a failed rebuild.
    pub fn abandoned_branches(&self) -> (count: usize)
        ensures
            count as nat == spec_abandoned(self.branches@),
    {
        let len = self.branches.len();
        let mut count: usize = 0;
        let mut i: usize = 0;
        while i < len
            invariant
                i <= len,
                len == self.branches@.len(),
                count <= i,
                count as nat == spec_abandoned(self.branches@.subrange(0, i as int)),
            decreases len - i,
        {
            proof {
                let pre = self.branches@.subrange(0, i as int);
                let post = self.branches@.subrange(0, i as int + 1);
                assert(post.drop_last() =~= pre);
                assert(post.last() == self.branches@[i as int]);
            }
            let abandoned = match self.branches[i].phase {
                BranchPhase::Abandoned => true,
                _ => false,
            };
            if abandoned {
                count = count + 1;
            }
            i = i + 1;
        }
        proof {
            assert(self.branches@.subrange(0, len as int) =~= self.branches@);
        }
        count
    }
}

/// At steady state — every branch either flowing or abandoned — the merge
/// stage has exactly as many linked input ports as there are branches, minus
/// one for each abandoned branch: for every branch count N, N minus the
/// abandoned count.
pub proof fn lemma_steady_state_port_count(r: Relay)
    requires
        r.wf(),
        forall|k: int|
            0 <= k < r.branches@.len() ==> ((#[trigger] r.branch(k)).phase is Flowing || r.branch(
                k,
            ).phase is Abandoned),
    ensures
        spec_linked_ports(r.branches@) + spec_abandoned(r.branches@) == r.n,
        spec_linked_ports(r.branches@) == r.n - spec_abandoned(r.branches@),
{
    assert forall|k: int|
        0 <= k < r.branches@.len() implies ((#[trigger] r.branches@[k]).merge_port is Some <==> !(
    r.branches@[k].phase is Abandoned)) by {
        assert(branch_ok(r.branches@[k], k, r.n as int, r.stop, r.next_port, r.graph.stages@));
        assert(r.branch(k).phase is Flowing || r.branch(k).phase is Abandoned);
    }
    lemma_port_partition(r.branches@);
}

/// Rebuild idempotence, as an invariant of every well-formed relay: a live
/// branch has exactly one source+demultiplexer pair standing in the graph —
/// never zero (a gap in the output) and never two (a duplicate feed into the
/// merge stage's port for that branch).
pub proof fn lemma_exactly_one_pair(r: Relay, k: int)
    requires
        r.wf(),
        0 <= k < r.branches@.len(),
        !(r.branch(k).phase is Abandoned),
    ensures
        has_stage(
            r.graph.stages@,
            r.branch(k).source_id,
            StageKind::Reader,
            StageOwner::Branch(r.branch(k).ordinal),
        ),
        has_stage(
            r.graph.stages@,
            r.branch(k).demux_id,
            StageKind::Demultiplexer,
            StageOwner::Branch(r.branch(k).ordinal),
        ),
        forall|i: int, j: int|
            0 <= i < j < r.graph.stages@.len() && (#[trigger] r.graph.stages@[i]).owner
                == StageOwner::Branch(r.branch(k).ordinal) && (
            #[trigger] r.graph.stages@[j]).owner == StageOwner::Branch(r.branch(k).ordinal)
                ==> r.graph.stages@[i].kind != r.graph.stages@[j].kind,
{
    assert(branch_ok(r.branches@[k], k, r.n as int, r.stop, r.next_port, r.graph.stages@));
    let s = r.graph.stages@;
    let ord = r.branch(k).ordinal;
    assert forall|i: int, j: int|
        0 <= i < j < s.len() && (#[trigger] s[i]).owner == StageOwner::Branch(ord) && (
        #[trigger] s[j]).owner == StageOwner::Branch(ord) implies s[i].kind != s[j].kind by {
        assert(stage_ok(s[i], r.branches@, r.n as int, r.graph.run_state));
        assert(stage_ok(s[j], r.branches@, r.n as int, r.graph.run_state));
        if s[i].kind == s[j].kind {
            assert(s[i].id == s[j].id);
        }
    }
}

/// State-synchronization invariant: every stage standing in a well-formed
/// relay's graph runs in the graph's current state, so a stage added after
/// startup has reached that state before any data is expected to flow
/// through it.
pub proof fn lemma_state_sync(r: Relay)
    requires
        r.wf(),
    ensures
        forall|i: int|
            0 <= i < r.graph.stages@.len() ==> (#[trigger] r.graph.stages@[i]).state
                == r.graph.run_state,
{
    assert forall|i: int|
        0 <= i < r.graph.stages@.len() implies (#[trigger] r.graph.stages@[i]).state
        == r.graph.run_state by {
        assert(stage_ok(r.graph.stages@[i], r.branches@, r.n as int, r.graph.run_state));
    }
}

} // verus!

