//! The dataflow graph: a handle table of stages keyed by stable identifier,
//! together with the mutator primitives that change its structure.
//!
//! Structural mutation is sequenced — unlink, stop, remove for teardown;
//! create, add, link, synchronize-state for build-up — and a stage may only be
//! destroyed once it has been driven to the Null state.

use vstd::prelude::*;

use crate::stage::RunState;
use crate::stage::Stage;
use crate::stage::StageKind;
use crate::stage::StageOwner;

verus! {

/// No two stages in the table share an identifier.
pub open spec fn ids_unique(s: Seq<Stage>) -> bool {
    forall|i: int, j: int|
        0 <= i < j < s.len() ==> (#[trigger] s[i]).id != (#[trigger] s[j]).id
}

/// Every identifier in the table is below `bound`, so a fresh identifier
/// drawn at `bound` can never collide with a registered one.
pub open spec fn ids_below(s: Seq<Stage>, bound: u64) -> bool {
    forall|i: int| 0 <= i < s.len() ==> (#[trigger] s[i]).id < bound
}

/// The stage has this identifier, kind and owner (its state may be anything).
pub open spec fn stage_is(st: Stage, id: u64, kind: StageKind, owner: StageOwner) -> bool {
    st.id == id && st.kind == kind && st.owner == owner
}

/// The table holds a stage with this identifier, kind and owner.
pub open spec fn has_stage(s: Seq<Stage>, id: u64, kind: StageKind, owner: StageOwner) -> bool {
    exists|i: int| 0 <= i < s.len() && stage_is(#[trigger] s[i], id, kind, owner)
}

/// The dataflow graph. Detached tasks reach it through this handle table
/// rather than through ambient references, and check `shutting_down` so a
/// task born just before shutdown fails gracefully.
pub struct Graph {
    pub stages: Vec<Stage>,
    pub next_id: u64,
    pub run_state: RunState,
    pub shutting_down: bool,
}

impl Graph {
    /// Identifiers are unique and below the fresh-identifier counter.
    pub open spec fn wf(self) -> bool {
        &&& ids_unique(self.stages@)
        &&& ids_below(self.stages@, self.next_id)
    }

    /// An empty graph, not yet running.
    pub fn new() -> (g: Graph)
        ensures
            g.wf(),
            g.stages@.len() == 0,
            g.next_id == 0,
            g.run_state is Null,
            !g.shutting_down,
    {
        Graph { stages: Vec::new(), next_id: 0, run_state: RunState::Null, shutting_down: false }
    }

    /// Registry `create` plus mutator `add`: the stage is created in the Null
    /// state and registered under a fresh identifier. Synchronizing it with
    /// the graph's run state is a separate, later step.
    pub fn add_stage(&mut self, kind: StageKind, owner: StageOwner) -> (id: u64)
        requires
            old(self).next_id < u64::MAX,
        ensures
            id == old(self).next_id,
            final(self).next_id == old(self).next_id + 1,
            final(self).stages@ == old(self).stages@.push(
                (Stage { id, kind, owner, state: RunState::Null }),
            ),
            final(self).run_state == old(self).run_state,
            final(self).shutting_down == old(self).shutting_down,
            old(self).wf() ==> final(self).wf(),
    {
        let id = self.next_id;
        self.next_id = self.next_id + 1;
        self.stages.push(Stage { id, kind, owner, state: RunState::Null });
        proof {
            if ids_unique(old(self).stages@) && ids_below(old(self).stages@, id) {
                assert forall|i: int, j: int| 0 <= i < j < self.stages@.len() implies (
                #[trigger] self.stages@[i]).id != (#[trigger] self.stages@[j]).id by {
                    if j < self.stages@.len() - 1 {
                        assert(self.stages@[i] == old(self).stages@[i]);
                        assert(self.stages@[j] == old(self).stages@[j]);
                    } else {
                        assert(self.stages@[i] == old(self).stages@[i]);
                        assert(self.stages@[i].id < id);
                    }
                }
            }
        }
        id
    }

    /// Table index of the stage registered under `id`.
    pub fn index_of(&self, id: u64) -> (i: usize)
        requires
            exists|j: int| 0 <= j < self.stages@.len() && (#[trigger] self.stages@[j]).id == id,
        ensures
            i < self.stages@.len(),
            self.stages@[i as int].id == id,
    {
        let len = self.stages.len();
        let mut i: usize = 0;
        while i < len
            invariant
                i <= len,
                len == self.stages@.len(),
                forall|m: int| 0 <= m < i ==> (#[trigger] self.stages@[m]).id != id,
                exists|j: int| 0 <= j < self.stages@.len() && (#[trigger] self.stages@[j]).id
                    == id,
            decreases len - i,
        {
            if self.stages[i].id == id {
                return i;
            }
            i = i + 1;
        }
        proof {
            assert(false);
        }
        0
    }

    /// Mutator state step: set one stage's execution state.
    pub fn set_state_at(&mut self, i: usize, st: RunState)
        requires
            i < old(self).stages@.len(),
        ensures
            final(self).stages@ == old(self).stages@.update(
                i as int,
                (Stage { state: st, ..old(self).stages@[i as int] }),
            ),
            final(self).next_id == old(self).next_id,
            final(self).run_state == old(self).run_state,
            final(self).shutting_down == old(self).shutting_down,
            old(self).wf() ==> final(self).wf(),
    {
        let mut updated = self.stages[i];
        updated.state = st;
        self.stages[i] = updated;
        proof {
            if old(self).wf() {
                assert forall|a: int, b: int| 0 <= a < b < self.stages@.len() implies (
                #[trigger] self.stages@[a]).id != (#[trigger] self.stages@[b]).id by {
                    assert(old(self).stages@[a].id != old(self).stages@[b].id);
                }
                assert forall|a: int| 0 <= a < self.stages@.len() implies (
                #[trigger] self.stages@[a]).id < self.next_id by {
                    assert(old(self).stages@[a].id < old(self).next_id);
                }
            }
        }
    }

    /// Mutator `synchronize-state` step: bring one stage to the graph's own
    /// run state, so a stage added after startup does not silently stall.
    pub fn sync_state_at(&mut self, i: usize)
        requires
            i < old(self).stages@.len(),
        ensures
            final(self).stages@ == old(self).stages@.update(
                i as int,
                (Stage { state: old(self).run_state, ..old(self).stages@[i as int] }),
            ),
            final(self).next_id == old(self).next_id,
            final(self).run_state == old(self).run_state,
            final(self).shutting_down == old(self).shutting_down,
            old(self).wf() ==> final(self).wf(),
    {
        let st = self.run_state;
        self.set_state_at(i, st);
    }

    /// Registry `destroy` plus mutator `remove`: only a stage already driven
    /// to the Null state may be dropped from the table.
    pub fn remove_at(&mut self, i: usize) -> (st: Stage)
        requires
            i < old(self).stages@.len(),
            old(self).stages@[i as int].state is Null,
        ensures
            st == old(self).stages@[i as int],
            final(self).stages@ == old(self).stages@.remove(i as int),
            final(self).next_id == old(self).next_id,
            final(self).run_state == old(self).run_state,
            final(self).shutting_down == old(self).shutting_down,
            old(self).wf() ==> final(self).wf(),
    {
        let st = self.stages.remove(i);
        proof {
            if old(self).wf() {
                lemma_remove_keeps_ids(old(self).stages@, i as int, old(self).next_id);
            }
        }
        st
    }

    /// Graph-wide state control: drive the graph and every registered stage
    /// to `st` in one sweep.
    pub fn set_run_state_all(&mut self, st: RunState)
        ensures
            final(self).run_state == st,
            final(self).stages@.len() == old(self).stages@.len(),
            forall|i: int|
                0 <= i < old(self).stages@.len() ==> #[trigger] final(self).stages@[i] == (Stage {
                    state: st,
                    ..old(self).stages@[i]
                }),
            final(self).next_id == old(self).next_id,
            final(self).shutting_down == old(self).shutting_down,
    {
        self.run_state = st;
        let len = self.stages.len();
        let mut i: usize = 0;
        while i < len
            invariant
                i <= len,
                len == self.stages@.len(),
                self.stages@.len() == old(self).stages@.len(),
                self.next_id == old(self).next_id,
                self.run_state == st,
                self.shutting_down == old(self).shutting_down,
                forall|m: int|
                    0 <= m < i ==> #[trigger] self.stages@[m] == (Stage {
                        state: st,
                        ..old(self).stages@[m]
                    }),
                forall|m: int| i <= m < len ==> #[trigger] self.stages@[m] == old(self).stages@[m],
            decreases len - i,
        {
            self.set_state_at(i, st);
            i = i + 1;
        }
    }

    /// Mark the graph as shutting down, the sentinel a detached task checks
    /// before touching the table.
    pub fn mark_shutting_down(&mut self)
        ensures
            final(self).shutting_down,
            final(self).stages@ == old(self).stages@,
            final(self).next_id == old(self).next_id,
            final(self).run_state == old(self).run_state,
    {
        self.shutting_down = true;
    }
}

/// Removing a stage keeps every other registration findable: a stage that is
/// present and is not the one removed is still present afterwards.
pub proof fn lemma_remove_preserves_has_stage(
    s: Seq<Stage>,
    i: int,
    id: u64,
    kind: StageKind,
    owner: StageOwner,
)
    requires
        0 <= i < s.len(),
        has_stage(s, id, kind, owner),
        !stage_is(s[i], id, kind, owner),
    ensures
        has_stage(s.remove(i), id, kind, owner),
{
    let j = choose|j: int| 0 <= j < s.len() && stage_is(#[trigger] s[j], id, kind, owner);
    s.remove_ensures(i);
    if j < i {
        assert(stage_is(s.remove(i)[j], id, kind, owner));
    } else {
        assert(j > i);
        assert(stage_is(s.remove(i)[j - 1], id, kind, owner));
    }
}

/// Registering one more stage keeps every existing registration findable.
pub proof fn lemma_push_preserves_has_stage(s: Seq<Stage>, x: Stage)
    ensures
        forall|id: u64, kind: StageKind, owner: StageOwner|
            has_stage(s, id, kind, owner) ==> #[trigger] has_stage(s.push(x), id, kind, owner),
{
    assert forall|id: u64, kind: StageKind, owner: StageOwner|
        has_stage(s, id, kind, owner) implies #[trigger] has_stage(s.push(x), id, kind, owner) by {
        let j = choose|j: int| 0 <= j < s.len() && stage_is(#[trigger] s[j], id, kind, owner);
        assert(s.push(x)[j] == s[j]);
        assert(stage_is(s.push(x)[j], id, kind, owner));
    }
}



/// Overwriting a stage in place and then removing that slot is the same as
/// removing the original stage.
pub proof fn lemma_update_then_remove(s: Seq<Stage>, i: int, x: Stage)
    requires
        0 <= i < s.len(),
    ensures
        s.update(i, x).remove(i) == s.remove(i),
{
    s.remove_ensures(i);
    s.update(i, x).remove_ensures(i);
    assert(s.update(i, x).remove(i) =~= s.remove(i));
}

/// Removing a stage keeps identifiers unique and bounded.
pub proof fn lemma_remove_keeps_ids(s: Seq<Stage>, i: int, bound: u64)
    requires
        0 <= i < s.len(),
        ids_unique(s),
        ids_below(s, bound),
    ensures
        ids_unique(s.remove(i)),
        ids_below(s.remove(i), bound),
{
    s.remove_ensures(i);
    assert forall|a: int, b: int| 0 <= a < b < s.remove(i).len() implies (
    #[trigger] s.remove(i)[a]).id != (#[trigger] s.remove(i)[b]).id by {
        let a0 = if a < i {
            a
        } else {
            a + 1
        };
        let b0 = if b < i {
            b
        } else {
            b + 1
        };
        assert(s.remove(i)[a] == s[a0]);
        assert(s.remove(i)[b] == s[b0]);
    }
}

} // verus!
