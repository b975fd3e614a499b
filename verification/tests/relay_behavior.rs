use splice_relay::errors::SpliceError;
use splice_relay::relay::Relay;
use splice_relay::splice::BranchPhase;
use splice_relay::splice::Disposition;
use splice_relay::splice::EdgeItem;
use splice_relay::splice::SpliceAction;
use splice_relay::stage::RunState;
use splice_relay::stage::StageKind;
use splice_relay::stage::StageOwner;

/// Count the stages in the handle table owned by one branch ordinal, by kind.
fn pair_census(r: &Relay, ordinal: u64) -> (usize, usize) {
    let mut readers = 0;
    let mut demuxers = 0;
    for st in r.graph.stages.iter() {
        if st.owner == StageOwner::Branch(ordinal) {
            match st.kind {
                StageKind::Reader => readers += 1,
                StageKind::Demultiplexer => demuxers += 1,
                _ => panic!("a branch owns only readers and demultiplexers"),
            }
        }
    }
    (readers, demuxers)
}

/// Bring every branch of a fresh relay to the Flowing phase.
fn link_all(r: &mut Relay) {
    for slot in 0..r.branch_count() {
        r.on_port_discovered(slot);
    }
}

#[test]
fn startup_builds_n_branches() {
    let r = Relay::new(2);
    assert_eq!(r.branch_count(), 2);
    // trunk of four stages plus one pair per branch
    assert_eq!(r.stage_total(), 8);
    assert_eq!(r.linked_merge_ports(), 0);
    for slot in 0..2 {
        assert_eq!(r.branch_phase(slot), BranchPhase::Rebuilding);
        assert_eq!(r.branch_ordinal(slot), slot as u64);
        assert_eq!(r.branch_fault(slot), None);
        let (readers, demuxers) = pair_census(&r, slot as u64);
        assert_eq!((readers, demuxers), (1, 1));
    }
}

#[test]
fn discovery_links_one_port_per_branch() {
    let mut r = Relay::new(3);
    let p0 = r.on_port_discovered(0);
    let p1 = r.on_port_discovered(1);
    let p2 = r.on_port_discovered(2);
    assert_eq!((p0, p1, p2), (0, 1, 2));
    assert_eq!(r.linked_merge_ports(), 3);
    for slot in 0..3 {
        assert_eq!(r.branch_phase(slot), BranchPhase::Flowing);
    }
}

#[test]
fn end_of_branch_suppressed_while_running() {
    let mut r = Relay::new(2);
    link_all(&mut r);
    assert!(!r.stop_requested());
    let (disposition, action) = r.on_edge_item(0, EdgeItem::EndOfBranch);
    assert_eq!(disposition, Disposition::Drop);
    assert_eq!(action, SpliceAction::ScheduleRebuild);
    assert_eq!(r.branch_phase(0), BranchPhase::EndSeen);
    // the sibling branch is untouched
    assert_eq!(r.branch_phase(1), BranchPhase::Flowing);
}

#[test]
fn ordinary_traffic_always_passes() {
    let mut r = Relay::new(2);
    link_all(&mut r);
    let (d1, a1) = r.on_edge_item(0, EdgeItem::Payload(40));
    let (d2, a2) = r.on_edge_item(0, EdgeItem::Control);
    assert_eq!((d1, a1), (Disposition::Pass, SpliceAction::NoAction));
    assert_eq!((d2, a2), (Disposition::Pass, SpliceAction::NoAction));
    assert_eq!(r.branch_phase(0), BranchPhase::Flowing);
}

#[test]
fn end_of_branch_passes_once_stop_is_set() {
    let mut r = Relay::new(2);
    link_all(&mut r);
    r.request_shutdown();
    assert!(r.stop_requested());
    let (disposition, action) = r.on_edge_item(0, EdgeItem::EndOfBranch);
    assert_eq!(disposition, Disposition::Pass);
    assert_eq!(action, SpliceAction::NoAction);
    assert_eq!(r.branch_phase(0), BranchPhase::Closed);
    let (d1, a1) = r.on_edge_item(1, EdgeItem::EndOfBranch);
    assert_eq!((d1, a1), (Disposition::Pass, SpliceAction::NoAction));
}

#[test]
fn rebuild_replaces_the_pair_exactly_once() {
    let mut r = Relay::new(2);
    link_all(&mut r);
    r.on_edge_item(0, EdgeItem::EndOfBranch);
    let new_ordinal = r.rebuild_branch(0);
    // the replacement is named past every existing branch: 0 + N
    assert_eq!(new_ordinal, 2);
    assert_eq!(r.branch_ordinal(0), 2);
    assert_eq!(r.branch_phase(0), BranchPhase::Rebuilding);
    assert_eq!(r.stage_total(), 8);
    // exactly one fresh pair, and nothing left of the exhausted one
    assert_eq!(pair_census(&r, 2), (1, 1));
    assert_eq!(pair_census(&r, 0), (0, 0));
    // the sibling still flows into its port
    assert_eq!(r.branch_phase(1), BranchPhase::Flowing);
    assert_eq!(r.linked_merge_ports(), 1);
    // discovery links the rebuilt branch into a fresh port
    let port = r.on_port_discovered(0);
    assert_eq!(port, 2);
    assert_eq!(r.linked_merge_ports(), 2);
}

#[test]
fn rebuilt_stages_match_running_graph_state() {
    let mut r = Relay::new(2);
    link_all(&mut r);
    r.set_run_state(RunState::Playing);
    for st in r.graph.stages.iter() {
        assert_eq!(st.state, RunState::Playing);
    }
    r.on_edge_item(1, EdgeItem::EndOfBranch);
    r.rebuild_branch(1);
    // the late-added pair was synchronized before any data is expected
    for st in r.graph.stages.iter() {
        assert_eq!(st.state, RunState::Playing);
    }
}

#[test]
fn looping_relay_survives_repeated_rebuild_cycles() {
    let mut r = Relay::new(2);
    link_all(&mut r);
    r.set_run_state(RunState::Playing);
    let mut rebuilds = 0;
    // each source loops a short clip: branches run dry alternately
    for cycle in 0..3 {
        for slot in 0..2 {
            let (disposition, action) = r.on_edge_item(slot, EdgeItem::EndOfBranch);
            assert_eq!(disposition, Disposition::Drop);
            assert_eq!(action, SpliceAction::ScheduleRebuild);
            let new_ordinal = r.rebuild_branch(slot);
            assert_eq!(new_ordinal, (cycle + 1) * 2 + slot as u64);
            // no gap: the rebuild completed before the next end-of-branch
            r.on_port_discovered(slot);
            assert_eq!(r.branch_phase(slot), BranchPhase::Flowing);
            rebuilds += 1;
            // steady state after every splice: both ports linked
            assert_eq!(r.linked_merge_ports(), 2);
        }
    }
    assert!(rebuilds >= 2);
    assert_eq!(r.stage_total(), 8);
    assert_eq!(r.branch_ordinal(0), 6);
    assert_eq!(r.branch_ordinal(1), 7);
}

#[test]
fn abandoned_branch_releases_its_port_and_spares_siblings() {
    let mut r = Relay::new(2);
    link_all(&mut r);
    r.on_edge_item(0, EdgeItem::EndOfBranch);
    // the rebuild task failed to create a fresh source
    r.abandon_branch(0, SpliceError::BackendUnavailable);
    assert_eq!(r.branch_phase(0), BranchPhase::Abandoned);
    assert_eq!(r.branch_fault(0), Some(SpliceError::BackendUnavailable));
    assert_eq!(pair_census(&r, 0), (0, 0));
    assert_eq!(r.stage_total(), 6);
    // steady state: exactly N linked ports minus the abandoned branch
    assert_eq!(r.abandoned_branches(), 1);
    assert_eq!(r.linked_merge_ports(), 1);
    assert_eq!(r.branch_phase(1), BranchPhase::Flowing);
}

#[test]
fn each_rebuild_fault_is_recorded() {
    let faults = [
        SpliceError::BackendUnavailable,
        SpliceError::LinkFailure,
        SpliceError::PortUnavailable,
    ];
    for (i, fault) in faults.iter().enumerate() {
        let mut r = Relay::new(3);
        link_all(&mut r);
        r.on_edge_item(i, EdgeItem::EndOfBranch);
        r.abandon_branch(i, *fault);
        assert_eq!(r.branch_fault(i), Some(*fault));
    }
}

#[test]
fn link_failure_at_discovery_abandons_from_rebuilding() {
    let mut r = Relay::new(2);
    // branch 0 never gets its demultiplexer output linked
    r.abandon_branch(0, SpliceError::LinkFailure);
    assert_eq!(r.branch_phase(0), BranchPhase::Abandoned);
    assert_eq!(r.stage_total(), 6);
    r.on_port_discovered(1);
    assert_eq!(r.linked_merge_ports(), 1);
}

#[test]
fn shutdown_during_rebuild_leaks_no_stage() {
    let mut r = Relay::new(2);
    link_all(&mut r);
    r.set_run_state(RunState::Playing);
    // a rebuild is in flight when final shutdown is requested
    r.on_edge_item(0, EdgeItem::EndOfBranch);
    r.request_shutdown();
    // the in-flight task is not aborted: it completes cleanly
    let new_ordinal = r.rebuild_branch(0);
    assert_eq!(new_ordinal, 2);
    assert_eq!(r.stage_total(), 8);
    assert_eq!(pair_census(&r, 0), (0, 0));
    assert_eq!(pair_census(&r, 2), (1, 1));
    // every remaining stage belongs to the trunk or to a live branch
    for st in r.graph.stages.iter() {
        match st.owner {
            StageOwner::Trunk => {}
            StageOwner::Branch(o) => assert!(o == r.branch_ordinal(0) || o == r.branch_ordinal(1)),
        }
    }
    // and the sibling drains out through its own end-of-branch event
    let (disposition, _) = r.on_edge_item(1, EdgeItem::EndOfBranch);
    assert_eq!(disposition, Disposition::Pass);
}
