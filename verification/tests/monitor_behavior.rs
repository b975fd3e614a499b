use splice_relay::monitor::LifecycleMsg;
use splice_relay::monitor::MonitorVerdict;
use splice_relay::monitor::monitor_drain;
use splice_relay::monitor::monitor_step;
use splice_relay::relay::Relay;
use splice_relay::splice::BranchPhase;
use splice_relay::splice::EdgeItem;
use splice_relay::stage::RunState;

#[test]
fn verdict_per_message_kind() {
    assert_eq!(monitor_step(&LifecycleMsg::EndOfStream), MonitorVerdict::Shutdown);
    assert_eq!(
        monitor_step(&LifecycleMsg::UpstreamError { source_id: 7, detail: String::from("decode failed") }),
        MonitorVerdict::Shutdown
    );
    assert_eq!(
        monitor_step(&LifecycleMsg::StateChanged { from: RunState::Paused, to: RunState::Playing }),
        MonitorVerdict::Continue
    );
}

#[test]
fn informational_messages_leave_the_relay_running() {
    let mut r = Relay::new(2);
    r.on_port_discovered(0);
    r.on_port_discovered(1);
    r.set_run_state(RunState::Playing);
    let msgs = vec![
        LifecycleMsg::StateChanged { from: RunState::Null, to: RunState::Ready },
        LifecycleMsg::StateChanged { from: RunState::Ready, to: RunState::Paused },
        LifecycleMsg::StateChanged { from: RunState::Paused, to: RunState::Playing },
    ];
    let consumed = monitor_drain(&mut r, &msgs);
    assert_eq!(consumed, 3);
    assert_eq!(r.graph.run_state, RunState::Playing);
    assert!(!r.graph.shutting_down);
}

#[test]
fn upstream_error_shuts_the_whole_relay_down() {
    let mut r = Relay::new(2);
    r.on_port_discovered(0);
    r.on_port_discovered(1);
    r.set_run_state(RunState::Playing);
    // the error arrives mid-run; later messages are never consumed
    let msgs = vec![
        LifecycleMsg::StateChanged { from: RunState::Ready, to: RunState::Playing },
        LifecycleMsg::UpstreamError { source_id: 3, detail: String::from("source stalled") },
        LifecycleMsg::StateChanged { from: RunState::Playing, to: RunState::Paused },
        LifecycleMsg::EndOfStream,
    ];
    let consumed = monitor_drain(&mut r, &msgs);
    // shutdown within one step of the error, and nothing read past it
    assert_eq!(consumed, 2);
    assert_eq!(r.graph.run_state, RunState::Null);
    assert!(r.graph.shutting_down);
    for st in r.graph.stages.iter() {
        assert_eq!(st.state, RunState::Null);
    }
    // no rebuild was started afterwards: both branches still hold their ports
    assert_eq!(r.branch_phase(0), BranchPhase::Flowing);
    assert_eq!(r.branch_phase(1), BranchPhase::Flowing);
    assert_eq!(r.linked_merge_ports(), 2);
}

#[test]
fn requested_shutdown_ends_with_end_of_stream() {
    let mut r = Relay::new(2);
    r.on_port_discovered(0);
    r.on_port_discovered(1);
    r.set_run_state(RunState::Playing);
    // the controlling task sets the flag and broadcasts end-of-stream
    r.request_shutdown();
    r.on_edge_item(0, EdgeItem::EndOfBranch);
    r.on_edge_item(1, EdgeItem::EndOfBranch);
    let msgs = vec![LifecycleMsg::EndOfStream];
    let consumed = monitor_drain(&mut r, &msgs);
    assert_eq!(consumed, 1);
    assert_eq!(r.graph.run_state, RunState::Null);
    assert_eq!(r.branch_phase(0), BranchPhase::Closed);
    assert_eq!(r.branch_phase(1), BranchPhase::Closed);
}
