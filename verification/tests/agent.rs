use transducer_agent::agent::{
    capabilities, choose_transducer_id, deregistration_reason, metadata, registration_outcome,
    sandbox_plan, select_id, AgentState, AgentStatus, ControlSignal, DrainChange, HeartbeatEvent,
    HeartbeatStep, SandboxPlan,
};

fn reply(signal: Option<ControlSignal>) -> HeartbeatEvent {
    HeartbeatEvent::Reply { acknowledged: true, signal }
}

fn change_after(state: &mut AgentState, signal: Option<ControlSignal>) -> DrainChange {
    match state.on_heartbeat(reply(signal)) {
        HeartbeatStep::Continue { unacknowledged, change } => {
            assert!(!unacknowledged);
            change
        }
        _ => panic!("the agent goes on"),
    }
}

#[test]
fn status_follows_the_state() {
    let mut state = AgentState::new(2);
    assert_eq!(state.status(), AgentStatus::Idle);
    state.begin_work();
    assert_eq!(state.status(), AgentStatus::Busy);
    state.on_heartbeat(reply(Some(ControlSignal::Drain)));
    assert_eq!(state.status(), AgentStatus::Draining);
    let heartbeat = state.heartbeat("agent-1");
    assert_eq!(heartbeat.transducer_id, "agent-1");
    assert_eq!(heartbeat.status, AgentStatus::Draining);
    assert_eq!(heartbeat.active_work_count, 1);
    state.finish_work();
    assert_eq!(state.status(), AgentStatus::Draining);
    state.on_heartbeat(reply(Some(ControlSignal::Continue)));
    assert_eq!(state.status(), AgentStatus::Idle);
}

#[test]
fn work_is_counted_up_to_the_maximum() {
    let mut state = AgentState::new(2);
    assert_eq!(state.max_concurrent(), 2);
    state.begin_work();
    state.begin_work();
    assert_eq!(state.active_work_count(), 2);
    state.finish_work();
    assert_eq!(state.active_work_count(), 1);
    state.finish_work();
    assert_eq!(state.active_work_count(), 0);
}

#[test]
fn run_keeps_to_the_maximum() {
    let mut state = AgentState::new(3);
    let mut in_hand = 0;
    for round in 0..50 {
        if round % 3 != 2 && state.active_work_count() < state.max_concurrent() {
            state.begin_work();
            in_hand += 1;
        } else if state.active_work_count() > 0 {
            state.finish_work();
            in_hand -= 1;
        }
        state.on_heartbeat(reply(Some(ControlSignal::Drain)));
        assert_eq!(state.active_work_count(), in_hand);
        assert!(in_hand <= 3);
    }
    while in_hand > 0 {
        state.finish_work();
        in_hand -= 1;
    }
    assert_eq!(state.active_work_count(), 0);
}

#[test]
fn drain_mode_is_entered_and_left_once() {
    let mut state = AgentState::new(1);
    assert_eq!(change_after(&mut state, Some(ControlSignal::Continue)), DrainChange::Unchanged);
    assert_eq!(change_after(&mut state, Some(ControlSignal::Drain)), DrainChange::Entered);
    assert_eq!(change_after(&mut state, Some(ControlSignal::Drain)), DrainChange::Unchanged);
    assert!(state.is_draining());
    assert_eq!(change_after(&mut state, Some(ControlSignal::Other)), DrainChange::Unchanged);
    assert!(state.is_draining());
    assert_eq!(change_after(&mut state, Some(ControlSignal::Continue)), DrainChange::Left);
    assert!(!state.is_draining());
}

#[test]
fn unknown_signal_means_continue() {
    let mut state = AgentState::new(1);
    state.on_heartbeat(reply(Some(ControlSignal::Drain)));
    assert_eq!(change_after(&mut state, None), DrainChange::Left);
    assert!(!state.is_draining());
}

#[test]
fn unacknowledged_heartbeat_is_told_of() {
    let mut state = AgentState::new(1);
    match state.on_heartbeat(HeartbeatEvent::Reply { acknowledged: false, signal: None }) {
        HeartbeatStep::Continue { unacknowledged, .. } => assert!(unacknowledged),
        _ => panic!("the agent goes on"),
    }
}

#[test]
fn shutdown_and_the_end_of_the_stream_stop() {
    let mut state = AgentState::new(1);
    assert!(matches!(
        state.on_heartbeat(reply(Some(ControlSignal::Shutdown))),
        HeartbeatStep::Stop { unacknowledged: false }
    ));
    assert!(matches!(
        state.on_heartbeat(HeartbeatEvent::Closed),
        HeartbeatStep::Stop { unacknowledged: false }
    ));
    match state.on_heartbeat(HeartbeatEvent::Failed("reset".to_string())) {
        HeartbeatStep::Abort(error) => assert_eq!(error, "Heartbeat stream error: reset"),
        _ => panic!("the agent stops with an error"),
    }
}

#[test]
fn capabilities_are_advertised() {
    let capabilities = capabilities(3, "some-model");
    assert_eq!(
        capabilities.supported_work_types,
        vec![
            "fix_issue",
            "review_pr",
            "refactor_module",
            "add_feature",
            "write_documentation",
            "fix_ci_failure",
            "custom"
        ]
    );
    assert_eq!(
        capabilities.available_tools,
        vec!["bash", "read", "edit", "write", "glob", "grep", "task"]
    );
    assert_eq!(capabilities.max_concurrent, 3);
    assert!(capabilities.can_access_network);
    assert!(capabilities.can_write_files);
    assert_eq!(capabilities.model_id, "some-model");
    assert_eq!(capabilities.max_context_tokens, 200_000);
}

#[test]
fn host_may_be_unknown() {
    let known = metadata(Some("box".to_string()), "sjc", "0.1.0", "linux");
    assert_eq!(known.hostname, "box");
    assert_eq!(known.region, "sjc");
    assert_eq!(known.version, "0.1.0");
    assert_eq!(known.platform, "linux");
    assert_eq!(metadata(None, "local", "0.1.0", "linux").hostname, "unknown");
}

#[test]
fn failed_registration_stops_the_agent() {
    assert_eq!(registration_outcome(true, ""), Ok(()));
    assert_eq!(
        registration_outcome(false, "id taken"),
        Err("Registration failed: id taken".to_string())
    );
    assert_eq!(deregistration_reason(), "shutdown");
}

#[test]
fn id_goes_by_priority() {
    let some = |s: &str| Some(s.to_string());
    assert_eq!(choose_transducer_id(some("given"), some("spiffe"), some("host")), "given");
    assert_eq!(choose_transducer_id(None, some("spiffe"), some("host")), "spiffe");
    assert_eq!(choose_transducer_id(None, None, some("host")), "host");
    assert_eq!(select_id(None, None, None, "random".to_string()), "random");
    assert_eq!(select_id(some(""), some("spiffe"), None, "random".to_string()), "");
}

#[test]
fn nameless_agent_gets_a_random_id() {
    let one = choose_transducer_id(None, None, None);
    let other = choose_transducer_id(None, None, None);
    assert_ne!(one, other);
    assert_eq!(one.len(), 36);
    let bytes = one.as_bytes();
    assert_eq!((bytes[8], bytes[13], bytes[18], bytes[23]), (b'-', b'-', b'-', b'-'));
    assert_eq!(bytes[14], b'4');
    assert!(matches!(bytes[19], b'8' | b'9' | b'a' | b'b'));
}

#[test]
fn sandbox_follows_the_flags() {
    assert!(matches!(sandbox_plan(true, Some("p".to_string())), SandboxPlan::Disabled));
    assert!(matches!(sandbox_plan(true, None), SandboxPlan::Disabled));
    assert!(matches!(sandbox_plan(false, None), SandboxPlan::Unconfigured));
    match sandbox_plan(false, Some("p".to_string())) {
        SandboxPlan::Policy(path) => assert_eq!(path, "p"),
        _ => panic!("the policy is used"),
    }
}
