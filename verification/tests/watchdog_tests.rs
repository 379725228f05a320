use waybroker::ipc::WatchdogCommand;
use waybroker::profile::{
    DesktopComponentRole, DesktopComponentState, DesktopHealthStatus, DesktopProtocol,
    DesktopRecoveryAction, SessionLaunchComponentState, SessionLaunchDelta, SessionLaunchState,
};
use waybroker::service::ServiceRole;
use waybroker::watchdog::{
    handle_watchdog_command, inspect_launch_state, misaddressed_reply, should_notify_sessiond,
    StateUpdateOutcome, WatchdogServer, WatchdogStep,
};

fn wm(state: DesktopComponentState, pid: Option<u32>, restarts: u32, exit: Option<i32>) -> SessionLaunchComponentState {
    SessionLaunchComponentState {
        id: "wm".into(),
        role: DesktopComponentRole::WindowManager,
        critical: true,
        command: vec!["wm".into()],
        resolved_command: Some("/usr/bin/wm".into()),
        state,
        pid,
        restart_count: restarts,
        last_exit_status: exit,
    }
}

fn demo_state(sequence: u64, components: Vec<SessionLaunchComponentState>, services: Vec<ServiceRole>) -> SessionLaunchState {
    SessionLaunchState {
        profile_id: "demo".into(),
        display_name: "Demo".into(),
        protocol: DesktopProtocol::LayerX11,
        broker_services: services,
        generation: 1,
        sequence,
        components,
        unix_timestamp: 0,
        service_component_bindings: Vec::new(),
        service_recovery_execution_policies: Vec::new(),
    }
}

fn demo_delta(sequence: u64, components: Vec<SessionLaunchComponentState>) -> SessionLaunchDelta {
    SessionLaunchDelta {
        profile_id: "demo".into(),
        display_name: "Demo".into(),
        protocol: DesktopProtocol::LayerX11,
        broker_services: vec![ServiceRole::Sessiond, ServiceRole::Watchdog],
        generation: 1,
        sequence,
        replace: false,
        components,
        unix_timestamp: 0,
        service_component_bindings: Vec::new(),
        service_recovery_execution_policies: Vec::new(),
    }
}

#[test]
fn marks_missing_component_as_unhealthy() {
    let state = demo_state(
        1,
        vec![SessionLaunchComponentState {
            id: "missing".into(),
            role: DesktopComponentRole::Shell,
            critical: true,
            command: vec!["missing".into()],
            resolved_command: None,
            state: DesktopComponentState::Missing,
            pid: None,
            restart_count: 0,
            last_exit_status: None,
        }],
        vec![ServiceRole::Watchdog],
    );

    let report = inspect_launch_state(&state, &vec![false]);

    assert_eq!(report.unhealthy_components, 1);
    assert_eq!(report.components[0].status, DesktopHealthStatus::Unhealthy);
    assert_eq!(report.components[0].action, DesktopRecoveryAction::DegradedProfile);
}

#[test]
fn marks_ready_component_as_inactive() {
    let state = demo_state(
        1,
        vec![SessionLaunchComponentState {
            id: "ready".into(),
            role: DesktopComponentRole::Panel,
            critical: false,
            command: vec!["panel".into()],
            resolved_command: Some("/usr/bin/panel".into()),
            state: DesktopComponentState::Ready,
            pid: None,
            restart_count: 0,
            last_exit_status: None,
        }],
        vec![ServiceRole::Watchdog],
    );

    let report = inspect_launch_state(&state, &vec![false]);

    assert_eq!(report.inactive_components, 1);
    assert_eq!(report.components[0].status, DesktopHealthStatus::Inactive);
    assert_eq!(report.components[0].action, DesktopRecoveryAction::NoAction);
}

#[test]
fn marks_live_spawned_component_as_healthy() {
    let state = demo_state(1, vec![wm(DesktopComponentState::Spawned, Some(10), 0, None)], vec![ServiceRole::Watchdog]);
    let report = inspect_launch_state(&state, &vec![true]);
    assert_eq!(report.healthy_components, 1);
    assert_eq!(report.components[0].status, DesktopHealthStatus::Healthy);
    assert_eq!(report.components[0].pid, Some(10));
}

#[test]
fn merges_delta_into_cached_launch_state() {
    let state = demo_state(
        1,
        vec![
            wm(DesktopComponentState::Spawned, Some(10), 0, None),
            SessionLaunchComponentState {
                id: "panel".into(),
                role: DesktopComponentRole::Panel,
                critical: false,
                command: vec!["panel".into()],
                resolved_command: Some("/usr/bin/panel".into()),
                state: DesktopComponentState::Spawned,
                pid: Some(11),
                restart_count: 0,
                last_exit_status: None,
            },
        ],
        vec![ServiceRole::Sessiond, ServiceRole::Watchdog],
    );
    let mut server = WatchdogServer::new();
    server.cache_full_state(&state);

    let merged = match server.apply_delta(demo_delta(2, vec![wm(DesktopComponentState::Failed, None, 3, Some(1))])) {
        StateUpdateOutcome::Accepted(state) => state,
        other => panic!("expected merged delta state, got {other:?}"),
    };

    assert_eq!(merged.components.len(), 2);
    assert_eq!(merged.components[0].id, "wm");
    assert_eq!(merged.components[0].state, DesktopComponentState::Failed);
    assert_eq!(merged.components[0].restart_count, 3);
    assert_eq!(merged.generation, 1);
    assert_eq!(merged.sequence, 2);
    assert_eq!(merged.components[1].id, "panel");
    assert_eq!(merged.components[1].state, DesktopComponentState::Spawned);
}

#[test]
fn requests_resync_when_delta_arrives_without_cached_state() {
    let mut server = WatchdogServer::new();

    let step = handle_watchdog_command(
        WatchdogCommand::UpdateLaunchState { delta: demo_delta(2, vec![wm(DesktopComponentState::Failed, None, 3, Some(1))]) },
        &mut server,
    );

    match step {
        WatchdogStep::Reply(WatchdogCommand::ResyncLaunchState { profile_id, reason, .. }) => {
            assert_eq!(profile_id, "demo");
            assert!(reason.contains("cache miss"));
        }
        _ => panic!("expected resync request"),
    }
}

#[test]
fn ignores_stale_delta_when_sequence_goes_backwards() {
    let state = demo_state(3, vec![wm(DesktopComponentState::Spawned, Some(10), 0, None)], vec![ServiceRole::Sessiond, ServiceRole::Watchdog]);
    let mut server = WatchdogServer::new();
    server.cache_full_state(&state);

    let response = server.apply_delta(demo_delta(2, vec![wm(DesktopComponentState::Failed, None, 3, Some(1))]));

    match response {
        StateUpdateOutcome::Ignored { state, reason } => {
            assert_eq!(state.sequence, 3);
            assert_eq!(state.components[0].state, DesktopComponentState::Spawned);
            assert!(reason.contains("not newer"));
        }
        other => panic!("expected stale delta to be ignored, got {other:?}"),
    }
}

#[test]
fn requests_resync_when_sequence_gap_is_detected() {
    let state = demo_state(1, vec![wm(DesktopComponentState::Spawned, Some(10), 0, None)], vec![ServiceRole::Sessiond, ServiceRole::Watchdog]);
    let mut server = WatchdogServer::new();
    server.cache_full_state(&state);

    let response = server.apply_delta(demo_delta(3, vec![wm(DesktopComponentState::Failed, None, 1, Some(1))]));

    match response {
        StateUpdateOutcome::Resync { profile_id, reason } => {
            assert_eq!(profile_id, "demo");
            assert!(reason.contains("sequence gap"));
        }
        other => panic!("expected resync for sequence gap, got {other:?}"),
    }
}

#[test]
fn watchdog_restarts_only_compd_and_lockd() {
    let mut server = WatchdogServer::new();
    match handle_watchdog_command(
        WatchdogCommand::Restart { role: ServiceRole::Compd, session_instance_id: "s".into(), reason: "r".into() },
        &mut server,
    ) {
        WatchdogStep::RecordRestart { role, .. } => assert_eq!(role, ServiceRole::Compd),
        _ => panic!("expected a recorded restart"),
    }
    match handle_watchdog_command(
        WatchdogCommand::Restart { role: ServiceRole::Displayd, session_instance_id: "s".into(), reason: "r".into() },
        &mut server,
    ) {
        WatchdogStep::Reply(WatchdogCommand::Escalate { level, reason }) => {
            assert_eq!(level, 1);
            assert_eq!(reason, "watchdog does not support restarting displayd");
        }
        _ => panic!("expected an escalation"),
    }
    match handle_watchdog_command(WatchdogCommand::Escalate { level: 2, reason: "x".into() }, &mut server) {
        WatchdogStep::Reply(WatchdogCommand::Escalate { level, reason }) => {
            assert_eq!(level, 1);
            assert!(reason.starts_with("watchdog IPC does not apply "));
        }
        _ => panic!("expected an escalation"),
    }
}

#[test]
fn full_state_is_cached_and_inspected() {
    let mut server = WatchdogServer::new();
    let state = demo_state(1, vec![wm(DesktopComponentState::Spawned, Some(10), 0, None)], vec![ServiceRole::Watchdog]);
    match handle_watchdog_command(WatchdogCommand::InspectLaunchState { state: state.clone() }, &mut server) {
        WatchdogStep::Inspect { state: inspected, ignored } => {
            assert_eq!(inspected, state);
            assert!(ignored.is_none());
        }
        _ => panic!("expected an inspection"),
    }
}

#[test]
fn sessiond_is_notified_only_when_asked_and_not_by_itself() {
    assert!(should_notify_sessiond(true, ServiceRole::Compd));
    assert!(!should_notify_sessiond(true, ServiceRole::Sessiond));
    assert!(!should_notify_sessiond(false, ServiceRole::Compd));
    match misaddressed_reply(ServiceRole::Compd) {
        WatchdogCommand::Escalate { level, reason } => {
            assert_eq!(level, 1);
            assert!(reason.contains("compd"));
        }
        other => panic!("unexpected reply {other:?}"),
    }
}

#[test]
fn health_counts_add_up_to_the_components() {
    let state = demo_state(
        1,
        vec![
            wm(DesktopComponentState::Spawned, Some(1), 0, None),
            wm(DesktopComponentState::Missing, None, 0, None),
            wm(DesktopComponentState::Ready, None, 0, None),
        ],
        vec![ServiceRole::Sessiond],
    );
    let report = inspect_launch_state(&state, &vec![true, false, false]);
    assert_eq!(
        report.healthy_components + report.unhealthy_components + report.inactive_components,
        state.components.len()
    );
}
