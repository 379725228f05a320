use waybroker::ipc::WatchdogCommand;
use waybroker::profile::{
    DesktopComponent, DesktopComponentRole, DesktopComponentState, DesktopHealthStatus,
    DesktopLauncher, DesktopProfile, DesktopProtocol, DesktopRecoveryAction,
    SessionLaunchComponentState, SessionLaunchState, SessionWatchdogComponentReport,
    SessionWatchdogReport,
};
use waybroker::service::ServiceRole;
use waybroker::sessiond::{
    apply_watchdog_report, build_launch_state, classify_resume_answer, watchdog_stream_command, ResumeAnswer,
    ResumeAnswerKind, ResumeReply, ResumeRequest, WatchdogApplyOutcome,
};
use waybroker::supervisor::{record_exit, record_spawn, record_stop, SpawnAttempt, StreamPosition};
use waybroker::watchdog::{StateUpdateOutcome, WatchdogServer};

fn profile(id: &str, display_name: &str, summary: &str, degraded: Option<&str>, services: Vec<ServiceRole>) -> DesktopProfile {
    DesktopProfile {
        id: id.into(),
        display_name: display_name.into(),
        protocol: DesktopProtocol::LayerX11,
        summary: summary.into(),
        degraded_profile_id: degraded.map(|d| d.to_string()),
        broker_services: services,
        session_components: Vec::new(),
        service_component_bindings: Vec::new(),
        service_recovery_execution_policies: Vec::new(),
    }
}

#[test]
fn builds_missing_launch_state_for_unknown_command() {
    let mut profile = profile("test-x11", "Test", "test", None, vec![ServiceRole::Sessiond]);
    profile.session_components = vec![DesktopComponent {
        id: "missing".into(),
        role: DesktopComponentRole::Shell,
        command: vec!["definitely-not-a-real-command-waybroker".into()],
        critical: true,
        launcher: DesktopLauncher::System,
    }];

    let state = build_launch_state(&profile, vec![None]);

    assert_eq!(state.components.len(), 1);
    assert_eq!(state.components[0].state, DesktopComponentState::Missing);
    assert_eq!(state.components[0].restart_count, 0);
}

#[test]
fn evaluates_degraded_profile_transition_from_watchdog_report() {
    let active_profile = profile(
        "demo-x11-crashy",
        "Crashy Demo",
        "crash test",
        Some("demo-x11-degraded"),
        vec![ServiceRole::Sessiond, ServiceRole::Watchdog],
    );
    let degraded_profile =
        profile("demo-x11-degraded", "Degraded Demo", "fallback", None, vec![ServiceRole::Sessiond, ServiceRole::Watchdog]);
    let report = SessionWatchdogReport {
        profile_id: "demo-x11-crashy".into(),
        display_name: "Crashy Demo".into(),
        protocol: DesktopProtocol::LayerX11,
        healthy_components: 1,
        unhealthy_components: 1,
        inactive_components: 0,
        components: vec![SessionWatchdogComponentReport {
            id: "crashy-wm".into(),
            role: DesktopComponentRole::WindowManager,
            critical: true,
            status: DesktopHealthStatus::Unhealthy,
            pid: None,
            crash_loop_count: 3,
            action: DesktopRecoveryAction::DegradedProfile,
            reason: "component spawn failed or supervisor gave up".into(),
        }],
        unix_timestamp: 0,
    };

    let outcome = apply_watchdog_report(&active_profile, &vec![active_profile.clone(), degraded_profile.clone()], &report)
        .expect("evaluate transition");

    match outcome {
        WatchdogApplyOutcome::Transition { target_profile, transition } => {
            assert_eq!(target_profile.id, "demo-x11-degraded");
            assert_eq!(transition.source_profile_id, "demo-x11-crashy");
            assert_eq!(transition.target_profile_id, "demo-x11-degraded");
            assert_eq!(transition.trigger_component_ids, vec!["crashy-wm".to_string()]);
        }
        WatchdogApplyOutcome::Unchanged { .. } => {
            panic!("transition should be present");
        }
    }
}

#[test]
fn ignores_watchdog_transition_when_no_degraded_action_exists() {
    let active_profile =
        profile("demo-x11", "Demo", "demo", Some("demo-x11-degraded"), vec![ServiceRole::Sessiond, ServiceRole::Watchdog]);
    let report = SessionWatchdogReport {
        profile_id: "demo-x11".into(),
        display_name: "Demo".into(),
        protocol: DesktopProtocol::LayerX11,
        healthy_components: 1,
        unhealthy_components: 0,
        inactive_components: 0,
        components: vec![SessionWatchdogComponentReport {
            id: "demo-wm".into(),
            role: DesktopComponentRole::WindowManager,
            critical: true,
            status: DesktopHealthStatus::Healthy,
            pid: Some(42),
            crash_loop_count: 0,
            action: DesktopRecoveryAction::NoAction,
            reason: "component process is alive".into(),
        }],
        unix_timestamp: 0,
    };

    let outcome = apply_watchdog_report(&active_profile, &vec![active_profile.clone()], &report).expect("evaluate transition");

    match outcome {
        WatchdogApplyOutcome::Transition { .. } => {
            panic!("transition should not be present");
        }
        WatchdogApplyOutcome::Unchanged { profile_id, reason } => {
            assert_eq!(profile_id, "demo-x11");
            assert_eq!(reason, "watchdog report did not request degraded profile switch");
        }
    }
}

#[test]
fn refuses_report_for_another_profile() {
    let active_profile = profile("demo-x11", "Demo", "demo", None, vec![ServiceRole::Sessiond]);
    let report = SessionWatchdogReport {
        profile_id: "other".into(),
        display_name: "Other".into(),
        protocol: DesktopProtocol::LayerX11,
        healthy_components: 0,
        unhealthy_components: 0,
        inactive_components: 0,
        components: vec![],
        unix_timestamp: 0,
    };
    assert!(apply_watchdog_report(&active_profile, &vec![active_profile.clone()], &report).is_err());
}

fn component(id: &str, command: &str, resolved: &str, state: DesktopComponentState, pid: Option<u32>, restarts: u32, exit: Option<i32>) -> SessionLaunchComponentState {
    SessionLaunchComponentState {
        id: id.into(),
        role: DesktopComponentRole::WindowManager,
        critical: true,
        command: vec![command.into()],
        resolved_command: Some(resolved.into()),
        state,
        pid,
        restart_count: restarts,
        last_exit_status: exit,
    }
}

fn launch_state(profile_id: &str, display_name: &str, services: Vec<ServiceRole>, generation: u64, sequence: u64, components: Vec<SessionLaunchComponentState>) -> SessionLaunchState {
    SessionLaunchState {
        profile_id: profile_id.into(),
        display_name: display_name.into(),
        protocol: DesktopProtocol::LayerX11,
        broker_services: services,
        generation,
        sequence,
        components,
        unix_timestamp: 0,
        service_component_bindings: Vec::new(),
        service_recovery_execution_policies: Vec::new(),
    }
}

#[test]
fn emits_delta_stream_for_component_change() {
    let previous = launch_state(
        "demo-x11",
        "Demo",
        vec![ServiceRole::Sessiond, ServiceRole::Watchdog],
        1,
        1,
        vec![component("demo-wm", "demo-wm", "/usr/bin/demo-wm", DesktopComponentState::Spawned, Some(42), 0, None)],
    );
    let next = launch_state(
        "demo-x11",
        "Demo",
        vec![ServiceRole::Sessiond, ServiceRole::Watchdog],
        1,
        2,
        vec![component("demo-wm", "demo-wm", "/usr/bin/demo-wm", DesktopComponentState::Failed, None, 3, Some(1))],
    );

    let command = watchdog_stream_command(&next, Some(&previous));

    match command {
        WatchdogCommand::UpdateLaunchState { delta } => {
            assert!(!delta.replace);
            assert_eq!(delta.generation, 1);
            assert_eq!(delta.sequence, 2);
            assert_eq!(delta.components.len(), 1);
            assert_eq!(delta.components[0].state, DesktopComponentState::Failed);
            assert_eq!(delta.components[0].restart_count, 3);
        }
        other => panic!("expected delta update, got {other:?}"),
    }
}

#[test]
fn emits_replace_delta_when_profile_changes() {
    let previous = launch_state(
        "demo-x11",
        "Demo",
        vec![ServiceRole::Sessiond],
        1,
        4,
        vec![component("demo-wm", "demo-wm", "/usr/bin/demo-wm", DesktopComponentState::Spawned, Some(42), 0, None)],
    );
    let next = launch_state(
        "demo-x11-degraded",
        "Degraded Demo",
        vec![ServiceRole::Sessiond],
        2,
        1,
        vec![component("openbox", "openbox", "/usr/bin/openbox", DesktopComponentState::Spawned, Some(84), 0, None)],
    );

    let command = watchdog_stream_command(&next, Some(&previous));

    match command {
        WatchdogCommand::UpdateLaunchState { delta } => {
            assert!(delta.replace);
            assert_eq!(delta.profile_id, "demo-x11-degraded");
            assert_eq!(delta.generation, 2);
            assert_eq!(delta.sequence, 1);
            assert_eq!(delta.components.len(), 1);
            assert_eq!(delta.components[0].id, "openbox");
        }
        other => panic!("expected replace delta, got {other:?}"),
    }
}

#[test]
fn unchanged_components_are_left_out_of_a_delta() {
    let same = component("demo-wm", "demo-wm", "/usr/bin/demo-wm", DesktopComponentState::Spawned, Some(42), 0, None);
    let changed_before = component("panel", "panel", "/usr/bin/panel", DesktopComponentState::Spawned, Some(43), 0, None);
    let changed_after = component("panel", "panel", "/usr/bin/panel", DesktopComponentState::Spawned, Some(44), 1, Some(0));
    let previous = launch_state("demo-x11", "Demo", vec![ServiceRole::Sessiond], 1, 1, vec![same.clone(), changed_before]);
    let next = launch_state("demo-x11", "Demo", vec![ServiceRole::Sessiond], 1, 2, vec![same, changed_after]);
    match watchdog_stream_command(&next, Some(&previous)) {
        WatchdogCommand::UpdateLaunchState { delta } => {
            assert!(!delta.replace);
            assert_eq!(delta.components.len(), 1);
            assert_eq!(delta.components[0].id, "panel");
            assert_eq!(delta.components[0].pid, Some(44));
        }
        other => panic!("expected delta update, got {other:?}"),
    }
}

#[test]
fn supervisor_records_spawn_exit_and_stop() {
    let mut state = component("demo-wm", "demo-wm", "/usr/bin/demo-wm", DesktopComponentState::Missing, None, 0, None);
    record_spawn(&mut state, SpawnAttempt::Started { pid: 7 });
    assert_eq!(state.state, DesktopComponentState::Spawned);
    assert_eq!(state.pid, Some(7));

    assert!(record_exit(&mut state, true, Some(1), 2));
    assert_eq!(state.restart_count, 1);
    assert_eq!(state.pid, None);
    assert_eq!(state.last_exit_status, Some(1));
    assert!(record_exit(&mut state, true, Some(1), 2));
    assert!(!record_exit(&mut state, true, Some(1), 2));
    assert_eq!(state.state, DesktopComponentState::Failed);
    assert_eq!(state.restart_count, 3);

    record_spawn(&mut state, SpawnAttempt::Failed);
    assert_eq!(state.last_exit_status, Some(-1));
    record_spawn(&mut state, SpawnAttempt::Started { pid: 9 });
    record_stop(&mut state);
    assert_eq!(state.pid, None);
    assert_eq!(state.state, DesktopComponentState::Spawned);
}

#[test]
fn stream_position_restarts_sequence_after_switch() {
    let start = StreamPosition::start(4);
    assert_eq!(start.sequence, 0);
    let next = start.after_switch();
    assert_eq!(next.generation, 5);
    assert_eq!(next.sequence, 0);
    assert_eq!(StreamPosition::start(u64::MAX).after_switch().generation, u64::MAX);
}

#[test]
fn watchdog_rebuilds_streamed_state_from_a_delta() {
    let previous = launch_state(
        "demo-x11",
        "Demo",
        vec![ServiceRole::Sessiond, ServiceRole::Watchdog],
        1,
        1,
        vec![
            component("demo-wm", "demo-wm", "/usr/bin/demo-wm", DesktopComponentState::Spawned, Some(42), 0, None),
            component("demo-panel", "demo-panel", "/usr/bin/demo-panel", DesktopComponentState::Spawned, Some(43), 0, None),
            component("demo-lock", "demo-lock", "/usr/bin/demo-lock", DesktopComponentState::Ready, None, 0, None),
        ],
    );
    let next = launch_state(
        "demo-x11",
        "Demo",
        vec![ServiceRole::Sessiond, ServiceRole::Watchdog],
        1,
        2,
        vec![
            component("demo-wm", "demo-wm", "/usr/bin/demo-wm", DesktopComponentState::Spawned, Some(42), 0, None),
            component("demo-panel", "demo-panel", "/usr/bin/demo-panel", DesktopComponentState::Failed, None, 3, Some(1)),
            component("demo-lock", "demo-lock", "/usr/bin/demo-lock", DesktopComponentState::Spawned, Some(77), 0, None),
        ],
    );
    let delta = match watchdog_stream_command(&next, Some(&previous)) {
        WatchdogCommand::UpdateLaunchState { delta } => delta,
        other => panic!("expected delta update, got {other:?}"),
    };
    assert!(!delta.replace);
    assert_eq!(delta.components.len(), 2);

    let mut server = WatchdogServer::new();
    server.cache_full_state(&previous);
    match server.apply_delta(delta) {
        StateUpdateOutcome::Accepted(state) => {
            assert_eq!(state.components, next.components);
            assert_eq!(state.sequence, 2);
        }
        other => panic!("expected accepted delta, got {other:?}"),
    }
}

#[test]
fn resume_answers_are_read_per_request() {
    let received = |kind: ResumeAnswerKind| ResumeAnswer::Received { kind, detail: "kind".to_string() };
    assert!(matches!(
        classify_resume_answer(ResumeRequest::DisplaydResumeBegin, received(ResumeAnswerKind::DisplayResumeStarted)),
        ResumeReply::Expected
    ));
    assert!(matches!(
        classify_resume_answer(ResumeRequest::LockdLock, received(ResumeAnswerKind::DisplayResumeStarted)),
        ResumeReply::Unexpected { detail } if detail == "kind"
    ));
    assert!(matches!(
        classify_resume_answer(
            ResumeRequest::LockdAuthPrompt,
            received(ResumeAnswerKind::LockAuthPrompt { reason: "fault injection".to_string() })
        ),
        ResumeReply::AuthFaultInjection
    ));
    assert!(matches!(
        classify_resume_answer(
            ResumeRequest::LockdAuthPrompt,
            received(ResumeAnswerKind::LockAuthPrompt { reason: "resume auth required".to_string() })
        ),
        ResumeReply::Expected
    ));
    assert!(matches!(
        classify_resume_answer(ResumeRequest::CompdComplete, received(ResumeAnswerKind::Other)),
        ResumeReply::Expected
    ));
    assert!(matches!(
        classify_resume_answer(ResumeRequest::WatchdogRestartCompd, ResumeAnswer::Unreachable { detail: "down".to_string() }),
        ResumeReply::Unreachable { detail } if detail == "down"
    ));
}
