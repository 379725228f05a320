use waybroker::accel::{AccelPolicy, CpuFeatures, SimdFlavor};
use waybroker::ipc::{
    DisplayEvent, WatchdogCommand,
    LockCommand, LockState, OutputPublicationOutcome, OutputPublicationResult, OutputReadiness,
    OutputReadinessState, PresentationCadence, PresentationToken, PublicationFailure,
    ScenePublicationResult, ServiceReadiness, ServiceReadinessState,
};
use waybroker::lockd::lock_command_response;
use waybroker::pixel_transport::{
    PixelTransportError, PixelTransportHandle, PixelTransportPayload, PixelTransportStore,
};
use waybroker::profile::{
    DesktopComponent, DesktopComponentRole, DesktopLauncher, DesktopProfile, DesktopProtocol,
};
use waybroker::service::{unix_timestamp_of, ServiceBanner, ServiceRole};

fn all_cpu_features() -> CpuFeatures {
    CpuFeatures { avx2: true, avx512f: true, sse42: true, neon: true }
}

#[test]
fn parses_disable_flags() {
    let policy = AccelPolicy::detect_with(
        Some("1".to_string()),
        Some("0".to_string()),
        Some("0".to_string()),
        all_cpu_features(),
    );

    assert!(!policy.accel_enabled);
    assert!(!policy.simd_enabled);
    assert!(!policy.vulkan_enabled);
    assert_eq!(policy.selected_simd_flavor(), SimdFlavor::Portable);
}

#[test]
fn honors_simd_override_without_disabling_vulkan() {
    let policy = AccelPolicy::detect_with(None, Some("true".to_string()), None, all_cpu_features());

    assert!(!policy.simd_enabled);
    assert!(policy.vulkan_enabled);
    assert_eq!(policy.selected_simd_flavor(), SimdFlavor::Portable);
}

#[test]
fn accel_flags_accept_trimmed_case_insensitive_values_only() {
    let on = AccelPolicy::detect_with(Some("  YES ".to_string()), None, None, all_cpu_features());
    assert!(!on.accel_enabled);
    assert!(!on.vulkan_enabled);
    let off = AccelPolicy::detect_with(Some("enabled".to_string()), None, None, all_cpu_features());
    assert!(off.accel_enabled);
    assert!(off.simd_enabled);
    assert_eq!(off.selected_simd_flavor(), SimdFlavor::Avx512f);
    assert!(off.prefers_vulkan());
}

#[test]
fn renders_service_banner() {
    let banner = ServiceBanner::new(ServiceRole::Compd, "scene and focus policy");
    assert_eq!(banner.render(), "waybroker service=compd responsibility=scene and focus policy");
}

fn publication_result() -> ScenePublicationResult {
    ScenePublicationResult {
        scene_accepted: true,
        scene_generation: 7,
        outputs: vec![
            OutputPublicationResult {
                output_id: "a".into(),
                output_generation: 3,
                frame_id: 4,
                scene_generation: 7,
                outcome: OutputPublicationOutcome::Published,
            },
            OutputPublicationResult {
                output_id: "b".into(),
                output_generation: 5,
                frame_id: 2,
                scene_generation: 7,
                outcome: OutputPublicationOutcome::Failed(PublicationFailure::BackendRejected),
            },
        ],
    }
}

#[test]
fn publication_result_round_trips_and_rejects_duplicates() {
    let result = publication_result();
    result.validate().unwrap();
    let copy = result.clone();
    assert_eq!(copy, result);
    let mut duplicate = result.clone();
    duplicate.outputs[1].output_id = "a".into();
    assert!(duplicate.validate().is_err());
}

fn ready_readiness() -> ServiceReadiness {
    ServiceReadiness {
        ipc_available: true,
        canonical_scene_available: true,
        renderer_available: true,
        configured_output_count: 1,
        ready_output_count: 1,
        failed_output_count: 0,
        retry_pending_output_count: 0,
        state: ServiceReadinessState::Ready,
        outputs: vec![OutputReadiness {
            output_id: "a".into(),
            output_generation: 4,
            state: OutputReadinessState::Ready,
            last_published_frame_id: 9,
            last_published_scene_generation: 12,
            pending_damage: false,
            retry_pending: false,
        }],
    }
}

#[test]
fn readiness_round_trips_and_validates_counts() {
    let value = ready_readiness();
    value.validate().unwrap();
    let mut malformed = value;
    malformed.ready_output_count = 0;
    assert!(malformed.validate().is_err());
}

#[test]
fn zero_outputs_are_live_but_not_ready() {
    let value = ServiceReadiness {
        ipc_available: true,
        canonical_scene_available: true,
        renderer_available: true,
        configured_output_count: 0,
        ready_output_count: 0,
        failed_output_count: 0,
        retry_pending_output_count: 0,
        state: ServiceReadinessState::LiveNotReady,
        outputs: vec![],
    };
    value.validate().unwrap();
    assert_ne!(value.state, ServiceReadinessState::Ready);
}

#[test]
fn readiness_rejects_ready_state_without_outputs() {
    let value = ServiceReadiness {
        ipc_available: true,
        canonical_scene_available: true,
        renderer_available: true,
        configured_output_count: 0,
        ready_output_count: 0,
        failed_output_count: 0,
        retry_pending_output_count: 0,
        state: ServiceReadinessState::Ready,
        outputs: vec![],
    };
    assert!(value.validate().is_err());
}

#[test]
fn presentation_token_and_completion_round_trip() {
    let token = PresentationToken {
        backend_instance_id: 3,
        sequence: 4,
        output_id: "a".into(),
        output_generation: 0,
        scene_generation: 9,
        frame_id: 7,
    };
    token.validate().unwrap();
    let mut broken = token.clone();
    broken.frame_id = 0;
    assert_eq!(broken.validate().unwrap_err(), "presentation token has invalid frame");
    let mut anonymous = token.clone();
    anonymous.sequence = 0;
    assert_eq!(anonymous.validate().unwrap_err(), "malformed presentation token");
}

#[test]
fn cadence_rejects_zero_and_scheduler_state_round_trips() {
    assert!(PresentationCadence { period_ns: 0 }.validate().is_err());
    assert!(PresentationCadence { period_ns: 16_666_667 }.validate().is_ok());
}

fn payload(client_id: u64, surface_id: &str, buffer: u64, scene: u64) -> PixelTransportPayload {
    PixelTransportPayload {
        handle: PixelTransportHandle {
            client_id,
            surface_id: surface_id.into(),
            buffer_generation: buffer,
            scene_generation: scene,
        },
        pixels: vec![0x11; 16],
        width: 2,
        height: 2,
        stride: 8,
        format: 1,
    }
}

#[test]
fn submits_and_resolves_exact_generation_bound_payload() {
    let mut store = PixelTransportStore::default();
    let submitted = payload(1, "surface-7", 3, 9);
    let handle = submitted.handle.clone();

    store.submit(submitted).unwrap();

    assert_eq!(store.lookup(&handle).unwrap().width, 2);
    assert!(store.lookup(&PixelTransportHandle { buffer_generation: 4, ..handle }).is_none());
}

#[test]
fn supersedes_older_payload_for_same_client_surface() {
    let mut store = PixelTransportStore::default();
    let old = payload(1, "surface-7", 3, 9);
    let old_handle = old.handle.clone();
    let new = payload(1, "surface-7", 4, 9);
    let new_handle = new.handle.clone();

    store.submit(old).unwrap();
    store.submit(new).unwrap();

    assert!(store.lookup(&old_handle).is_none());
    assert!(store.lookup(&new_handle).is_some());
    assert_eq!(store.len(), 1);
}

#[test]
fn rejects_stale_generation_for_same_client_surface() {
    let mut store = PixelTransportStore::default();
    store.submit(payload(1, "surface-7", 4, 10)).unwrap();

    let err = store.submit(payload(1, "surface-7", 3, 10)).unwrap_err();

    assert!(matches!(err, PixelTransportError::StaleGeneration { .. }));
}

#[test]
fn invalidates_only_the_matching_client() {
    let mut store = PixelTransportStore::default();
    let keep = payload(2, "surface-7", 1, 1);
    let keep_handle = keep.handle.clone();
    store.submit(payload(1, "surface-7", 1, 1)).unwrap();
    store.submit(keep).unwrap();

    store.invalidate_client(1);

    assert_eq!(store.len(), 1);
    assert!(store.lookup(&keep_handle).is_some());
}

#[test]
fn rejects_payload_with_too_few_bytes() {
    let mut store = PixelTransportStore::new();
    let mut short = payload(1, "surface-7", 1, 1);
    short.pixels.pop();
    let err = store.submit(short).unwrap_err();
    assert_eq!(
        err,
        PixelTransportError::InvalidPayload {
            reason: "payload byte length is smaller than stride * height".to_string()
        }
    );
    assert!(store.is_empty());
    assert!(store.latest_handle_for_surface(1, &"surface-7".to_string()).is_none());
}

#[test]
fn derives_launch_plan_without_mutating_profile() {
    let profile = DesktopProfile {
        id: "xfce-x11".into(),
        display_name: "XFCE Classic on LeyerX11".into(),
        protocol: DesktopProtocol::LayerX11,
        summary: "lightweight x11 desktop".into(),
        degraded_profile_id: Some("openbox-x11".into()),
        broker_services: vec![ServiceRole::Displayd, ServiceRole::Sessiond, ServiceRole::X11Bridge],
        session_components: vec![DesktopComponent {
            id: "xfwm4".into(),
            role: DesktopComponentRole::WindowManager,
            command: vec!["xfwm4".into(), "--replace".into()],
            critical: true,
            launcher: DesktopLauncher::System,
        }],
        service_component_bindings: Vec::new(),
        service_recovery_execution_policies: Vec::new(),
    };

    let plan = profile.launch_plan();

    assert_eq!(plan.profile_id, "xfce-x11");
    assert_eq!(plan.protocol, DesktopProtocol::LayerX11);
    assert_eq!(plan.session_components.len(), 1);
}

#[test]
fn state_transition_works() {
    let state = LockState::Locked;
    assert_eq!(state, LockState::Locked);
}

#[test]
fn lockd_applies_and_echoes_state_changes() {
    let mut state = LockState::Unlocked;
    let answer = lock_command_response(
        LockCommand::SetLockState { state: LockState::Locked },
        ServiceRole::Lockd,
        &mut state,
        false,
    );
    assert_eq!(answer, LockCommand::SetLockState { state: LockState::Locked });
    assert_eq!(state, LockState::Locked);

    let refused = lock_command_response(
        LockCommand::SetLockState { state: LockState::Unlocked },
        ServiceRole::Compd,
        &mut state,
        false,
    );
    assert_eq!(
        refused,
        LockCommand::AuthPrompt { reason: "lockd received message addressed to compd".into() }
    );
    assert_eq!(state, LockState::Locked);

    let faulted = lock_command_response(
        LockCommand::SetLockState { state: LockState::Unlocked },
        ServiceRole::Lockd,
        &mut state,
        true,
    );
    assert_eq!(faulted, LockCommand::AuthPrompt { reason: "fault injection".into() });
    assert_eq!(state, LockState::Locked);
}

#[test]
fn clock_before_epoch_reads_as_zero() {
    assert_eq!(unix_timestamp_of(Some(1_700_000_000)), 1_700_000_000);
    assert_eq!(unix_timestamp_of(None), 0);
}

#[test]
fn transport_refusal_text_reads_like_its_debug_form() {
    let handle = |buffer: u64| PixelTransportHandle {
        client_id: 7,
        surface_id: "term".to_string(),
        buffer_generation: buffer,
        scene_generation: 3,
    };
    let stale = PixelTransportError::StaleGeneration { current: handle(5), incoming: handle(4) };
    assert_eq!(stale.text(), format!("{stale:?}"));
    assert_eq!(
        stale.text(),
        "StaleGeneration { current: PixelTransportHandle { client_id: 7, surface_id: \"term\", buffer_generation: 5, scene_generation: 3 }, incoming: PixelTransportHandle { client_id: 7, surface_id: \"term\", buffer_generation: 4, scene_generation: 3 } }"
    );
    let invalid = PixelTransportError::InvalidPayload { reason: "zero width".to_string() };
    assert_eq!(invalid.text(), "InvalidPayload { reason: \"zero width\" }");
    assert_eq!(invalid.text(), format!("{invalid:?}"));
}

#[test]
fn messages_name_the_variant_of_events_and_commands() {
    assert_eq!(DisplayEvent::ResumeStarted.variant_name(), "ResumeStarted");
    assert_eq!(DisplayEvent::Rejected { reason: "x".to_string() }.variant_name(), "Rejected");
    assert_eq!(DisplayEvent::Reconciled { epoch: 1, scene_generation: 2 }.variant_name(), "Reconciled");
    assert_eq!(WatchdogCommand::Escalate { level: 1, reason: "x".to_string() }.variant_name(), "Escalate");
    assert_eq!(
        WatchdogCommand::ResyncLaunchState {
            profile_id: "p".to_string(),
            session_instance_id: "s".to_string(),
            reason: "r".to_string()
        }
        .variant_name(),
        "ResyncLaunchState"
    );
}
