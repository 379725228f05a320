use waybroker::compd::{
    apply_role_based_layout, canonicalize_relay_scene, format_owner, mock_demo_scene,
    reconcile_scene_with_registry, reconciliation_commit_id, scene_from_snapshot,
    scene_surface_words, validate_relay_scene, CompdRelayState, CompdScene, PendingRelayScene,
    RelayScene, MAX_RELAY_SURFACES,
};
use waybroker::ipc::{
    CommitTarget, CommittedSceneState, DisplayCommand, FocusTarget, LayerMetadata, OutputMode,
    SurfacePlacement, SurfaceRegistrySnapshot, SurfaceSnapshot, WaylandSelectionState,
    WaylandSurfaceRole, WaylandSurfaceState,
};
use waybroker::pixel_transport::{PixelTransportHandle, PixelTransportPayload};
use waybroker::service::ServiceRole;

fn edp_output() -> OutputMode {
    OutputMode { name: "eDP-1".into(), width: 1920, height: 1080, refresh_hz: 60 }
}

#[test]
fn mock_scene_has_expected_focus_and_surfaces() {
    let scene = mock_demo_scene();
    assert_eq!(scene.target_output, "eDP-1");
    assert_eq!(scene.focus, FocusTarget::Surface { id: "konsole-1".into() });
    assert_eq!(scene.surfaces.len(), 2);
}

#[test]
fn handles_empty_focus() {
    let scene = CompdScene {
        target_output: "eDP-1".into(),
        focus: FocusTarget::Unfocused,
        selection: WaylandSelectionState::default(),
        scene_epoch: 1,
        scene_generation: 1,
        surfaces: vec![],
    };
    assert_eq!(scene.focus, FocusTarget::Unfocused);
    assert_eq!(scene.surfaces.len(), 0);
}

#[test]
fn surface_count_matches_after_conversion() {
    let scene = CompdScene {
        target_output: "HDMI-1".into(),
        focus: FocusTarget::Unfocused,
        selection: WaylandSelectionState::default(),
        scene_epoch: 1,
        scene_generation: 1,
        surfaces: vec![
            SurfaceSnapshot {
                id: "s1".into(),
                app_id: "a1".into(),
                placement: SurfacePlacement { x: 0, y: 0, width: 100, height: 100, z: 1, visible: true },
                ..Default::default()
            },
            SurfaceSnapshot {
                id: "s2".into(),
                app_id: "a2".into(),
                placement: SurfacePlacement { x: 0, y: 0, width: 100, height: 100, z: 2, visible: true },
                ..Default::default()
            },
        ],
    };
    assert_eq!(scene.surfaces.len(), 2);
}

#[test]
fn rebuilds_scene_from_displayd_snapshot() {
    let scene = scene_from_snapshot(&CommittedSceneState {
        source: ServiceRole::Compd,
        target: CommitTarget::Output { name: "HDMI-1".into() },
        focus: FocusTarget::Surface { id: "xterm-1".into() },
        selection: WaylandSelectionState::default(),
        surfaces: vec![SurfaceSnapshot {
            id: "xterm-1".into(),
            app_id: "org.xterm".into(),
            placement: SurfacePlacement { x: 42, y: 24, width: 640, height: 480, z: 7, visible: true },
            ..Default::default()
        }],
        scene_epoch: 0,
        scene_generation: 0,
        commit_id: 3,
        unix_timestamp: 1_778_000_100,
    });

    assert_eq!(scene.target_output, "HDMI-1");
    assert_eq!(scene.focus, FocusTarget::Surface { id: "xterm-1".into() });
    assert_eq!(scene.surfaces.len(), 1);
}

fn selection_of(
    clipboard_owner: &str,
    clipboard_payload: &str,
    clipboard_serial: u64,
    primary_owner: &str,
    primary_payload: &str,
    primary_serial: u64,
) -> WaylandSelectionState {
    WaylandSelectionState {
        clipboard_owner: Some(clipboard_owner.into()),
        clipboard_payload_id: Some(clipboard_payload.into()),
        clipboard_source_serial: Some(clipboard_serial),
        clipboard_offer: None,
        primary_selection_owner: Some(primary_owner.into()),
        primary_selection_payload_id: Some(primary_payload.into()),
        primary_selection_source_serial: Some(primary_serial),
        primary_offer: None,
    }
}

#[test]
fn drops_surfaces_missing_from_wayland_registry() {
    let dummy_output = edp_output();
    let reconciled = reconcile_scene_with_registry(
        CompdScene {
            target_output: "eDP-1".into(),
            focus: FocusTarget::Surface { id: "panel-1".into() },
            selection: selection_of("panel-1", "panel-clipboard-v1", 41, "terminal-1", "terminal-primary-v7", 77),
            scene_epoch: 1,
            scene_generation: 1,
            surfaces: vec![
                SurfaceSnapshot {
                    id: "terminal-1".into(),
                    app_id: "old.app".into(),
                    placement: SurfacePlacement { x: 10, y: 10, width: 100, height: 100, z: 5, visible: true },
                    ..Default::default()
                },
                SurfaceSnapshot {
                    id: "panel-1".into(),
                    app_id: "org.kde.panel".into(),
                    placement: SurfacePlacement { x: 0, y: 0, width: 200, height: 30, z: 10, visible: true },
                    ..Default::default()
                },
            ],
        },
        &SurfaceRegistrySnapshot {
            generation: 2,
            surfaces: vec![WaylandSurfaceState {
                id: "terminal-1".into(),
                app_id: "org.kde.konsole".into(),
                role: WaylandSurfaceRole::Toplevel,
                mapped: true,
                buffer_attached: true,
                ..Default::default()
            }],
            foreign_toplevels: vec![],
            selection: selection_of("panel-1", "panel-clipboard-v1", 41, "terminal-1", "terminal-primary-v7", 77),
            unix_timestamp: 1,
        },
        &dummy_output,
    );

    assert_eq!(reconciled.scene.surfaces.len(), 1);
    assert_eq!(reconciled.scene.surfaces[0].id, "terminal-1");
    assert_eq!(reconciled.scene.surfaces[0].app_id, "org.kde.konsole");
    assert_eq!(reconciled.scene.focus, FocusTarget::Surface { id: "terminal-1".into() });
    assert_eq!(reconciled.scene.selection.clipboard_owner.as_deref(), Some("terminal-1"));
    assert_eq!(reconciled.scene.selection.clipboard_payload_id, None);
    assert_eq!(reconciled.scene.selection.clipboard_source_serial, None);
    assert_eq!(reconciled.scene.selection.primary_selection_owner.as_deref(), Some("terminal-1"));
    assert_eq!(
        reconciled.scene.selection.primary_selection_payload_id.as_deref(),
        Some("terminal-primary-v7")
    );
    assert_eq!(reconciled.scene.selection.primary_selection_source_serial, Some(77));
    assert_eq!(reconciled.dropped_surface_ids, vec!["panel-1"]);
    assert_eq!(reconciled.updated_app_ids, 1);
    assert_eq!(reconciled.selection_handoffs, 1);
}

#[test]
fn falls_back_to_no_focus_when_only_background_survives() {
    let dummy_output = edp_output();
    let reconciled = reconcile_scene_with_registry(
        CompdScene {
            target_output: "eDP-1".into(),
            focus: FocusTarget::Surface { id: "terminal-1".into() },
            selection: selection_of("terminal-1", "terminal-clipboard-v1", 51, "terminal-1", "terminal-primary-v7", 77),
            scene_epoch: 1,
            scene_generation: 1,
            surfaces: vec![SurfaceSnapshot {
                id: "background-1".into(),
                app_id: "org.kde.wallpaper".into(),
                placement: SurfacePlacement { x: 0, y: 0, width: 1920, height: 1080, z: 0, visible: true },
                ..Default::default()
            }],
        },
        &SurfaceRegistrySnapshot {
            generation: 3,
            surfaces: vec![WaylandSurfaceState {
                id: "background-1".into(),
                app_id: "org.kde.wallpaper".into(),
                role: WaylandSurfaceRole::Background,
                mapped: true,
                buffer_attached: true,
                ..Default::default()
            }],
            foreign_toplevels: vec![],
            selection: selection_of("terminal-1", "terminal-clipboard-v1", 51, "terminal-1", "terminal-primary-v7", 77),
            unix_timestamp: 1,
        },
        &dummy_output,
    );

    assert_eq!(reconciled.scene.focus, FocusTarget::Unfocused);
    assert_eq!(reconciled.scene.selection.clipboard_owner, None);
    assert_eq!(reconciled.scene.selection.clipboard_payload_id, None);
    assert_eq!(reconciled.scene.selection.clipboard_source_serial, None);
    assert_eq!(reconciled.scene.selection.primary_selection_owner, None);
    assert_eq!(reconciled.scene.selection.primary_selection_payload_id, None);
    assert_eq!(reconciled.scene.selection.primary_selection_source_serial, None);
    assert!(reconciled.dropped_surface_ids.is_empty());
    assert_eq!(reconciled.selection_handoffs, 2);
}

#[test]
fn test_layer_shell_layout_logic() {
    let output = edp_output();

    let mut bg = SurfaceSnapshot {
        id: "bg".into(),
        app_id: "bg".into(),
        placement: SurfacePlacement { x: 10, y: 10, width: 100, height: 100, z: 5, visible: true },
        ..Default::default()
    };
    apply_role_based_layout(&mut bg, &WaylandSurfaceRole::Background, &output);
    assert_eq!(bg.placement.x, 0);
    assert_eq!(bg.placement.y, 0);
    assert_eq!(bg.placement.width, 1920);
    assert_eq!(bg.placement.height, 1080);
    assert_eq!(bg.placement.z, 0);

    let mut panel = SurfaceSnapshot {
        id: "panel".into(),
        app_id: "panel".into(),
        placement: SurfacePlacement { x: 0, y: 0, width: 0, height: 0, z: 0, visible: true },
        ..Default::default()
    };
    let metadata = LayerMetadata {
        layer: 2,
        anchor: 1 | 2 | 4,
        exclusive_zone: 30,
        margin_top: 5,
        margin_bottom: 0,
        margin_left: 10,
        margin_right: 10,
        keyboard_interactivity: 0,
    };
    apply_role_based_layout(&mut panel, &WaylandSurfaceRole::Layer(metadata), &output);
    assert_eq!(panel.placement.x, 10);
    assert_eq!(panel.placement.y, 5);
    assert_eq!(panel.placement.width, 1900);
    assert_eq!(panel.placement.height, 30);
    assert_eq!(panel.placement.z, 100);

    let mut overlay = SurfaceSnapshot {
        id: "overlay".into(),
        app_id: "overlay".into(),
        placement: SurfacePlacement { x: 0, y: 0, width: 0, height: 0, z: 0, visible: true },
        ..Default::default()
    };
    let overlay_metadata = LayerMetadata {
        layer: 3,
        anchor: 8,
        exclusive_zone: 0,
        margin_top: 0,
        margin_bottom: 20,
        margin_left: 0,
        margin_right: 0,
        keyboard_interactivity: 0,
    };
    apply_role_based_layout(&mut overlay, &WaylandSurfaceRole::Layer(overlay_metadata), &output);
    assert_eq!(overlay.placement.y, 1080 - 36 - 20);
    assert_eq!(overlay.placement.z, 200);
}

#[test]
fn test_phase2_scene_stacking_and_focus() {
    let mut scene = CompdScene {
        target_output: "eDP-1".into(),
        focus: FocusTarget::Surface { id: "win2".into() },
        selection: WaylandSelectionState::default(),
        scene_epoch: 1,
        scene_generation: 1,
        surfaces: vec![
            SurfaceSnapshot {
                id: "win1".into(),
                app_id: "app1".into(),
                placement: SurfacePlacement { x: 10, y: 10, width: 200, height: 200, z: 1, visible: true },
                ..Default::default()
            },
            SurfaceSnapshot {
                id: "win2".into(),
                app_id: "app2".into(),
                placement: SurfacePlacement { x: 50, y: 50, width: 200, height: 200, z: 2, visible: true },
                ..Default::default()
            },
        ],
    };
    scene.surfaces.sort_by_key(|s| s.placement.z);
    assert_eq!(scene.surfaces[0].id, "win1");
    assert_eq!(scene.surfaces[1].id, "win2");
    assert_eq!(scene.focus, FocusTarget::Surface { id: "win2".into() });
}

#[test]
fn test_phase2_occlusion_and_visibility() {
    let win1 = SurfacePlacement { x: 100, y: 100, width: 100, height: 100, z: 1, visible: true };
    let win2 = SurfacePlacement { x: 50, y: 50, width: 300, height: 300, z: 2, visible: true };

    let win1_occluded = win1.x >= win2.x
        && win1.y >= win2.y
        && (win1.x + win1.width as i32) <= (win2.x + win2.width as i32)
        && (win1.y + win1.height as i32) <= (win2.y + win2.height as i32);

    assert!(win1_occluded, "win1 should be fully occluded by win2");
}

#[test]
fn test_phase2_snapshot_reconcile_crash_recovery() {
    let snapshot = CommittedSceneState {
        source: ServiceRole::Compd,
        target: CommitTarget::Output { name: "eDP-1".into() },
        focus: FocusTarget::Surface { id: "gone-app".into() },
        selection: WaylandSelectionState::default(),
        surfaces: vec![
            SurfaceSnapshot {
                id: "gone-app".into(),
                app_id: "gone.app".into(),
                placement: SurfacePlacement { x: 0, y: 0, width: 100, height: 100, z: 1, visible: true },
                ..Default::default()
            },
            SurfaceSnapshot {
                id: "surviving-app".into(),
                app_id: "surviving.app".into(),
                placement: SurfacePlacement { x: 10, y: 10, width: 100, height: 100, z: 2, visible: true },
                ..Default::default()
            },
        ],
        scene_epoch: 0,
        scene_generation: 0,
        commit_id: 10,
        unix_timestamp: 1234567,
    };

    let registry = SurfaceRegistrySnapshot {
        generation: 1,
        surfaces: vec![WaylandSurfaceState {
            id: "surviving-app".into(),
            app_id: "surviving.app".into(),
            role: WaylandSurfaceRole::Toplevel,
            mapped: true,
            buffer_attached: true,
            ..Default::default()
        }],
        foreign_toplevels: vec![],
        selection: WaylandSelectionState::default(),
        unix_timestamp: 1234567,
    };

    let output_mode = edp_output();

    let initial_scene = scene_from_snapshot(&snapshot);
    let reconciled = reconcile_scene_with_registry(initial_scene, &registry, &output_mode);

    assert_eq!(reconciled.scene.surfaces.len(), 1);
    assert_eq!(reconciled.scene.surfaces[0].id, "surviving-app");
    assert_eq!(reconciled.dropped_surface_ids, vec!["gone-app"]);
}

fn completion_relay_scene(generation: u64) -> RelayScene {
    let handle = PixelTransportHandle {
        client_id: 7,
        surface_id: "surface-1".into(),
        buffer_generation: generation,
        scene_generation: generation,
    };
    RelayScene {
        scene: CompdScene {
            target_output: "eDP-1".into(),
            focus: FocusTarget::Surface { id: "surface-1".into() },
            selection: WaylandSelectionState::default(),
            surfaces: vec![SurfaceSnapshot {
                id: "surface-1".into(),
                app_id: "completion.app".into(),
                placement: SurfacePlacement { x: 0, y: 0, width: 2, height: 2, z: 1, visible: true },
                buffer_handle: Some(format!("buffer-{generation}")),
                buffer_generation: generation,
                pixel_transport: Some(handle.clone()),
                creation_sequence: generation,
                ..Default::default()
            }],
            scene_epoch: 1,
            scene_generation: generation,
        },
        pixel_payloads: vec![PixelTransportPayload {
            handle,
            pixels: vec![0x55; 16],
            width: 2,
            height: 2,
            stride: 8,
            format: 0,
        }],
    }
}

#[test]
fn completion_compd_scene_budget_accepts_valid_scene() {
    let relay = completion_relay_scene(4);
    let usage = validate_relay_scene(&relay, true).unwrap();
    assert_eq!(usage.surfaces, 1);
    assert_eq!(usage.pixel_payloads, 1);
    assert_eq!(usage.pixel_bytes, 16);
}

#[test]
fn completion_compd_scene_budget_rejects_duplicate_surface_identity() {
    let mut relay = completion_relay_scene(4);
    relay.scene.surfaces.push(relay.scene.surfaces[0].clone());
    let error = validate_relay_scene(&relay, true).unwrap_err();
    assert!(error.message().contains("duplicate surface identity"));
}

#[test]
fn completion_compd_scene_budget_rejects_orphan_payload() {
    let mut relay = completion_relay_scene(4);
    relay.pixel_payloads[0].handle.surface_id = "orphan".into();
    let error = validate_relay_scene(&relay, true).unwrap_err();
    assert!(error.message().contains("orphan PixelTransport"));
}

#[test]
fn completion_compd_scene_budget_rejects_payload_generation_mismatch() {
    let mut relay = completion_relay_scene(4);
    relay.pixel_payloads[0].handle.scene_generation = 3;
    let error = validate_relay_scene(&relay, true).unwrap_err();
    assert!(
        error.message().contains("payload does not match canonical surface handle")
            || error.message().contains("payload generation does not match scene generation")
    );
}

#[test]
fn completion_compd_scene_budget_rejects_payload_length_mismatch() {
    let mut relay = completion_relay_scene(4);
    relay.pixel_payloads[0].pixels.pop();
    let error = validate_relay_scene(&relay, true).unwrap_err();
    assert!(error.message().contains("byte length mismatch"));
}

#[test]
fn completion_compd_scene_rejects_missing_focus_surface() {
    let mut relay = completion_relay_scene(4);
    relay.scene.focus = FocusTarget::Surface { id: "missing".into() };
    let error = validate_relay_scene(&relay, true).unwrap_err();
    assert!(error.message().contains("focused surface missing"));
}

#[test]
fn completion_compd_scene_rejects_missing_selection_owner() {
    let mut relay = completion_relay_scene(4);
    relay.scene.selection.clipboard_owner = Some("missing".into());
    let error = validate_relay_scene(&relay, true).unwrap_err();
    assert!(error.message().contains("selection owner missing"));
}

#[test]
fn completion_compd_canonical_order_is_deterministic() {
    let mut relay = completion_relay_scene(4);
    relay.scene.focus = FocusTarget::Unfocused;
    relay.scene.surfaces.clear();
    relay.pixel_payloads.clear();

    let make_surface = |id: &str, layer: u32, z: i32, creation: u64| SurfaceSnapshot {
        id: id.into(),
        app_id: "completion.app".into(),
        placement: SurfacePlacement { width: 1, height: 1, z, visible: true, ..Default::default() },
        layer_class: layer,
        creation_sequence: creation,
        ..Default::default()
    };
    relay.scene.surfaces = vec![make_surface("c", 1, 5, 2), make_surface("a", 0, 99, 1), make_surface("b", 1, 5, 1)];

    canonicalize_relay_scene(&mut relay);
    let ids = relay.scene.surfaces.iter().map(|surface| surface.id.as_str()).collect::<Vec<_>>();
    assert_eq!(ids, vec!["a", "b", "c"]);
}

#[test]
fn canonical_order_does_not_depend_on_input_order() {
    let make_surface = |id: &str, layer: u32, z: i32, creation: u64| SurfaceSnapshot {
        id: id.into(),
        app_id: "completion.app".into(),
        placement: SurfacePlacement { width: 1, height: 1, z, visible: true, ..Default::default() },
        layer_class: layer,
        creation_sequence: creation,
        ..Default::default()
    };
    let mut first = completion_relay_scene(4);
    first.pixel_payloads.clear();
    first.scene.surfaces = vec![make_surface("x", 2, 0, 9), make_surface("y", 0, 3, 4), make_surface("z", 0, 3, 2)];
    let mut second = completion_relay_scene(4);
    second.pixel_payloads.clear();
    second.scene.surfaces = vec![make_surface("z", 0, 3, 2), make_surface("x", 2, 0, 9), make_surface("y", 0, 3, 4)];
    canonicalize_relay_scene(&mut first);
    canonicalize_relay_scene(&mut second);
    assert_eq!(first.scene.surfaces, second.scene.surfaces);
    let ids = first.scene.surfaces.iter().map(|surface| surface.id.as_str()).collect::<Vec<_>>();
    assert_eq!(ids, vec!["z", "y", "x"]);
}

#[test]
fn completion_compd_pending_scene_is_latest_state_only() {
    let mut state = CompdRelayState::default();
    state.defer_latest(&completion_relay_scene(10), "first".into());
    state.defer_latest(&completion_relay_scene(12), "newest".into());
    state.defer_latest(&completion_relay_scene(11), "stale".into());

    let pending = state.pending.as_ref().unwrap();
    assert_eq!(pending.version, (1, 12));
    assert_eq!(pending.reason, "newest");
    assert_eq!(pending.usage.pixel_bytes, 16);
    assert_eq!(state.superseded_count, 1);
}

#[test]
fn completion_compd_version_floor_rejects_replayed_forwarded_scene() {
    let mut state = CompdRelayState::default();
    let forwarded = completion_relay_scene(10);
    state.note_forwarded(&forwarded);

    assert!(state.should_reject_version((1, 9)));
    assert!(state.should_reject_version((1, 10)));
    assert!(!state.should_reject_version((1, 11)));
    assert!(state.should_reject_version((0, 0)));
}

#[test]
fn completion_compd_equal_pending_generation_remains_retryable() {
    let mut state = CompdRelayState::default();
    state.defer_latest(&completion_relay_scene(12), "displayd unavailable".into());

    assert!(!state.should_reject_version((1, 12)));
    assert!(state.should_reject_version((1, 11)));
    assert!(!state.should_reject_version((1, 13)));
}

#[test]
fn fresh_relay_state_accepts_every_version() {
    let state = CompdRelayState::default();
    assert_eq!(state.version_floor(), (0, 0));
    assert!(!state.should_reject_version((0, 0)));
    assert!(!state.should_reject_version((3, 1)));
}

#[test]
fn completion_compd_scene_words_are_deterministic_and_complete() {
    let relay = completion_relay_scene(4);
    let words = scene_surface_words(&relay.scene.surfaces);
    assert_eq!(words.len(), 8);
    assert_eq!(words[2], 2);
    assert_eq!(words[3], 2);
    assert_eq!(words[5], 1);
    assert_eq!(words[6], 4);
}

#[test]
fn completion_compd_metadata_only_recovery_is_explicitly_supported() {
    let scene = scene_from_snapshot(&CommittedSceneState {
        source: ServiceRole::Compd,
        target: CommitTarget::Output { name: "eDP-1".into() },
        focus: FocusTarget::Unfocused,
        selection: WaylandSelectionState::default(),
        surfaces: vec![SurfaceSnapshot {
            id: "metadata-only".into(),
            app_id: "completion.app".into(),
            placement: SurfacePlacement { width: 1, height: 1, visible: true, ..Default::default() },
            ..Default::default()
        }],
        scene_epoch: 2,
        scene_generation: 7,
        commit_id: 9,
        unix_timestamp: 1,
    });
    let relay = RelayScene { scene, pixel_payloads: Vec::new() };
    validate_relay_scene(&relay, false).unwrap();
}

#[test]
fn completion_compd_commit_command_preserves_scene_identity_and_payloads() {
    let relay = completion_relay_scene(17);
    match relay.to_commit_command() {
        DisplayCommand::CommitScene { scene_epoch, scene_generation, surfaces, pixel_payloads, .. } => {
            assert_eq!(scene_epoch, 1);
            assert_eq!(scene_generation, 17);
            assert_eq!(surfaces.len(), 1);
            assert_eq!(pixel_payloads.len(), 1);
            assert_eq!(pixel_payloads[0].handle.scene_generation, 17);
        }
        other => panic!("expected CommitScene, got {other:?}"),
    }
}

#[test]
fn completion_compd_surface_budget_is_bounded() {
    let mut relay = completion_relay_scene(4);
    relay.scene.focus = FocusTarget::Unfocused;
    relay.pixel_payloads.clear();
    relay.scene.surfaces = (0..=MAX_RELAY_SURFACES)
        .map(|index| SurfaceSnapshot {
            id: format!("surface-{index}"),
            app_id: "completion.app".into(),
            placement: SurfacePlacement { width: 1, height: 1, visible: true, ..Default::default() },
            ..Default::default()
        })
        .collect();
    let error = validate_relay_scene(&relay, false).unwrap_err();
    assert!(error.message().contains("surface budget exceeded"));
}

#[test]
fn completion_compd_registry_reconcile_clears_stale_pixel_transport_handle() {
    let handle = PixelTransportHandle {
        client_id: 1,
        surface_id: "surface-1".into(),
        buffer_generation: 1,
        scene_generation: 1,
    };
    let scene = CompdScene {
        target_output: "eDP-1".into(),
        focus: FocusTarget::Surface { id: "surface-1".into() },
        selection: WaylandSelectionState::default(),
        surfaces: vec![SurfaceSnapshot {
            id: "surface-1".into(),
            app_id: "completion.app".into(),
            placement: SurfacePlacement { width: 10, height: 10, visible: true, ..Default::default() },
            buffer_generation: 1,
            pixel_transport: Some(handle),
            ..Default::default()
        }],
        scene_epoch: 1,
        scene_generation: 1,
    };
    let registry = SurfaceRegistrySnapshot {
        generation: 2,
        surfaces: vec![WaylandSurfaceState {
            id: "surface-1".into(),
            app_id: "completion.app".into(),
            role: WaylandSurfaceRole::Toplevel,
            mapped: true,
            buffer_attached: true,
            buffer_handle: Some("buffer-2".into()),
            buffer_generation: 2,
            ..Default::default()
        }],
        foreign_toplevels: vec![],
        selection: WaylandSelectionState::default(),
        unix_timestamp: 1,
    };
    let output = edp_output();

    let reconciled = reconcile_scene_with_registry(scene, &registry, &output);
    assert_eq!(reconciled.scene.surfaces.len(), 1);
    assert_eq!(reconciled.scene.surfaces[0].buffer_generation, 2);
    assert!(reconciled.scene.surfaces[0].pixel_transport.is_none());
}

fn snapshot_of(relay: &RelayScene, scene_generation: u64) -> CommittedSceneState {
    CommittedSceneState {
        source: ServiceRole::Compd,
        target: CommitTarget::Output { name: "eDP-1".into() },
        focus: relay.scene.focus.clone(),
        selection: relay.scene.selection.clone(),
        surfaces: relay.scene.surfaces.clone(),
        scene_epoch: 1,
        scene_generation,
        commit_id: 77,
        unix_timestamp: 1,
    }
}

#[test]
fn completion_compd_reconciliation_uses_actual_displayd_commit_id() {
    let relay = completion_relay_scene(21);
    let snapshot = snapshot_of(&relay, 21);
    assert_eq!(reconciliation_commit_id(Some(snapshot), &relay).unwrap(), 77);
}

#[test]
fn completion_compd_reconciliation_rejects_snapshot_version_mismatch() {
    let relay = completion_relay_scene(21);
    let snapshot = snapshot_of(&relay, 20);
    assert!(reconciliation_commit_id(Some(snapshot), &relay).is_err());
    assert!(reconciliation_commit_id(None, &relay).is_err());
}

#[test]
fn completion_compd_pending_marker_does_not_retain_pixel_payload_buffers() {
    assert!(std::mem::size_of::<PendingRelayScene>() <= 128);
    let mut state = CompdRelayState::default();
    let relay = completion_relay_scene(30);
    state.defer_latest(&relay, "displayd unavailable".into());
    let pending = state.pending.as_ref().unwrap();
    assert_eq!(pending.version, (1, 30));
    assert_eq!(pending.usage.pixel_bytes, 16);
}

#[test]
fn completion_compd_scene_budget_rejects_buffer_generation_mismatch() {
    let mut relay = completion_relay_scene(4);
    relay.scene.surfaces[0].buffer_generation = 5;
    let error = validate_relay_scene(&relay, true).unwrap_err();
    assert!(error.message().contains("buffer generation mismatch"));
}

#[test]
fn completion_compd_scene_budget_rejects_coordinate_overflow() {
    let mut relay = completion_relay_scene(4);
    relay.scene.surfaces[0].placement.x = i32::MAX;
    relay.scene.surfaces[0].placement.width = 2;
    let error = validate_relay_scene(&relay, true).unwrap_err();
    assert!(error.message().contains("placement overflows"));
}

#[test]
fn completion_compd_10k_scene_storm_retains_only_latest_pending_marker() {
    let mut state = CompdRelayState::default();
    for generation in 1..=10_000 {
        let relay = completion_relay_scene(generation);
        state.defer_latest(&relay, format!("deferred-{generation}"));
    }

    let pending = state.pending.as_ref().expect("latest pending scene");
    assert_eq!(pending.version, (1, 10_000));
    assert_eq!(pending.reason, "deferred-10000");
    assert_eq!(pending.usage.pixel_bytes, 16);
    assert_eq!(state.deferred_count, 10_000);
    assert_eq!(state.superseded_count, 9_999);
    assert!(std::mem::size_of::<PendingRelayScene>() <= 128);
}

#[test]
fn owners_are_rendered_for_logs() {
    assert_eq!(format_owner(&Some("terminal-1".to_string())), "terminal-1");
    assert_eq!(format_owner(&None), "none");
}

#[test]
fn margins_of_a_surface_not_anchored_on_both_sides_are_not_added() {
    let output = OutputMode { name: "eDP-1".into(), width: 1920, height: 1080, refresh_hz: 60 };
    let mut dock = SurfaceSnapshot {
        id: "dock".into(),
        app_id: "dock".into(),
        placement: SurfacePlacement { x: 0, y: 0, width: 0, height: 0, z: 0, visible: true },
        ..Default::default()
    };
    let metadata = LayerMetadata {
        layer: 1,
        anchor: 1 | 4,
        exclusive_zone: 40,
        margin_top: 0,
        margin_bottom: 0,
        margin_left: i32::MAX,
        margin_right: i32::MAX,
        keyboard_interactivity: 0,
    };
    apply_role_based_layout(&mut dock, &WaylandSurfaceRole::Layer(metadata), &output);
    assert_eq!(dock.placement.x, i32::MAX);
    assert_eq!(dock.placement.y, 0);
    assert_eq!(dock.placement.height, 40);
    assert_eq!(dock.placement.z, 20);
}
