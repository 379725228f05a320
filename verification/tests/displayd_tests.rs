use waybroker::cli::ParsedArgs;
use waybroker::display_state::{capture_artifact_bytes, screenshot_artifact_name, CommitPlan, DisplayState};
use waybroker::displayd::{CaptureBackendType, CaptureMethod, DisplaydConfig};
use waybroker::ipc::{
    CommitTarget, CommittedSceneState, FocusTarget, OutputGeometry, Rect, SurfacePlacement,
    SurfaceSnapshot, WaylandSelectionState,
};
use waybroker::pixel_transport::{PixelTransportHandle, PixelTransportPayload};
use waybroker::render::{
    compose_source_over, convert_x11_to_internal_u32, decode_source_pixel,
    div255_rounded, encode_rgba8888_artifact_bytes, framebuffer_offset_for_output,
    scene_generation_is_stale, surface_damage_rects, u32_to_rgba8888, validate_capture_pixel_count,
    OutputState, PixelFormatPolicy, RendererRect, SourcePixel, WL_SHM_FORMAT_XRGB8888,
};
use waybroker::service::ServiceRole;
use waybroker::video::{decode_video_frame, VideoFormat};

#[test]
fn rejects_only_older_nonzero_scene_generations() {
    assert!(scene_generation_is_stale(2, 8, 1, 7));
    assert!(!scene_generation_is_stale(2, 8, 2, 8));
    assert!(!scene_generation_is_stale(2, 8, 2, 9));
    assert!(!scene_generation_is_stale(2, 8, 2, 0));
    assert!(!scene_generation_is_stale(2, 8, 3, 1));
}

#[test]
fn accepts_newer_epoch_after_restart() {
    assert!(!scene_generation_is_stale(10, 100, 11, 1));
}

#[test]
fn test_validate_rgba_buffer_size_rejects_mismatch() {
    assert!(validate_capture_pixel_count(2, 2, 3).is_err());
    assert!(validate_capture_pixel_count(0, 0, 0).is_ok());
}

#[test]
fn displayd_rgba8888_writer_rejects_pixel_count_mismatch() {
    let err = encode_rgba8888_artifact_bytes(2, 2, &[0xAA112233, 0xAA112233, 0xAA112233]).unwrap_err();
    assert!(err.contains("mismatch"));
}

#[test]
fn displayd_rgba8888_writer_rejects_dimension_overflow() {
    let err = encode_rgba8888_artifact_bytes(u32::MAX, 2, &[]).unwrap_err();
    assert!(err.contains("overflow"));
}

#[test]
fn u32_to_rgba8888_is_endianness_independent() {
    let expected = [0x11, 0x22, 0x33, 0xAA];
    assert_eq!(u32_to_rgba8888(0xAA332211), expected);
    assert_eq!(u32_to_rgba8888(u32::from_be_bytes([0xAA, 0x33, 0x22, 0x11])), expected);
    assert_eq!(u32_to_rgba8888(u32::from_le_bytes([0x11, 0x22, 0x33, 0xAA])), expected);
}

#[test]
fn displayd_writes_expected_rgba8888_bytes_for_known_pixels() {
    let bytes = encode_rgba8888_artifact_bytes(
        1,
        1,
        &[((0xAAu32) << 24) | ((0x33u32) << 16) | ((0x22u32) << 8) | 0x11],
    )
    .unwrap();
    assert_eq!(bytes, vec![0x11, 0x22, 0x33, 0xAA]);
}

#[test]
fn capture_artifact_bytes_and_names_follow_the_capture() {
    let bytes = capture_artifact_bytes(2, 1, vec![0xFF000001, 0x80FFFFFF]).unwrap();
    assert_eq!(bytes, vec![0x00, 0x00, 0x01, 0xFF, 0xFF, 0xFF, 0xFF, 0x80]);
    assert!(capture_artifact_bytes(2, 2, vec![0; 3]).is_err());
    assert_eq!(screenshot_artifact_name("eDP-1", 1700000000), "screenshot-eDP-1-1700000000.raw");
}

fn parse_displayd(args: &[&str]) -> Result<DisplaydConfig, String> {
    let owned: Vec<String> = args.iter().map(|a| a.to_string()).collect();
    match DisplaydConfig::from_args(owned)? {
        ParsedArgs::Run(config) => Ok(config),
        ParsedArgs::Help => Err("usage requested".to_string()),
    }
}

#[test]
fn test_config_parser_capture_backend_defaults_to_fake() {
    let config = parse_displayd(&[]).unwrap();
    assert_eq!(config.capture_backend, CaptureBackendType::Fake);
    assert!(!config.allow_real_capture);
}

#[test]
fn test_config_parser_accepts_fake_explicitly() {
    let config = parse_displayd(&["--capture-backend", "fake"]).unwrap();
    assert_eq!(config.capture_backend, CaptureBackendType::Fake);
}

#[test]
fn test_config_parser_rejects_real_without_allow_flag() {
    let err = parse_displayd(&["--capture-backend", "real"]).unwrap_err();
    assert!(err.contains("requires --allow-real-capture"));
}

#[test]
fn test_config_parser_rejects_allow_flag_without_real_backend() {
    let err = parse_displayd(&["--allow-real-capture"]).unwrap_err();
    assert!(err.contains("requires --capture-backend real"));
}

#[test]
fn test_config_parser_accepts_real_with_allow_flag() {
    let config = parse_displayd(&["--capture-backend", "real", "--allow-real-capture"]).unwrap();
    assert_eq!(config.capture_backend, CaptureBackendType::Real);
    assert!(config.allow_real_capture);
}

#[test]
fn test_config_parser_accepts_x11_real_with_all_flags() {
    let config = parse_displayd(&[
        "--capture-backend",
        "real",
        "--allow-real-capture",
        "--capture-method",
        "x11",
        "--x11-display",
        ":0",
    ])
    .unwrap();
    assert_eq!(config.capture_backend, CaptureBackendType::Real);
    assert_eq!(config.capture_method, CaptureMethod::X11);
    assert_eq!(config.x11_display.unwrap(), ":0");
}

#[test]
fn test_config_parser_rejects_x11_without_display() {
    let err = parse_displayd(&["--capture-backend", "real", "--allow-real-capture", "--capture-method", "x11"])
        .unwrap_err();
    assert!(err.contains("requires --x11-display"));
}

#[test]
fn test_config_parser_rejects_x11_display_without_x11_method() {
    let err = parse_displayd(&["--capture-backend", "real", "--allow-real-capture", "--x11-display", ":0"])
        .unwrap_err();
    assert!(err.contains("requires --capture-method x11"));
}

#[test]
fn test_config_parser_rejects_unknown_capture_method() {
    let err = parse_displayd(&["--capture-backend", "real", "--allow-real-capture", "--capture-method", "magical"])
        .unwrap_err();
    assert!(err.contains("unknown capture method"));
}

#[test]
fn test_config_parser_accepts_portal_real_with_all_flags() {
    let config = parse_displayd(&[
        "--capture-backend",
        "real",
        "--allow-real-capture",
        "--capture-method",
        "portal",
        "--allow-portal-capture",
        "--allow-portal-dialog",
    ])
    .unwrap();
    assert_eq!(config.capture_backend, CaptureBackendType::Real);
    assert_eq!(config.capture_method, CaptureMethod::Portal);
    assert!(config.allow_portal_capture);
    assert!(config.allow_portal_dialog);
}

#[test]
fn test_config_parser_rejects_portal_without_interactive_flag() {
    let err = parse_displayd(&[
        "--capture-backend",
        "real",
        "--allow-real-capture",
        "--capture-method",
        "portal",
        "--allow-portal-capture",
    ])
    .unwrap_err();
    assert!(err.contains("requires --allow-portal-dialog"));
}

#[test]
fn test_config_parser_rejects_interactive_flag_without_portal_method() {
    let err = parse_displayd(&["--capture-backend", "real", "--allow-real-capture", "--allow-portal-dialog"])
        .unwrap_err();
    assert!(err.contains("requires --capture-method portal"));
}

#[test]
fn test_convert_x11_to_internal_u32_handles_rgb_layout() {
    let data = vec![0x11, 0x22, 0x33, 0xFF];
    let red_mask = 0x00FF0000;
    let green_mask = 0x0000FF00;
    let blue_mask = 0x000000FF;

    let result = convert_x11_to_internal_u32(1, 1, &data, red_mask, green_mask, blue_mask).unwrap();
    assert_eq!(result[0], 0xFF332211);
}

#[test]
fn test_convert_x11_to_internal_u32_handles_bgr_layout() {
    let data = vec![0x33, 0x22, 0x11, 0xFF];
    let red_mask = 0x000000FF;
    let green_mask = 0x0000FF00;
    let blue_mask = 0x00FF0000;

    let result = convert_x11_to_internal_u32(1, 1, &data, red_mask, green_mask, blue_mask).unwrap();
    assert_eq!(result[0], 0xFF332211);
}

#[test]
fn test_convert_x11_to_internal_u32_rejects_mismatch() {
    let data = vec![0u8; 3];
    let err = convert_x11_to_internal_u32(1, 1, &data, 0, 0, 0).unwrap_err();
    assert!(err.contains("data too short"));
}

#[test]
fn test_pipewire_frame_metadata_validation_valid() {
    let pixels = vec![0u8; 16 * 16 * 4];
    let res = decode_video_frame(&pixels, 16, 16, 16 * 4, VideoFormat::Rgba);
    assert!(res.is_ok());
    let (w, h, p) = res.unwrap();
    assert_eq!(w, 16);
    assert_eq!(h, 16);
    assert_eq!(p.len(), 16 * 16);
}

#[test]
fn test_pipewire_frame_metadata_validation_stride_too_small() {
    let pixels = vec![0u8; 16 * 16 * 4];
    let res = decode_video_frame(&pixels, 16, 16, 10, VideoFormat::Rgba);
    assert!(res.is_err());
    assert!(res.unwrap_err().contains("stride"));
}

#[test]
fn test_pipewire_frame_metadata_validation_buffer_too_small() {
    let pixels = vec![0u8; 16 * 16 * 4];
    let res = decode_video_frame(&pixels[..100], 16, 16, 16 * 4, VideoFormat::Rgba);
    assert!(res.is_err());
    assert!(res.unwrap_err().contains("chunk size"));
}

#[test]
fn test_pixel_conversion_for_supported_formats() {
    let pixels = vec![0x11, 0x22, 0x33, 0x00];
    let (_, _, p) = decode_video_frame(&pixels, 1, 1, 4, VideoFormat::Bgrx).unwrap();
    assert_eq!(p[0], 0xFF332211);

    let pixels = vec![0x11, 0x22, 0x33, 0xAA];
    let (_, _, p) = decode_video_frame(&pixels, 1, 1, 4, VideoFormat::Rgba).unwrap();
    assert_eq!(p[0], 0xAA112233);
}

#[test]
fn test_unsupported_format_returns_fail_closed() {
    let pixels = vec![0u8; 16];
    let res = decode_video_frame(&pixels, 2, 2, 4, VideoFormat::Unsupported { name: "I420".into() });
    assert!(res.is_err());
    assert!(res.unwrap_err().contains("Unsupported"));
}

#[test]
fn video_frames_skip_row_padding_and_decode_packed_rgb() {
    let data = vec![1, 2, 3, 9, 4, 5, 6, 9];
    let (_, _, p) = decode_video_frame(&data, 1, 2, 4, VideoFormat::Rgb).unwrap();
    assert_eq!(p, vec![0xFF010203, 0xFF040506]);
    let (_, _, p) = decode_video_frame(&data, 1, 2, 4, VideoFormat::Bgr).unwrap();
    assert_eq!(p, vec![0xFF030201, 0xFF060504]);
    assert_eq!(
        decode_video_frame(&data, 1, 2, 2, VideoFormat::Rgb).unwrap_err(),
        "invalid stride: got 2, expected >= 3"
    );
}

#[test]
fn alpha_source_over_vectors_are_exact_and_opaque_framebuffer_normalized() {
    assert_eq!(
        compose_source_over(SourcePixel::Premultiplied { a: 0, r: 0, g: 0, b: 0 }, 0xFF112233),
        0xFF112233
    );
    assert_eq!(
        compose_source_over(SourcePixel::Premultiplied { a: 255, r: 1, g: 2, b: 3 }, 0xFF112233),
        0xFF010203
    );
    assert_eq!(
        compose_source_over(SourcePixel::Premultiplied { a: 128, r: 128, g: 0, b: 0 }, 0xFF0000FF),
        0xFF80007F
    );
    assert_eq!(compose_source_over(SourcePixel::Opaque(0x00123456), 0), 0xFF123456);
}

#[test]
fn div255_rounds_to_nearest() {
    assert_eq!(div255_rounded(0), 0);
    assert_eq!(div255_rounded(127), 0);
    assert_eq!(div255_rounded(128), 1);
    assert_eq!(div255_rounded(255 * 255), 255);
}

#[test]
fn pixel_format_policy_decodes_argb_and_xrgb_channel_order() {
    assert_eq!(
        decode_source_pixel(0x80800000, PixelFormatPolicy::PremultipliedArgb8888).unwrap(),
        SourcePixel::Premultiplied { a: 128, r: 128, g: 0, b: 0 }
    );
    assert_eq!(
        decode_source_pixel(0x00010203, PixelFormatPolicy::OpaqueXrgb8888).unwrap(),
        SourcePixel::Opaque(0xFF010203)
    );
    assert_eq!(
        decode_source_pixel(0xAA010203, PixelFormatPolicy::OpaqueXrgb8888).unwrap(),
        SourcePixel::Opaque(0xFF010203)
    );
    assert!(decode_source_pixel(0x40800000, PixelFormatPolicy::PremultipliedArgb8888).is_err());
    assert!(PixelFormatPolicy::from_wire_format(99).is_err());
}

fn test_handle(client_id: u64, surface_id: &str, buffer_generation: u64, scene_generation: u64) -> PixelTransportHandle {
    PixelTransportHandle { client_id, surface_id: surface_id.into(), buffer_generation, scene_generation }
}

fn test_payload(handle: PixelTransportHandle, pixels: Vec<u32>, width: u32, height: u32, stride: u32) -> PixelTransportPayload {
    let mut bytes = vec![0u8; stride as usize * height as usize];
    for (i, pixel) in pixels.into_iter().enumerate() {
        let row = i as u32 / width;
        let col = i as u32 % width;
        let offset = row as usize * stride as usize + col as usize * 4;
        bytes[offset..offset + 4].copy_from_slice(&pixel.to_le_bytes());
    }
    PixelTransportPayload { handle, pixels: bytes, width, height, stride, format: WL_SHM_FORMAT_XRGB8888 }
}

fn test_surface(
    id: &str,
    x: i32,
    y: i32,
    width: u32,
    height: u32,
    z: i32,
    handle: Option<PixelTransportHandle>,
) -> SurfaceSnapshot {
    SurfaceSnapshot {
        id: id.into(),
        app_id: "app1".into(),
        placement: SurfacePlacement { x, y, width, height, z, visible: true },
        buffer_generation: handle.as_ref().map(|h| h.buffer_generation).unwrap_or(0),
        pixel_transport: handle,
        ..Default::default()
    }
}

fn commit(state: &mut DisplayState, surfaces: Vec<SurfaceSnapshot>, payloads: Vec<PixelTransportPayload>, generation: u64) -> Result<bool, String> {
    let composed = match state.prepare_commit(&surfaces, payloads, 1, generation) {
        CommitPlan::Rejected { reason } => return Err(reason),
        CommitPlan::Skipped { .. } => false,
        CommitPlan::Compose { frame, .. } => {
            state.finish_publication(frame);
            true
        }
    };
    let snapshot = state.commit_snapshot(
        ServiceRole::Compd,
        CommitTarget::Output { name: "eDP-1".into() },
        FocusTarget::Unfocused,
        WaylandSelectionState::default(),
        surfaces,
        1,
        generation,
        0,
    );
    state.record_commit(snapshot);
    Ok(composed)
}

#[test]
fn damage_limited_composition_updates_only_small_rect() {
    let mut state = DisplayState::new_test();
    let handle = test_handle(1, "surface-1", 1, 1);
    let surface = test_surface("surface-1", 0, 0, 4, 4, 1, Some(handle.clone()));
    let initial_payload = test_payload(handle.clone(), vec![0x11111111; 16], 4, 4, 16);
    assert_eq!(commit(&mut state, vec![surface.clone()], vec![initial_payload], 1), Ok(true));
    let before = state.framebuffer.clone();
    assert_eq!(before[0], 0xFF111111);

    let updated_handle = test_handle(1, "surface-1", 1, 2);
    let mut damaged_surface = test_surface("surface-1", 0, 0, 4, 4, 1, Some(updated_handle.clone()));
    damaged_surface.damage_rects = vec![Rect { x: 1, y: 1, width: 1, height: 1 }];
    let updated_payload = test_payload(updated_handle, vec![0x22222222; 16], 4, 4, 16);
    assert_eq!(commit(&mut state, vec![damaged_surface], vec![updated_payload], 2), Ok(true));

    let changed = framebuffer_offset_for_output(&state.output, 1, 1).unwrap();
    assert_eq!(state.framebuffer[changed], 0xFF222222);
    for (index, pixel) in state.framebuffer.iter().enumerate().take(8_000) {
        if index != changed {
            assert_eq!(*pixel, before[index], "unexpected framebuffer change at {index}");
        }
    }
}

#[test]
fn stale_or_missing_payload_does_not_partially_mutate_framebuffer() {
    let mut state = DisplayState::new_test();
    let handle = test_handle(1, "surface-1", 1, 1);
    let surface = test_surface("surface-1", 0, 0, 4, 4, 1, Some(handle.clone()));
    let payload = test_payload(handle, vec![0x11111111; 16], 4, 4, 16);
    assert_eq!(commit(&mut state, vec![surface], vec![payload], 1), Ok(true));
    let before = state.framebuffer.clone();

    let missing = test_handle(1, "surface-1", 1, 2);
    let surface = test_surface("surface-1", 0, 0, 4, 4, 1, Some(missing));
    assert!(commit(&mut state, vec![surface], vec![], 2).is_err());
    assert_eq!(state.framebuffer, before);

    let stale = test_surface("surface-1", 0, 0, 4, 4, 1, None);
    let err = state.prepare_commit(&vec![stale], vec![], 0, 5);
    assert!(matches!(err, CommitPlan::Rejected { .. }));
    assert_eq!(state.framebuffer, before);
}

#[test]
fn damage_rects_are_translated_and_clipped_for_negative_and_overflowing_surfaces() {
    let output = RendererRect::from_origin_size(0, 0, 1920, 1080).unwrap();
    let mut negative = test_surface("neg", -2, -1, 4, 4, 1, None);
    negative.damage_rects = vec![Rect { x: 0, y: 0, width: 4, height: 4 }];
    let mut overflow = test_surface("overflow", 1918, 1078, 8, 8, 1, None);
    overflow.damage_rects = vec![Rect { x: 0, y: 0, width: 8, height: 8 }];

    assert_eq!(surface_damage_rects(&negative, output), vec![RendererRect { x0: 0, y0: 0, x1: 2, y1: 3 }]);
    assert_eq!(
        surface_damage_rects(&overflow, output),
        vec![RendererRect { x0: 1918, y0: 1078, x1: 1920, y1: 1080 }]
    );
}

fn base_geometry() -> OutputGeometry {
    OutputGeometry {
        output_id: "test".into(),
        width: 2,
        height: 2,
        stride: 8,
        format: WL_SHM_FORMAT_XRGB8888,
        origin_x: 0,
        origin_y: 0,
        output_generation: 1,
    }
}

#[test]
fn output_geometry_rejects_invalid_shapes_and_overflow() {
    let base = base_geometry();
    assert!(OutputState::validate(&base).is_ok());
    assert!(OutputState::validate(&OutputGeometry { width: 0, ..base.clone() }).is_err());
    assert!(OutputState::validate(&OutputGeometry { stride: 4, ..base.clone() }).is_err());
    assert!(OutputState::validate(&OutputGeometry { format: 99, ..base.clone() }).is_err());
    assert!(OutputState::validate(&OutputGeometry { width: u32::MAX, ..base }).is_err());
}

#[test]
fn output_geometry_supports_padding_and_negative_origin() {
    let output = OutputState::validate(&OutputGeometry {
        output_id: "test".into(),
        width: 3,
        height: 2,
        stride: 16,
        format: WL_SHM_FORMAT_XRGB8888,
        origin_x: -4,
        origin_y: -3,
        output_generation: 7,
    })
    .unwrap();
    assert_eq!(output.framebuffer_words(), 8);
    assert_eq!(output.bounds(), RendererRect { x0: -4, y0: -3, x1: -1, y1: -1 });
    assert_eq!(framebuffer_offset_for_output(&output, -4, -3).unwrap(), 0);
    assert_eq!(framebuffer_offset_for_output(&output, -2, -2).unwrap(), 6);
    assert!(framebuffer_offset_for_output(&output, -1, -2).is_err());
}

#[test]
fn output_and_scene_generations_are_independent() {
    let output = OutputState::validate(&OutputGeometry {
        output_id: "test".into(),
        width: 4,
        height: 4,
        stride: 16,
        format: WL_SHM_FORMAT_XRGB8888,
        origin_x: 0,
        origin_y: 0,
        output_generation: 11,
    })
    .unwrap();
    assert_eq!(output.generation, 11);
    let scene = CommittedSceneState {
        source: ServiceRole::Compd,
        target: CommitTarget::Output { name: "test".into() },
        focus: FocusTarget::Unfocused,
        selection: Default::default(),
        surfaces: vec![],
        scene_epoch: 2,
        scene_generation: 3,
        commit_id: 1,
        unix_timestamp: 0,
    };
    assert_ne!(output.generation, scene.scene_generation);
}
