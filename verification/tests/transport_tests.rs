use waybroker::pixel_transport::{PixelTransportHandle, PixelTransportPayload};
use waybroker::service::ServiceRole;
use waybroker::transport::{
    encode_attachment_lengths, encode_frame_header, expected_pixel_payload_bytes,
    is_recoverable_accept_error, is_recoverable_accept_kind, metadata_only_payload, parse_attachment_lengths, parse_frame_header,
    plan_framed_attachments, sanitize_artifact_filename, sanitize_session_instance_id,
    service_port, service_socket_path, session_artifact_path, validate_artifact_filename,
    validate_framed_payloads, validate_runtime_socket_path, validate_session_instance_id,
    BoundedJsonBuffer, JsonLineAccumulator, LineStep, IPC_FRAME_FIXED_HEADER_BYTES,
    IPC_FRAME_MARKER, IPC_FRAME_VERSION, MAX_IPC_BINARY_TOTAL_BYTES, MAX_IPC_JSON_LINE_BYTES,
};

#[test]
fn validates_session_instance_id() {
    assert!(validate_session_instance_id("default-single-session"));
    assert!(validate_session_instance_id("abc-123"));
    assert!(validate_session_instance_id("sess.demo_01"));
    assert!(!validate_session_instance_id("../evil"));
    assert!(!validate_session_instance_id("a/b"));
    assert!(!validate_session_instance_id("a\\b"));
    assert!(!validate_session_instance_id(""));
    assert!(!validate_session_instance_id("."));
    assert!(!validate_session_instance_id(".."));
    assert!(!validate_session_instance_id(&"a".repeat(129)));
    assert!(!validate_session_instance_id("hello\0world"));
}

#[test]
fn sanitizes_session_instance_id() {
    assert_eq!(sanitize_session_instance_id("default-single-session"), "default-single-session");
    assert_eq!(sanitize_session_instance_id("../evil"), ".._evil");
    assert_eq!(sanitize_session_instance_id("a/b"), "a_b");
    assert_eq!(sanitize_session_instance_id("."), "_.");
    assert_eq!(sanitize_session_instance_id(".."), "_..");
    assert_eq!(sanitize_session_instance_id(""), "default");
    assert_eq!(sanitize_session_instance_id("hello\x01world"), "hello_world");
}

#[test]
fn validates_runtime_socket_path_and_artifact_filename() {
    assert!(validate_runtime_socket_path("/tmp/waybroker/test.sock"));
    assert!(!validate_runtime_socket_path("/run/user/1000/waybroker/test.sock"));
    assert!(!validate_runtime_socket_path("/tmp/../etc/test.sock"));
    assert!(!validate_runtime_socket_path(""));
    assert_eq!(sanitize_artifact_filename("../evil.png"), ".._evil.png");
    assert_eq!(sanitize_artifact_filename(""), "artifact");
    assert_eq!(sanitize_artifact_filename("a/b\\c"), "a_b_c");
    assert!(validate_artifact_filename("screenshot-1.png"));
    assert!(!validate_artifact_filename("../evil.png"));
    assert!(!validate_artifact_filename("/abs/path.png"));
}

#[test]
fn session_artifact_path_stays_within_runtime_dir() {
    let runtime = "/tmp/waybroker-runtime";
    let path = session_artifact_path(runtime, "../evil/path", "test");
    assert!(path.starts_with(runtime));
    assert!(!path.contains("/evil"));
    assert!(path.contains(".._evil_path"));
    assert_eq!(path, "/tmp/waybroker-runtime/session-.._evil_path-test.json");
}

#[test]
fn socket_paths_and_ports_follow_service_roles() {
    assert_eq!(service_socket_path("/run/wb/", ServiceRole::Displayd), "/run/wb/displayd.sock");
    assert_eq!(service_socket_path("/run/wb", ServiceRole::Compd), "/run/wb/compd.sock");
    assert_eq!(service_port(ServiceRole::Displayd, 47000), 47000);
    assert_eq!(service_port(ServiceRole::Compd, 47000), 47002);
}

#[test]
fn rejects_oversized_json_line() {
    let mut line = JsonLineAccumulator::new();
    let chunk = vec![b'a'; MAX_IPC_JSON_LINE_BYTES + 1];
    match line.feed(&chunk) {
        LineStep::Failed { message } => assert_eq!(message, "IPC message exceeds 65536 bytes"),
        other => panic!("expected failure, got {other:?}"),
    }
}

#[test]
fn json_line_accumulator_joins_chunks_up_to_newline() {
    let mut line = JsonLineAccumulator::new();
    assert_eq!(line.feed(b"{\"a\":"), LineStep::NeedMore { consumed: 5 });
    assert_eq!(line.feed(b"1}\nrest"), LineStep::Complete { consumed: 3 });
    assert_eq!(line.into_line(), b"{\"a\":1}".to_vec());

    let mut empty = JsonLineAccumulator::new();
    match empty.feed(b"") {
        LineStep::Failed { message } => {
            assert_eq!(message, "unexpected EOF while reading IPC message")
        }
        other => panic!("expected failure, got {other:?}"),
    }
}

#[test]
fn classifies_recoverable_accept_errors() {
    assert!(is_recoverable_accept_error(&std::io::Error::new(
        std::io::ErrorKind::Interrupted,
        "interrupted"
    )));
    assert!(is_recoverable_accept_error(&std::io::Error::new(
        std::io::ErrorKind::ConnectionAborted,
        "connection aborted"
    )));
    assert!(!is_recoverable_accept_error(&std::io::Error::other("fatal")));
}

fn framed_payload(client_id: u64, surface_id: &str, width: u32, height: u32, generation: u64) -> PixelTransportPayload {
    let stride = width.checked_mul(4).unwrap();
    PixelTransportPayload {
        handle: PixelTransportHandle {
            client_id,
            surface_id: surface_id.to_string(),
            buffer_generation: generation,
            scene_generation: generation,
        },
        pixels: vec![0x5a; stride as usize * height as usize],
        width,
        height,
        stride,
        format: 1,
    }
}

#[test]
fn completion_transport_rejects_oversized_declared_frame_before_payload_allocation() {
    let mut wire = vec![IPC_FRAME_MARKER];
    let mut header = [0u8; IPC_FRAME_FIXED_HEADER_BYTES];
    header[0..4].copy_from_slice(b"XW3F");
    header[4] = IPC_FRAME_VERSION;
    header[8..12].copy_from_slice(&0u32.to_le_bytes());
    header[12..16].copy_from_slice(&0u32.to_le_bytes());
    header[16..24].copy_from_slice(&((MAX_IPC_BINARY_TOTAL_BYTES as u64) + 1).to_le_bytes());
    wire.extend_from_slice(&header);

    assert_eq!(wire[0], IPC_FRAME_MARKER);
    let error = parse_frame_header(&wire[1..]).unwrap_err();
    assert!(error.contains("attachment bytes exceed"));
}

#[test]
fn frame_header_round_trips_through_encoder() {
    let header = encode_frame_header(17, 2, 4096);
    assert_eq!(header.len(), IPC_FRAME_FIXED_HEADER_BYTES);
    assert_eq!(&header[0..4], b"XW3F");
    let parsed = parse_frame_header(&header).unwrap();
    assert_eq!(parsed.metadata_len, 17);
    assert_eq!(parsed.attachment_count, 2);
    assert_eq!(parsed.total_bytes, 4096);

    let mut bad_magic = header.clone();
    bad_magic[0] = b'Y';
    assert_eq!(parse_frame_header(&bad_magic).unwrap_err(), "invalid IPC frame magic");
}

#[test]
fn completion_transport_multiple_attachments_preserve_payload_order_and_identity() {
    let payloads = vec![framed_payload(2, "surface-b", 64, 32, 11), framed_payload(1, "surface-a", 32, 16, 11)];
    let lengths = plan_framed_attachments(&payloads).unwrap();
    assert_eq!(lengths, vec![64 * 4 * 32, 32 * 4 * 16]);

    let table = encode_attachment_lengths(&lengths);
    let header = encode_frame_header(0, 2, lengths.iter().sum());
    let parsed = parse_frame_header(&header).unwrap();
    let decoded = parse_attachment_lengths(&table, parsed).unwrap();
    assert_eq!(decoded, vec![64 * 4 * 32, 32 * 4 * 16]);
    let metadata: Vec<PixelTransportPayload> = payloads.iter().map(metadata_only_payload).collect();
    validate_framed_payloads(&metadata, &decoded).unwrap();
    assert_eq!(metadata[0].handle, payloads[0].handle);
    assert!(metadata[0].pixels.is_empty());
    assert!(validate_framed_payloads(&payloads, &decoded).is_err());
}

#[test]
fn completion_transport_truncated_binary_attachment_fails_closed() {
    let payloads = vec![framed_payload(1, "surface-a", 128, 128, 12)];
    let mut lengths = plan_framed_attachments(&payloads).unwrap();
    let header = encode_frame_header(0, 1, lengths[0]);
    lengths[0] -= 17;
    let table = encode_attachment_lengths(&lengths);
    let parsed = parse_frame_header(&header).unwrap();
    assert!(parse_attachment_lengths(&table, parsed).is_err());
}

#[test]
fn completion_transport_rejects_malformed_payload_before_writing_frame() {
    let mut payloads = vec![framed_payload(1, "surface-a", 8, 8, 13)];
    payloads[0].pixels.pop();
    assert_eq!(expected_pixel_payload_bytes(&payloads[0]).unwrap(), 8 * 4 * 8);
    assert!(plan_framed_attachments(&payloads).is_err());
}

#[test]
fn completion_transport_outbound_json_limit_is_checked_before_write() {
    let mut wire = BoundedJsonBuffer::new(MAX_IPC_JSON_LINE_BYTES);
    let message = vec![b'x'; MAX_IPC_JSON_LINE_BYTES + 1];
    assert_eq!(
        wire.write(&message).unwrap_err(),
        "IPC JSON serialization exceeds configured bound"
    );
    assert!(wire.into_inner().is_empty());

    let mut small = BoundedJsonBuffer::new(8);
    assert_eq!(small.write(b"abc").unwrap(), 3);
    assert_eq!(small.write(b"defgh").unwrap(), 5);
    assert!(small.write(b"i").is_err());
    assert_eq!(small.into_inner(), b"abcdefgh".to_vec());
}

#[test]
fn accept_loop_goes_on_after_the_six_transient_kinds_only() {
    for name in ["Interrupted", "WouldBlock", "ConnectionAborted", "ConnectionReset", "BrokenPipe", "NotConnected"] {
        assert!(is_recoverable_accept_kind(&name.to_string()), "{name}");
    }
    for name in ["Other", "NotFound", "PermissionDenied", "TimedOut", "interrupted", ""] {
        assert!(!is_recoverable_accept_kind(&name.to_string()), "{name}");
    }
    assert!(is_recoverable_accept_error(&std::io::Error::from(std::io::ErrorKind::ConnectionReset)));
    assert!(!is_recoverable_accept_error(&std::io::Error::from(std::io::ErrorKind::PermissionDenied)));
}
