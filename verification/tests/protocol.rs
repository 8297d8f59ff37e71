use boltsnap::json::{parse_json, print_json};
use boltsnap::linux::ipc::{ensure_daemon, socket_path, systemd_start_args, unreachable_daemon, Reaching};
use boltsnap::paths::Environment;
use boltsnap::protocol::{
    frame_lengths, parse_recording_action, parse_recording_state, read_frame,
    recording_action_name, recording_state_name, write_frame, ErrorKind, PublicRecordingState,
    RecordingAction, RecordingSnapshot, Replacement, Request, Response, MAX_PAYLOAD_BYTES,
};

const ACTIONS: [RecordingAction; 5] = [
    RecordingAction::Pause,
    RecordingAction::Resume,
    RecordingAction::SaveShelf,
    RecordingAction::SaveDisk,
    RecordingAction::Discard,
];

fn environment(vars: &[(&str, &str)]) -> Environment {
    Environment {
        vars: vars.iter().map(|(name, value)| (name.to_string(), value.to_string())).collect(),
        home_dir: "/home/bolt".into(),
        config_dir: "/home/bolt/.config/boltsnap".into(),
        screenshot_dir: "/home/bolt/Pictures".into(),
        temp_dir: "/tmp".into(),
        current_dir: "/".into(),
    }
}

fn framed(header: &[u8]) -> Vec<u8> {
    let mut bytes = Vec::new();
    write_frame(&mut bytes, header, &[]).unwrap();
    bytes
}

fn actions_roundtrip() {
    for action in ACTIONS {
        let decoded = Request::read(&Request::RecordingControl { action }.encode()).unwrap();
        assert!(matches!(decoded, Request::RecordingControl { action: got } if got == action));
    }
}

#[test]
fn recording_control_roundtrips_all_actions() {
    actions_roundtrip();
}

#[test]
fn ipc_recording_control_roundtrips_all_actions() {
    actions_roundtrip();
}

#[test]
fn recording_actions_roundtrip_without_platform_state() {
    actions_roundtrip();
}

fn requests_roundtrip() {
    for request in [
        Request::RecordingStatus,
        Request::RecordingWatch,
        Request::ShowRecordingControls,
        Request::StartDefaultRecording,
    ] {
        let encoded = request.encode();
        let decoded = Request::read(&encoded).unwrap();
        assert_eq!(std::mem::discriminant(&decoded), std::mem::discriminant(&request));
    }

    let request = Request::StartRecordingOutputs {
        names: vec!["DP-3".into(), "DP-1".into()],
        combined: true,
    };
    assert!(matches!(
        Request::read(&request.encode()).unwrap(),
        Request::StartRecordingOutputs { names, combined }
            if names == ["DP-3", "DP-1"] && combined
    ));
}

#[test]
fn recording_requests_roundtrip() {
    requests_roundtrip();
}

#[test]
fn ipc_recording_requests_roundtrip() {
    requests_roundtrip();
}

fn snapshot_line() {
    let line = RecordingSnapshot {
        state: PublicRecordingState::Paused,
        elapsed_ms: 83_000,
        scope: "both".into(),
        outputs: vec!["DP-3".into(), "DP-1".into()],
        actions_enabled: true,
        error: None,
    }
    .to_json_line();
    assert_eq!(
        line,
        "{\"state\":\"paused\",\"elapsed_ms\":83000,\"scope\":\"both\",\"outputs\":[\"DP-3\",\"DP-1\"],\"actions_enabled\":true,\"error\":null}\n"
    );
}

#[test]
fn recording_snapshot_json_uses_stable_public_names() {
    snapshot_line();
}

#[test]
fn ipc_recording_snapshot_json_uses_stable_public_names() {
    snapshot_line();
}

#[test]
fn response_roundtrips_success_and_error() {
    let snapshot = RecordingSnapshot::idle();
    let success = Response::ok(Some(snapshot.clone()));
    assert_eq!(Response::read(&success.encode()).unwrap(), success);

    let failure = Response::error("cannot pause while idle");
    assert_eq!(Response::read(&failure.encode()).unwrap(), failure);

    let owned = Response::ok_path("/tmp/boltsnap-shelf-video.mp4".into());
    assert_eq!(Response::read(&owned.encode()).unwrap(), owned);
}

#[test]
fn ipc_response_roundtrips_success_and_error() {
    let snapshot = RecordingSnapshot::idle();
    let success = Response::ok(Some(snapshot.clone()));
    assert_eq!(Response::read(&success.encode()).unwrap(), success);

    let failure = Response::error("cannot pause while idle");
    assert_eq!(Response::read(&failure.encode()).unwrap(), failure);
}

#[test]
fn response_roundtrips_without_platform_transport() {
    let response = Response::ok(Some(RecordingSnapshot::idle()));
    assert_eq!(Response::read(&response.encode()).unwrap(), response);
}

fn snapshot_lines() {
    let first = RecordingSnapshot::idle().to_json_line();
    let second = RecordingSnapshot {
        state: PublicRecordingState::Recording,
        elapsed_ms: 1_000,
        scope: "area".into(),
        outputs: vec!["DP-3".into()],
        actions_enabled: true,
        error: None,
    }
    .to_json_line();
    let stream = format!("{first}{second}");
    let lines = stream.lines().collect::<Vec<_>>();
    assert_eq!(lines.len(), 2);
    assert!(lines[0].contains("\"state\":\"idle\""));
    assert!(lines[1].contains("\"elapsed_ms\":1000"));
}

#[test]
fn watch_snapshot_lines_are_newline_framed() {
    snapshot_lines();
}

#[test]
fn ipc_watch_snapshot_lines_are_newline_framed() {
    snapshot_lines();
}

fn one_frame() {
    let mut buf = Vec::new();
    write_frame(&mut buf, b"{\"cmd\":\"add\"}", &[1, 2, 3, 4]).unwrap();
    let (header, payload) = read_frame(&buf).unwrap();
    assert_eq!(header, b"{\"cmd\":\"add\"}");
    assert_eq!(payload, vec![1, 2, 3, 4]);
}

#[test]
fn frame_roundtrip() {
    one_frame();
}

#[test]
fn ipc_frame_roundtrip() {
    one_frame();
}

#[test]
fn binary_frame_roundtrips_without_platform_transport() {
    let mut bytes = Vec::new();
    write_frame(&mut bytes, br#"{"cmd":"add"}"#, &[1, 2, 3, 4]).unwrap();
    let (header, payload) = read_frame(&bytes).unwrap();
    assert_eq!(header, br#"{"cmd":"add"}"#);
    assert_eq!(payload, [1, 2, 3, 4]);
}

#[test]
fn oversized_payload_is_rejected_before_allocation() {
    let mut bytes = Vec::new();
    bytes.extend_from_slice(&0_u32.to_be_bytes());
    bytes.extend_from_slice(&((MAX_PAYLOAD_BYTES as u32) + 1).to_be_bytes());
    let error = read_frame(&bytes).unwrap_err();
    assert_eq!(error.kind(), ErrorKind::InvalidData);
}

#[test]
fn oversized_frame_header_is_rejected_before_allocation() {
    let mut bytes = Vec::new();
    bytes.extend_from_slice(&(65_537_u32).to_be_bytes());
    bytes.extend_from_slice(&0_u32.to_be_bytes());
    let error = read_frame(&bytes).unwrap_err();
    assert_eq!(error.kind(), ErrorKind::InvalidData);
    assert!(error.message.contains("header"));
}

#[test]
fn oversized_frame_payload_is_rejected_before_allocation() {
    let mut bytes = Vec::new();
    bytes.extend_from_slice(&0_u32.to_be_bytes());
    bytes.extend_from_slice(&((MAX_PAYLOAD_BYTES as u32) + 1).to_be_bytes());
    let error = read_frame(&bytes).unwrap_err();
    assert_eq!(error.kind(), ErrorKind::InvalidData);
    assert!(error.message.contains("payload"));
}

#[test]
fn a_frame_that_ends_early_is_told_apart() {
    let mut bytes = Vec::new();
    write_frame(&mut bytes, b"{}", &[1, 2, 3]).unwrap();
    assert_eq!(&bytes[..8], [0, 0, 0, 2, 0, 0, 0, 3]);
    assert_eq!(frame_lengths(&bytes[..8]).unwrap(), (2, 3));
    for length in 0..bytes.len() {
        assert_eq!(read_frame(&bytes[..length]).unwrap_err().kind(), ErrorKind::UnexpectedEof);
    }
    bytes.push(9);
    assert_eq!(read_frame(&bytes).unwrap(), (b"{}".to_vec(), vec![1, 2, 3]));
}

#[test]
fn recording_geometry_rejects_wrapped_and_zero_dimensions() {
    for header in [
        br#"{"cmd":"record","x":2147483648,"y":0,"w":1,"h":1}"#.as_slice(),
        br#"{"cmd":"record","x":0,"y":0,"w":0,"h":1}"#.as_slice(),
    ] {
        assert_eq!(
            Request::read(&framed(header)).unwrap_err().kind(),
            ErrorKind::InvalidData
        );
    }
}

#[test]
fn request_add_roundtrip() {
    let req = Request::Add {
        source: "area".into(),
        png: vec![9, 8, 7],
        output: Some("DP-3".into()),
    };
    match Request::read(&req.encode()).unwrap() {
        Request::Add { source, png, output } => {
            assert_eq!(source, "area");
            assert_eq!(png, vec![9, 8, 7]);
            assert_eq!(output.as_deref(), Some("DP-3"));
        }
        other => panic!("wrong variant: {other:?}"),
    }
}

#[test]
fn ipc_request_add_roundtrip() {
    let req = Request::Add { source: "area".into(), png: vec![9, 8, 7], output: None };
    match Request::read(&req.encode()).unwrap() {
        Request::Add { source, png, .. } => {
            assert_eq!(source, "area");
            assert_eq!(png, vec![9, 8, 7]);
        }
        other => panic!("wrong variant: {other:?}"),
    }
}

#[test]
fn request_add_without_output_remains_compatible() {
    let mut bytes = Vec::new();
    write_frame(&mut bytes, br#"{"cmd":"add","source":"legacy"}"#, &[1, 2, 3]).unwrap();

    match Request::read(&bytes).unwrap() {
        Request::Add { output, .. } => assert_eq!(output, None),
        other => panic!("wrong variant: {other:?}"),
    }
}

#[test]
fn request_add_video_roundtrip() {
    let req = Request::AddVideo {
        source: "eddy".into(),
        path: "/tmp/eddy clip.mp4".into(),
        output: Some("DP-2".into()),
        take_ownership: true,
    };
    match Request::read(&req.encode()).unwrap() {
        Request::AddVideo { source, path, output, take_ownership } => {
            assert_eq!(source, "eddy");
            assert_eq!(path, "/tmp/eddy clip.mp4");
            assert_eq!(output.as_deref(), Some("DP-2"));
            assert!(take_ownership);
        }
        other => panic!("wrong variant: {other:?}"),
    }
}

#[test]
fn request_replace_image_roundtrip() {
    let req = Request::Replace { id: 12, media: Replacement::Image(vec![9, 8, 7]) };

    match Request::read(&req.encode()).unwrap() {
        Request::Replace { id, media: Replacement::Image(png) } => {
            assert_eq!(id, 12);
            assert_eq!(png, vec![9, 8, 7]);
        }
        other => panic!("wrong variant: {other:?}"),
    }
}

#[test]
fn request_replace_video_roundtrip() {
    let req = Request::Replace {
        id: 13,
        media: Replacement::Video { path: "/tmp/edited.mp4".into(), take_ownership: false },
    };

    match Request::read(&req.encode()).unwrap() {
        Request::Replace { id, media: Replacement::Video { path, take_ownership } } => {
            assert_eq!(id, 13);
            assert_eq!(path, "/tmp/edited.mp4");
            assert!(!take_ownership);
        }
        other => panic!("wrong variant: {other:?}"),
    }
}

fn ping_and_reload() {
    assert!(matches!(Request::read(&Request::Ping.encode()).unwrap(), Request::Ping));
    assert!(matches!(
        Request::read(&Request::StopRecording.encode()).unwrap(),
        Request::StopRecording
    ));
    assert!(matches!(
        Request::read(&Request::Reload { id: 42 }.encode()).unwrap(),
        Request::Reload { id: 42 }
    ));
}

#[test]
fn request_ping_and_reload_roundtrip() {
    ping_and_reload();
}

#[test]
fn ipc_request_ping_and_reload_roundtrip() {
    ping_and_reload();
}

#[test]
fn request_start_recording_roundtrip() {
    let req = Request::StartRecording {
        x: -100,
        y: 40,
        w: 800,
        h: 600,
        show_frame: false,
        audio_enabled: false,
    };
    match Request::read(&req.encode()).unwrap() {
        Request::StartRecording { x, y, w, h, show_frame, audio_enabled } => {
            assert_eq!((x, y, w, h), (-100, 40, 800, 600));
            assert!(!show_frame);
            assert!(!audio_enabled);
        }
        other => panic!("wrong variant: {other:?}"),
    }
}

#[test]
fn ipc_request_start_recording_roundtrip() {
    let req = Request::StartRecording {
        x: -100,
        y: 40,
        w: 800,
        h: 600,
        show_frame: false,
        audio_enabled: true,
    };
    match Request::read(&req.encode()).unwrap() {
        Request::StartRecording { x, y, w, h, show_frame, .. } => {
            assert_eq!((x, y, w, h), (-100, 40, 800, 600));
            assert!(!show_frame);
        }
        other => panic!("wrong variant: {other:?}"),
    }
}

fn frame_field_defaults() {
    let bytes = framed(br#"{"cmd":"record","x":1,"y":2,"w":3,"h":4}"#);
    assert!(matches!(
        Request::read(&bytes).unwrap(),
        Request::StartRecording { show_frame: true, .. }
    ));
}

#[test]
fn start_recording_missing_frame_field_defaults_true() {
    frame_field_defaults();
}

#[test]
fn ipc_start_recording_missing_frame_field_defaults_true() {
    frame_field_defaults();
}

#[test]
fn start_recording_missing_audio_field_defaults_true() {
    let bytes = framed(br#"{"cmd":"record","x":1,"y":2,"w":3,"h":4}"#);
    assert!(matches!(
        Request::read(&bytes).unwrap(),
        Request::StartRecording { audio_enabled: true, .. }
    ));
}

fn output_roundtrip() {
    let req = Request::StartRecordingOutput { name: "DP-1".into() };
    match Request::read(&req.encode()).unwrap() {
        Request::StartRecordingOutput { name } => assert_eq!(name, "DP-1"),
        other => panic!("wrong variant: {other:?}"),
    }
}

#[test]
fn request_start_recording_output_roundtrip() {
    output_roundtrip();
}

#[test]
fn ipc_request_start_recording_output_roundtrip() {
    output_roundtrip();
}

fn thumb_roundtrip() {
    let req = Request::RecordingThumb { id: 7, thumb: "/tmp/boltsnap-rec-1.png".into() };
    match Request::read(&req.encode()).unwrap() {
        Request::RecordingThumb { id, thumb } => {
            assert_eq!(id, 7);
            assert_eq!(thumb, "/tmp/boltsnap-rec-1.png");
        }
        other => panic!("wrong variant: {other:?}"),
    }
}

#[test]
fn request_recording_thumb_roundtrip() {
    thumb_roundtrip();
}

#[test]
fn ipc_request_recording_thumb_roundtrip() {
    thumb_roundtrip();
}

#[test]
fn socket_path_uses_runtime_dir() {
    assert_eq!(
        socket_path(&environment(&[("XDG_RUNTIME_DIR", "/run/user/test")])),
        "/run/user/test/boltsnap.sock"
    );
}

#[test]
fn ipc_socket_path_uses_runtime_dir() {
    let variables = [("HOME", "/home/bolt"), ("XDG_RUNTIME_DIR", "/run/user/test")];
    assert_eq!(socket_path(&environment(&variables)), "/run/user/test/boltsnap.sock");
}

#[test]
fn daemon_start_uses_the_user_systemd_service() {
    assert_eq!(
        systemd_start_args(),
        ["--user", "start", "--no-block", "boltsnap-daemon.service"]
    );
}

#[test]
fn a_daemon_that_does_not_come_up_is_given_up() {
    let mut at = Reaching::First;
    let mut steps = 0;
    while at != Reaching::TimedOut && at != Reaching::Connected {
        at = ensure_daemon(at, false);
        steps += 1;
        assert!(steps < 300);
    }
    assert_eq!(at, Reaching::TimedOut);
    assert_eq!(ensure_daemon(Reaching::First, true), Reaching::Connected);
    assert_eq!(unreachable_daemon().kind(), ErrorKind::TimedOut);
}

#[test]
fn states_and_actions_are_told_by_their_names() {
    for (state, name) in [
        (PublicRecordingState::Idle, "idle"),
        (PublicRecordingState::Recording, "recording"),
        (PublicRecordingState::Paused, "paused"),
        (PublicRecordingState::Finalizing, "finalizing"),
    ] {
        assert_eq!(recording_state_name(state), name);
        assert_eq!(parse_recording_state(name).unwrap(), state);
    }
    for action in ACTIONS {
        assert_eq!(parse_recording_action(recording_action_name(action)).unwrap(), action);
    }
    assert_eq!(parse_recording_state("done").unwrap_err().kind(), ErrorKind::InvalidData);
    assert_eq!(parse_recording_action("start").unwrap_err().kind(), ErrorKind::InvalidData);
}

#[test]
fn a_request_that_is_not_understood_is_refused() {
    for header in [
        &b"not json"[..],
        br#"{"cmd":"unknown"}"#,
        br#"{"cmd":"recording_control","action":"rewind"}"#,
        br#"{"cmd":"record_outputs","combined":true}"#,
        br#"{"cmd":"record","x":0,"y":0,"w":1}"#,
        b"[]",
    ] {
        assert_eq!(
            Request::read(&framed(header)).unwrap_err().kind(),
            ErrorKind::InvalidData
        );
    }
    assert_eq!(Response::read(&framed(b"{}")).unwrap_err().kind(), ErrorKind::InvalidData);
}

#[test]
fn json_is_printed_as_it_was_read() {
    let text = "{\"a\":{\"x\":\"y\"},\"b\":[1,-2,\"\u{e4}\",null,true]}";
    let document = parse_json(text.as_bytes()).unwrap();
    assert_eq!(document.get("a").unwrap().text_at("x"), Some("y"));
    let printed = print_json(document);
    assert_eq!(printed, text);
    assert!(parse_json(b"{").is_err());
    assert!(parse_json(&[0xff]).is_err());
}
