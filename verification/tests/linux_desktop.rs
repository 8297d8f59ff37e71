use boltsnap::cli::Backend;
use boltsnap::config::{
    RecordAudioSource, RecordBothMode, RecordDefaultTarget, RecordingPrefs,
};
use boltsnap::document::Document;
use boltsnap::json::parse_json;
use boltsnap::linux::clipboard::{clipboard_route, uri_list_for, ClipboardRoute};
use boltsnap::linux::hypr::{focused_name, json, json_request, socket_path};
use boltsnap::linux::image_transfer::{
    acknowledged, check_file, check_length, check_seals, offered, receive_fd, same_user,
    send_error, Metadata, Transfer, TransferEvent, TransferStep, COMMAND, MARKER, SEALS,
};
use boltsnap::linux::portal::{
    answered_path, percent_decode, request_path, request_token, unescape,
};
use boltsnap::linux::shelf::font::{
    font_queries, parse_fc_match, parse_gsettings_font, parses_as_number,
};
use boltsnap::linux::shelf::limits::{ClientLimits, Limit};
use boltsnap::linux::shelf::thumbnail::{extract, extract_args, legacy_size};
use boltsnap::linux::tray::{
    audio_source_at, audio_source_labels, menu_model, monitor_label, tray_icon, BoltsnapTray,
    LatestValue, MenuItem, TrayAction, TrayChoice, TrayCommand, TraySnapshot,
};
use boltsnap::paths::Environment;
use boltsnap::picture::write_png;
use boltsnap::pixels::{Image, Rgb};
use boltsnap::protocol::{
    read_frame, write_frame, ErrorKind, PublicRecordingState, Response, WireError,
    MAX_PAYLOAD_BYTES,
};
use boltsnap::record::{Monitor, Scale};

fn environment(vars: &[(&str, &str)]) -> Environment {
    Environment {
        vars: vars.iter().map(|(name, value)| (name.to_string(), value.to_string())).collect(),
        home_dir: "/home/bolt".into(),
        config_dir: "/home/bolt/.config/boltsnap".into(),
        screenshot_dir: "/home/bolt/Pictures".into(),
        temp_dir: "/tmp".into(),
        current_dir: "/work".into(),
    }
}

#[test]
fn uri_list_has_file_scheme_and_crlf() {
    let s = uri_list_for(b"/nonexistent/x.mp4");
    assert!(s.starts_with("file://"), "got {s:?}");
    assert!(s.ends_with("\r\n"), "got {s:?}");
    assert!(s.contains("x.mp4"), "got {s:?}");
}

#[test]
fn uri_list_percent_encodes_path_bytes() {
    assert_eq!(
        uri_list_for("/nonexistent/a b#%\u{e4}.mp4".as_bytes()),
        "file:///nonexistent/a%20b%23%25%C3%A4.mp4\r\n"
    );
}

#[test]
fn what_was_escaped_is_read_back() {
    let path = "/a b/%25\u{e4}+~.png";
    let uri = uri_list_for(path.as_bytes());
    let escaped = uri.strip_prefix("file://").unwrap().strip_suffix("\r\n").unwrap();
    assert_eq!(percent_decode(escaped), path);
    assert_eq!(unescape(b"%ff%4"), vec![0xff, b'%', b'4']);
}

#[test]
fn the_clipboard_needs_a_server() {
    assert_eq!(clipboard_route(Backend::Wayland), Ok(ClipboardRoute::Serve));
    assert_eq!(clipboard_route(Backend::X11), Ok(ClipboardRoute::Hand));
    assert_eq!(
        clipboard_route(Backend::Windows).unwrap_err(),
        "Windows clipboard is unavailable on Linux"
    );
}

#[test]
fn decodes_percent_escapes() {
    assert_eq!(percent_decode("/a%20b/c%C3%A4.png"), "/a b/c\u{e4}.png");
    assert_eq!(percent_decode("/plain.png"), "/plain.png");
    assert_eq!(percent_decode("/bad%zz%4"), "/bad%zz%4");
}

#[test]
fn a_portal_answers_with_a_file() {
    assert_eq!(request_token(77), "boltsnap77");
    assert_eq!(
        request_path(":1.42", 77),
        "/org/freedesktop/portal/desktop/request/1_42/boltsnap77"
    );
    assert_eq!(answered_path(0, Some("file:///a%20b.png")), Ok("/a b.png".to_string()));
    assert_eq!(
        answered_path(1, Some("file:///a.png")).unwrap_err(),
        "portal screenshot denied or cancelled (code 1)"
    );
    assert_eq!(answered_path(0, None).unwrap_err(), "portal response carries no uri");
    assert_eq!(
        answered_path(0, Some("http://a")).unwrap_err(),
        "unexpected portal uri http://a"
    );
}

#[test]
fn parses_gsettings_family_without_trailing_size() {
    assert_eq!(
        parse_gsettings_font("'GeistMono Nerd Font 11'\n"),
        Some("GeistMono Nerd Font".into())
    );
    assert_eq!(parse_gsettings_font("'Inter Variable 10.5'"), Some("Inter Variable".into()));
}

#[test]
fn parses_fontconfig_collection_index() {
    assert_eq!(
        parse_fc_match("/usr/share/fonts/inter/Inter.ttc\t2\n"),
        Some(("/usr/share/fonts/inter/Inter.ttc".to_string(), 2))
    );
}

#[test]
fn a_font_without_a_size_or_an_index_is_none() {
    assert_eq!(parse_gsettings_font("'Inter'"), None);
    assert_eq!(parse_gsettings_font("'Inter Bold'"), None);
    assert_eq!(parse_gsettings_font("' 11'"), None);
    assert_eq!(parse_fc_match(""), None);
    assert_eq!(parse_fc_match("/a.ttf"), None);
    assert_eq!(parse_fc_match("/a.ttf\tx"), None);
    assert_eq!(parse_fc_match("\t0"), None);
    assert_eq!(font_queries(Some("Mono"), Some("Inter")), ["Mono", "Inter", "sans-serif"]);
    assert_eq!(font_queries(Some(""), None), ["sans-serif"]);
}

#[test]
fn a_number_is_what_a_float_can_be_read_from() {
    for text in [
        "11", "10.5", ".5", "5.", "-3", "+1e5", "1e-5", "1E+5", "inf", "-Infinity", "NaN", "", ".",
        "e5", "1e", "1e+", "1.2.3", "0x1", " 1", "infin", "+-1", "1_0",
    ] {
        assert_eq!(parses_as_number(text), text.parse::<f32>().is_ok(), "{text:?}");
    }
}

#[test]
fn permits_run_out() {
    let mut limit = Limit::new(2);
    assert!(limit.acquire());
    assert!(limit.acquire());
    assert!(!limit.acquire());
    limit.release();
    assert!(limit.acquire());
    let limits = ClientLimits::default();
    assert_eq!((limits.readers.maximum, limits.images.maximum), (16, 2));
}

#[test]
fn a_video_is_shown_by_its_first_frame() {
    let args = extract_args("/v.mp4", 320, 180);
    assert_eq!(
        args.join(" "),
        "-v error -nostdin -threads 2 -i /v.mp4 -map 0:v:0 -vf scale=320:180:force_original_aspect_ratio=increase,crop=320:180,setsar=1 -filter_threads 1 -frames:v 1 -threads:v 1 -pix_fmt rgba -f rawvideo pipe:1"
    );
    assert_eq!(extract(true, vec![7; 8], 2, 1), Ok(vec![7; 8]));
    assert_eq!(extract(true, vec![7; 7], 2, 1).unwrap_err(), "invalid thumbnail size");
    assert_eq!(
        extract(false, vec![7; 8], 2, 1).unwrap_err(),
        "video thumbnail decoding failed"
    );
    assert!(legacy_size(5, 5).is_ok());
    assert_eq!(legacy_size(6, 5).unwrap_err(), "thumbnail PNG is too large");
}

fn snapshot(state: PublicRecordingState) -> TraySnapshot {
    TraySnapshot {
        prefs: RecordingPrefs {
            default_target: RecordDefaultTarget::Output("DP-3".into()),
            both_mode: RecordBothMode::Combined,
            show_frame: false,
            disk_add_to_shelf: true,
            ..RecordingPrefs::default()
        },
        monitors: vec![
            Monitor {
                name: "DP-3".into(),
                description: "BenQ".into(),
                x: 0,
                y: 0,
                width: 2560,
                height: 1440,
                scale: Scale { numerator: 1, denominator: 1 },
                focused: true,
            },
            Monitor {
                name: "DP-1".into(),
                description: "AOC".into(),
                x: 2560,
                y: 0,
                width: 1920,
                height: 1080,
                scale: Scale { numerator: 1, denominator: 1 },
                focused: false,
            },
        ],
        state,
    }
}

#[test]
fn tray_menu_exposes_outputs_modes_and_checkmarks() {
    let model = menu_model(&snapshot(PublicRecordingState::Idle));
    assert!(model.start_region_enabled);
    assert!(model.start_default_enabled);
    assert_eq!(model.default_labels, vec!["BenQ (DP-3)", "AOC (DP-1)", "Both displays"]);
    assert_eq!(model.default_selected, 0);
    assert_eq!(model.both_mode_selected, 1);
    assert!(!model.show_frame);
    assert!(model.disk_add_to_shelf);
    assert!(model.settings_enabled);
}

#[test]
fn menu_model_selects_microphone_audio_source() {
    let mut snapshot = snapshot(PublicRecordingState::Idle);
    snapshot.prefs.audio_source = RecordAudioSource::Mic;
    let model = menu_model(&snapshot);
    assert_eq!(model.audio_source_selected, 1);
    assert_eq!(
        audio_source_labels(),
        ["System + microphone", "Microphone only", "System only"]
    );
}

#[test]
fn monitor_label_does_not_duplicate_an_embedded_connector() {
    let monitor = Monitor {
        name: "DP-1".into(),
        description: "AOC 27G4HRE (DP-1)".into(),
        x: 0,
        y: 0,
        width: 1920,
        height: 1080,
        scale: Scale { numerator: 1, denominator: 1 },
        focused: true,
    };
    assert_eq!(monitor_label(&monitor), "AOC 27G4HRE (DP-1)");
    assert_eq!(monitor_label(&Monitor { description: "  ".into(), ..monitor.clone() }), "DP-1");
    assert_eq!(monitor_label(&Monitor { description: "DP-1".into(), ..monitor }), "DP-1");
}

#[test]
fn tray_start_entries_are_disabled_while_recording_but_settings_remain() {
    let model = menu_model(&snapshot(PublicRecordingState::Recording));
    assert!(!model.start_region_enabled);
    assert!(!model.start_default_enabled);
    assert_eq!(model.default_selected, 0);
    assert_eq!(model.both_mode_selected, 1);
    assert!(!model.show_frame);
    assert!(model.disk_add_to_shelf);
    assert!(model.settings_enabled);
}

#[test]
fn disconnected_default_marks_the_effective_focused_fallback() {
    let mut snapshot = snapshot(PublicRecordingState::Idle);
    snapshot.prefs.default_target = RecordDefaultTarget::Output("DP-GONE".into());
    snapshot.monitors[0].focused = false;
    snapshot.monitors[1].focused = true;
    assert_eq!(menu_model(&snapshot).default_selected, 1);
}

#[test]
fn tray_publisher_mailbox_keeps_only_the_latest_snapshot() {
    let mut latest = LatestValue::new();
    latest.replace(TraySnapshot {
        state: PublicRecordingState::Recording,
        ..snapshot(PublicRecordingState::Idle)
    });
    latest.replace(TraySnapshot {
        state: PublicRecordingState::Paused,
        ..snapshot(PublicRecordingState::Idle)
    });
    assert_eq!(latest.take().unwrap().state, PublicRecordingState::Paused);
    assert!(latest.take().is_none());
}

#[test]
fn an_option_that_is_selected_is_marked() {
    let mut tray = BoltsnapTray::new(snapshot(PublicRecordingState::Idle));
    match tray.select(TrayChoice::DefaultMonitor, 1) {
        TrayAction::SetDefaultTarget(target) => {
            assert_eq!(target, RecordDefaultTarget::Output("DP-1".into()));
        }
        other => panic!("{other:?}"),
    }
    assert_eq!(menu_model(&tray.snapshot).default_selected, 1);
    assert!(matches!(
        tray.select(TrayChoice::DefaultMonitor, 2),
        TrayAction::SetDefaultTarget(RecordDefaultTarget::Both)
    ));
    assert!(matches!(
        tray.select(TrayChoice::BothMode, 0),
        TrayAction::SetBothMode(RecordBothMode::Separate)
    ));
    assert!(matches!(
        tray.select(TrayChoice::AudioSource, 2),
        TrayAction::SetAudioSource(RecordAudioSource::System)
    ));
    assert_eq!(audio_source_at(9), RecordAudioSource::SystemAndMic);
    let menu = tray.menu();
    assert_eq!(menu.len(), 7);
    match &menu[2] {
        MenuItem::Options { label, selected, options, .. } => {
            assert_eq!((label.as_str(), *selected, options.len()), ("Default monitor", 2, 3));
        }
        other => panic!("{other:?}"),
    }
}

#[test]
fn a_check_mark_goes_back_and_forth() {
    let mut tray = BoltsnapTray::new(snapshot(PublicRecordingState::Idle));
    assert!(matches!(
        tray.activate(TrayCommand::ToggleShowFrame),
        TrayAction::SetShowFrame(true)
    ));
    assert!(matches!(
        tray.activate(TrayCommand::ToggleShowFrame),
        TrayAction::SetShowFrame(false)
    ));
    assert!(matches!(
        tray.activate(TrayCommand::ToggleDiskAddToShelf),
        TrayAction::SetDiskAddToShelf(false)
    ));
    assert!(matches!(tray.activate(TrayCommand::StartRegion), TrayAction::StartRegion));
    assert!(matches!(tray.activate(TrayCommand::StartDefault), TrayAction::StartDefault));
    tray.set_snapshot(snapshot(PublicRecordingState::Paused));
    assert_eq!(tray.snapshot.state, PublicRecordingState::Paused);
}

#[test]
fn an_icon_has_its_opacity_first() {
    let image = Image { width: 2, height: 1, pixels: vec![Rgb { r: 1, g: 2, b: 3 }; 2] };
    let icon = tray_icon(&write_png(&image).unwrap()).unwrap();
    assert_eq!((icon.width, icon.height), (2, 1));
    assert_eq!(icon.data, vec![255, 1, 2, 3, 255, 1, 2, 3]);
    assert!(tray_icon(b"nothing").is_none());
}

fn metadata(width: u32, height: u32) -> Metadata {
    Metadata::new(width, height, "area".into(), None, false, None).unwrap()
}

#[test]
fn metadata_rejects_overflow_stride_and_oversize() {
    let m = metadata(8, 7);
    let value = || parse_json(&m.header()).unwrap();
    assert_eq!(Metadata::parse(&value()).unwrap().len, 168);
    for (key, v) in [
        ("width", Document::Unsigned(0)),
        ("width", Document::Unsigned(u64::MAX)),
        ("height", Document::Unsigned(u32::MAX as u64)),
        ("stride", Document::Unsigned(25)),
        ("length", Document::Unsigned(169)),
        ("copy", Document::Unsigned(0)),
        ("format", Document::text("RGBA8")),
    ] {
        let bad = value().with(key, v);
        assert!(Metadata::parse(&bad).is_err(), "{key}");
    }
}

#[test]
fn an_offer_is_read_as_it_was_made() {
    let made = Metadata::new(3, 2, "area".into(), Some("DP-1".into()), true, Some(9)).unwrap();
    assert_eq!(Metadata::parse(&parse_json(&made.header()).unwrap()).unwrap(), made);
    let message = |m: Result<Metadata, boltsnap::protocol::WireError>| m.unwrap_err().message;
    assert_eq!(
        message(Metadata::new(0, 2, "a".into(), None, false, None)),
        "RGB image exceeds the 64 Mi-pixel limit or is empty"
    );
    assert_eq!(
        message(Metadata::new(8193, 8192, "a".into(), None, false, None)),
        "RGB image exceeds the 64 Mi-pixel limit or is empty"
    );
    assert!(Metadata::new(8192, 8192, "a".into(), None, false, None).is_ok());
    assert_eq!(
        message(Metadata::new(1, 1, "a".repeat(129), None, false, None)),
        "image metadata is too long"
    );
    assert_eq!(
        message(Metadata::new(1, 1, "a".into(), Some("b".repeat(257)), false, None)),
        "image metadata is too long"
    );
    let value = || parse_json(&made.header()).unwrap();
    for (key, text) in [
        ("source", "invalid source"),
        ("output", "invalid output"),
        ("copy", "invalid copy"),
        ("width", "invalid width"),
        ("height", "invalid height"),
        ("stride", "invalid stride"),
        ("length", "invalid length"),
        ("trace", "invalid trace ID"),
        ("cmd", "unsupported pixel format"),
    ] {
        let bad = value().with(key, Document::Signed(-1));
        assert_eq!(message(Metadata::parse(&bad)), text, "{key}");
    }
    assert_eq!(
        message(Metadata::parse(&value().with("width", Document::Unsigned(1 << 32)))),
        "width overflow"
    );
}

#[test]
fn pixels_come_with_one_descriptor() {
    assert!(receive_fd(1, MARKER, false, 1).is_ok());
    for count in [0, 2, 16] {
        assert_eq!(
            receive_fd(1, MARKER, false, count).unwrap_err().message,
            "expected one complete pixel FD"
        );
    }
    assert!(receive_fd(0, MARKER, false, 1).is_err());
    assert!(receive_fd(1, b'Q', false, 1).is_err());
    assert!(receive_fd(1, MARKER, true, 1).is_err());
    assert!(same_user(12, 12, 1000, 1000).is_ok());
    let refused = same_user(12, 12, 1000, 0).unwrap_err();
    assert_eq!(refused.kind, ErrorKind::PermissionDenied);
    assert_eq!(refused.message, "pixel peer must have the same UID");
    assert!(same_user(8, 12, 1000, 1000).is_err());
}

#[test]
fn only_a_sealed_file_of_the_right_size_is_mapped() {
    assert!(check_seals(SEALS).is_ok());
    assert_eq!(check_seals(0).unwrap_err().message, "pixel FD must be fully sealed");
    assert_eq!(check_seals(-1).unwrap_err().kind, ErrorKind::InvalidData);
    assert!(check_file(true, 3, 3).is_ok());
    assert_eq!(check_file(true, 3, 4).unwrap_err().message, "pixel FD size or type mismatch");
    assert!(check_file(false, 3, 3).is_err());
    assert!(check_length(1).is_ok());
    assert!(check_length(MAX_PAYLOAD_BYTES).is_ok());
    assert_eq!(check_length(0).unwrap_err().message, "invalid mapping length");
    assert!(check_length(MAX_PAYLOAD_BYTES + 1).is_err());
}

#[test]
fn future_write_seal_is_not_an_immutable_image() {
    assert_eq!(
        SEALS,
        libc::F_SEAL_WRITE | libc::F_SEAL_SHRINK | libc::F_SEAL_GROW | libc::F_SEAL_SEAL
    );
    assert!(
        check_seals(
            libc::F_SEAL_FUTURE_WRITE
                | libc::F_SEAL_SHRINK
                | libc::F_SEAL_GROW
                | libc::F_SEAL_SEAL
        )
        .is_err()
    );
}

#[test]
fn legacy_eof_falls_back_but_lost_ack_does_not() {
    for ready in [false, true] {
        let mut sent: Vec<u8> = Vec::new();
        if ready {
            let header = format!("{{\"ready\":\"{COMMAND}\"}}");
            write_frame(&mut sent, header.as_bytes(), &[]).unwrap();
        }
        let result = offered(read_frame(&sent));
        if ready {
            assert_eq!(result, Ok(true));
            let lost = acknowledged(Response::read(&[]));
            assert!(lost.unwrap_err().message.contains("may have been accepted"));
        } else {
            assert!(!result.unwrap());
        }
    }
}

#[test]
fn a_picture_that_the_shelf_refuses_is_not_sent_again() {
    let refused = |text: &str| {
        let mut frame: Vec<u8> = Vec::new();
        write_frame(&mut frame, text.as_bytes(), &[]).unwrap();
        offered(read_frame(&frame)).unwrap_err().message
    };
    assert_eq!(refused("{\"error\":\"full\"}"), "full");
    assert_eq!(refused("{\"ready\":\"other\"}"), "invalid pixel READY response");
    assert!(!refused("nothing").is_empty());
    assert_eq!(acknowledged(Ok(Response::ok(None))), Ok(true));
    assert_eq!(acknowledged(Ok(Response::error("full"))).unwrap_err().message, "full");
    let silent = Response { ok: false, error: None, snapshot: None, path: None };
    assert_eq!(acknowledged(Ok(silent)).unwrap_err().message, "shelf rejected image");
    assert_eq!(
        send_error("gone").message,
        "pixel transfer failed; acceptance uncertain, do not retry automatically: gone"
    );
}

#[test]
fn hyprland_is_asked_over_its_socket() {
    let running = environment(&[
        ("XDG_RUNTIME_DIR", "/run/user/1"),
        ("HYPRLAND_INSTANCE_SIGNATURE", "abc"),
    ]);
    assert_eq!(socket_path(&running).as_deref(), Some("/run/user/1/hypr/abc/.socket.sock"));
    assert_eq!(socket_path(&environment(&[("XDG_RUNTIME_DIR", "/run/user/1")])), None);
    assert_eq!(json_request("monitors"), "j/monitors");
    assert_eq!(json(true, Some(b"a".to_vec()), None), Some(b"a".to_vec()));
    assert_eq!(json(true, Some(Vec::new()), Some((true, b"b".to_vec()))), Some(b"b".to_vec()));
    assert_eq!(json(true, None, Some((false, b"b".to_vec()))), None);
    assert_eq!(json(false, Some(b"a".to_vec()), None), None);
}

#[test]
fn a_picture_is_added_once() {
    let failed = |kind, message: &str| WireError { kind, message: message.into() };
    let ready = |text: &str| {
        let mut frame = Vec::new();
        write_frame(&mut frame, text.as_bytes(), &[]).unwrap();
        TransferEvent::Answer(read_frame(&frame))
    };
    let end = |at: Transfer, event| match at.step(event) {
        TransferStep::End(result) => result,
        TransferStep::Next(at) => panic!("goes on at {at:?}"),
    };
    let next = |at: Transfer, event| match at.step(event) {
        TransferStep::Next(at) => at,
        TransferStep::End(result) => panic!("ends with {result:?}"),
    };
    let closed = || failed(ErrorKind::UnexpectedEof, "closed");
    // An older shelf closes the connection over the offer.
    assert_eq!(end(Transfer::Offered, TransferEvent::Answer(Err(closed()))), Ok(false));
    assert!(end(Transfer::Offered, ready("{}")).is_err());
    let at = next(Transfer::Offered, ready("{\"ready\":\"add_pixels_v1\"}"));
    assert_eq!(at, Transfer::Ready);
    // From then on nothing lets the picture be added in another way.
    assert_eq!(end(at, TransferEvent::Failed(closed())).unwrap_err().message, "closed");
    assert_eq!(
        end(at, TransferEvent::Sent(Err("gone".into()))).unwrap_err().message,
        "pixel transfer failed; acceptance uncertain, do not retry automatically: gone"
    );
    assert_eq!(next(at, TransferEvent::Answer(Err(closed()))), Transfer::Ready);
    let at = next(at, TransferEvent::Sent(Ok(())));
    assert_eq!(at, Transfer::Sent);
    assert_eq!(
        end(at, TransferEvent::Acknowledged(Err(closed()))).unwrap_err().message,
        "shelf ACK lost; image may have been accepted, do not retry automatically: closed"
    );
    assert_eq!(end(at, TransferEvent::Acknowledged(Ok(Response::ok(None)))), Ok(true));
}

#[test]
fn hyprland_names_the_focused_output() {
    let name = |text: &str| focused_name(&parse_json(text.as_bytes()).unwrap());
    assert_eq!(
        name("[{\"name\":\"A\",\"focused\":false},{\"name\":\"B\",\"focused\":true}]").as_deref(),
        Some("B")
    );
    assert_eq!(name("[{\"name\":\"A\"}]"), None);
    assert_eq!(name("[{\"focused\":true},{\"name\":\"B\",\"focused\":true}]"), None);
    assert_eq!(name("{}"), None);
}
