use boltsnap::cli::{
    checked_recording_response, decide_post_capture, detect_backend, is_legacy_recording_status_eof,
    is_stdout_target, parse_args, plan, record_step, recording_command, recording_state_from_status,
    report_capture, selection_request, take_switches, usage, Args, Backend, CaptureMode, Plan,
    PostCapture, RecordSelection, RecordStep, RecordingCommand, Stop,
};
use boltsnap::config::RecordingPrefs;
use boltsnap::paths::{
    boltsnap_filename_ext, cache_dir, capture_path, command_candidates, default_save_path,
    edit_output_path, ensure_file, is_orphan_shelf_temp, last_pointer_path, last_screenshot_path,
    local_timestamp, normalize_path, target_path, temp_file, temp_png, Environment,
};
use boltsnap::protocol::{
    ErrorKind, PublicRecordingState, RecordingAction, RecordingSnapshot, Request, Response,
    WireError,
};

fn words(words: &[&str]) -> Vec<String> {
    words.iter().map(|word| word.to_string()).collect()
}

fn parsed(line: &[&str]) -> Args {
    parse_args(&words(line)).unwrap()
}

fn environment(vars: &[(&str, &str)]) -> Environment {
    Environment {
        vars: vars.iter().map(|(name, value)| (name.to_string(), value.to_string())).collect(),
        home_dir: "/home/bolt".into(),
        config_dir: "/home/bolt/.config/boltsnap".into(),
        screenshot_dir: "/home/bolt/Pictures".into(),
        temp_dir: "/tmp".into(),
        current_dir: "/work".into(),
    }
}

fn failed(kind: ErrorKind, message: &str) -> WireError {
    WireError { kind, message: message.into() }
}

#[test]
fn legacy_recording_status_fallback_accepts_only_eof() {
    assert!(is_legacy_recording_status_eof(&failed(
        ErrorKind::UnexpectedEof,
        "old daemon closed the connection",
    )));
    assert!(!is_legacy_recording_status_eof(&failed(ErrorKind::TimedOut, "daemon stalled")));
    assert!(!is_legacy_recording_status_eof(&failed(
        ErrorKind::InvalidData,
        "malformed response",
    )));
}

#[test]
fn successful_recording_status_requires_snapshot() {
    let error = recording_state_from_status(Response::ok(None)).unwrap_err();
    assert_eq!(error, "daemon returned no recording status");

    let state =
        recording_state_from_status(Response::ok(Some(RecordingSnapshot::idle()))).unwrap();
    assert_eq!(state, PublicRecordingState::Idle);
}

#[test]
fn a_failed_status_is_told_in_the_daemons_words() {
    assert_eq!(recording_state_from_status(Response::error("no")).unwrap_err(), "no");
    let silent = Response { ok: false, error: None, snapshot: None, path: None };
    assert_eq!(recording_state_from_status(silent).unwrap_err(), "recording status failed");
}

#[test]
fn parser_recording_cli_forms() {
    for action in ["show-controls", "pause", "resume", "save-shelf", "save-disk", "discard"] {
        let args = parsed(&["boltsnap", "recording", action]);
        assert_eq!(args.command, "recording");
        assert_eq!(args.tail, [action]);
        assert!(!args.json);
    }
}

#[test]
fn parser_recording_status_and_watch_require_json_flag_data() {
    for action in ["status", "watch"] {
        let args = parsed(&["boltsnap", "recording", action, "--json"]);
        assert_eq!(args.tail, [action]);
        assert!(args.json);
    }
}

#[test]
fn parser_defaults_to_area_copy() {
    let args = parsed(&["boltsnap"]);
    assert_eq!(args.command, "area");
    assert!(!args.command_explicit);
    assert!(args.copy);
}

#[test]
fn parser_edit_without_command_means_edit_last() {
    let args = parsed(&["boltsnap", "--edit"]);
    assert!(args.edit);
    assert!(!args.command_explicit);
    assert_eq!(args.command, "area");
    assert_eq!(plan(&args, false), Ok(Plan::EditLast));
}

#[test]
fn parser_handles_window_modes() {
    let args = parsed(&["boltsnap", "window", "--edit"]);
    assert_eq!(CaptureMode::parse(&args.command).unwrap(), CaptureMode::Window);
    assert!(args.edit);
    assert_eq!(CaptureMode::parse("active-window").unwrap(), CaptureMode::ActiveWindow);
    assert_eq!(CaptureMode::parse("select").unwrap(), CaptureMode::Area);
}

#[test]
fn parser_handles_edit_output_no_copy() {
    let args = parsed(&["boltsnap", "edit", "a.png", "--no-copy", "-o", "b.png"]);
    assert_eq!(args.command, "edit");
    assert_eq!(args.image.unwrap(), "a.png");
    assert!(!args.copy);
    assert_eq!(args.output.unwrap(), "b.png");
}

#[test]
fn parser_handles_instant_flag() {
    assert!(parsed(&["boltsnap", "area", "--instant"]).instant);
    assert!(!parsed(&["boltsnap", "area"]).instant);
}

#[test]
fn parser_refuses_what_it_does_not_know() {
    assert_eq!(parse_args(&words(&["boltsnap", "--help"])).unwrap_err(), Stop::Help);
    assert!(matches!(
        parse_args(&words(&["boltsnap", "--nonsense"])).unwrap_err(),
        Stop::Invalid(_)
    ));
    assert!(matches!(parse_args(&words(&["boltsnap", "-o"])).unwrap_err(), Stop::Invalid(_)));
    assert!(matches!(
        parse_args(&words(&["boltsnap", "--backend", "beos"])).unwrap_err(),
        Stop::Invalid(_)
    ));
    assert!(!usage().is_empty());
}

#[test]
fn a_command_is_named_in_capital_or_small_letters() {
    assert_eq!(parsed(&["boltsnap", "FullScreen"]).command, "fullscreen");
    assert_eq!(parsed(&["boltsnap", "--copy", "AREA"]).command, "area");
    assert_eq!(parsed(&["boltsnap", "\u{c4}REA"]).command, "\u{e4}rea");
}

#[test]
fn filename_ext_uses_given_extension() {
    assert_eq!(
        boltsnap_filename_ext("2026-06-01_14-23-05", "mp4"),
        "boltsnap-2026-06-01_14-23-05.mp4"
    );
    assert_eq!(
        boltsnap_filename_ext("2026-06-01_14-23-05", "png"),
        "boltsnap-2026-06-01_14-23-05.png"
    );
}

#[test]
fn every_command_has_a_plan() {
    for (line, expected) in [
        (&["boltsnap", "doctor"][..], Plan::Doctor),
        (&["boltsnap", "self-test"], Plan::SelfTest),
        (&["boltsnap", "record"], Plan::Record),
        (&["boltsnap", "stop"], Plan::Control(RecordingAction::SaveShelf)),
        (&["boltsnap", "daemon"], Plan::Daemon { save_dir: None }),
        (
            &["boltsnap", "recording", "status", "--json"],
            Plan::Recording(RecordingCommand::Status),
        ),
        (
            &["boltsnap", "__debug-render"],
            Plan::DebugRender("/tmp/boltsnap-debug-render.png".into()),
        ),
        (&["boltsnap", "__serve-clipboard", "a"], Plan::ServeClipboard("a".into())),
        (&["boltsnap", "__serve-clipboard-uri", "a"], Plan::ServeClipboardUri("a".into())),
        (&["boltsnap", "edit"], Plan::Edit { image: None }),
        (&["boltsnap", "full"], Plan::Capture(CaptureMode::Full)),
    ] {
        assert_eq!(plan(&parsed(line), false), Ok(expected));
    }
    let install = parsed(&["boltsnap", "__install-autostart"]);
    assert_eq!(plan(&install, true), Ok(Plan::InstallAutostart));
    assert!(plan(&install, false).is_err());
    assert_eq!(
        plan(&parsed(&["boltsnap", "__serve-clipboard"]), false),
        Err("__serve-clipboard needs a PNG path".into())
    );
    assert_eq!(
        plan(&parsed(&["boltsnap", "__serve-clipboard-uri"]), false),
        Err("__serve-clipboard-uri needs a path".into())
    );
    assert!(plan(&parsed(&["boltsnap", "juggle"]), false).is_err());
}

#[test]
fn recording_words_want_json_only_where_it_is_printed() {
    assert_eq!(
        recording_command(&words(&["watch"]), true),
        Ok(RecordingCommand::Watch)
    );
    assert_eq!(
        recording_command(&words(&["discard"]), false),
        Ok(RecordingCommand::Control(RecordingAction::Discard))
    );
    for (tail, json) in [
        (&["status"][..], false),
        (&["pause"], true),
        (&[], false),
        (&["pause", "now"], false),
    ] {
        let error = recording_command(&words(tail), json).unwrap_err();
        assert!(error.starts_with("invalid recording command\n"));
    }
}

#[test]
fn a_screenshot_goes_where_the_flags_say() {
    let shot = |line: &[&str], backend| decide_post_capture(&parsed(line), backend);
    assert_eq!(shot(&["boltsnap", "-o", "-"], Backend::Wayland), PostCapture::Stdout);
    assert!(is_stdout_target(&parsed(&["boltsnap", "-o", "-"])));
    assert_eq!(shot(&["boltsnap", "area", "--edit"], Backend::X11), PostCapture::Edit);
    assert_eq!(
        shot(&["boltsnap", "-o", "a.png"], Backend::X11),
        PostCapture::File { copy: true }
    );
    assert_eq!(
        shot(&["boltsnap", "--no-copy", "-o", "a.png"], Backend::X11),
        PostCapture::File { copy: false }
    );
    assert_eq!(shot(&["boltsnap"], Backend::Wayland), PostCapture::Shelf { copy: false });
    assert_eq!(shot(&["boltsnap"], Backend::X11), PostCapture::CopyOnly);
    assert_eq!(
        report_capture(PostCapture::CopyOnly, CaptureMode::Full, Backend::X11, "/a.png"),
        "Boltsnap copied full via x11: /a.png"
    );
    assert_eq!(
        report_capture(
            PostCapture::Shelf { copy: true },
            CaptureMode::Area,
            Backend::Wayland,
            "/a.png"
        ),
        "Boltsnap sent area to shelf (copied)"
    );
}

#[test]
fn a_recording_in_progress_shows_its_controls() {
    let answer = |state| {
        Ok(Response::ok(Some(RecordingSnapshot { state, ..RecordingSnapshot::idle() })))
    };
    assert_eq!(
        record_step(answer(PublicRecordingState::Paused), true, None),
        Ok(RecordStep::ShowControls)
    );
    assert!(record_step(answer(PublicRecordingState::Idle), true, None)
        .unwrap_err()
        .starts_with("wf-recorder not found"));
    assert_eq!(
        record_step(answer(PublicRecordingState::Idle), false, Some("screen")),
        Ok(RecordStep::StartDefault)
    );
    assert_eq!(
        record_step(answer(PublicRecordingState::Idle), false, Some("area")),
        Ok(RecordStep::Select)
    );
    assert_eq!(
        record_step(Err(failed(ErrorKind::UnexpectedEof, "closed")), false, None),
        Ok(RecordStep::Select)
    );
    assert_eq!(
        record_step(Err(failed(ErrorKind::TimedOut, "late")), false, None),
        Err("recording daemon unavailable: late".into())
    );
}

#[test]
fn answers_are_checked() {
    assert!(checked_recording_response(Ok(Response::ok(None))).is_ok());
    assert_eq!(checked_recording_response(Ok(Response::error("busy"))).unwrap_err(), "busy");
    let silent = Response { ok: false, error: None, snapshot: None, path: None };
    assert_eq!(checked_recording_response(Ok(silent)).unwrap_err(), "recording command failed");
    assert_eq!(
        checked_recording_response(Err(failed(ErrorKind::Other, "gone"))).unwrap_err(),
        "recording daemon unavailable: gone"
    );
}

#[test]
fn a_selection_changes_the_switches_and_asks_for_its_area() {
    let mut prefs = RecordingPrefs::default();
    let selection = RecordSelection {
        area: Some((-5, 6, 7, 8)),
        show_frame: false,
        audio_enabled: true,
    };
    assert!(take_switches(&mut prefs, &selection));
    assert!(!prefs.show_frame);
    assert!(!take_switches(&mut prefs, &selection));
    assert!(matches!(
        selection_request(&selection),
        Some(Request::StartRecording {
            x: -5,
            y: 6,
            w: 7,
            h: 8,
            show_frame: false,
            audio_enabled: true
        })
    ));
    let cancelled = RecordSelection { area: None, ..selection };
    assert!(selection_request(&cancelled).is_none());
}

#[test]
fn the_session_tells_the_backend() {
    let found = |vars: &[(&str, &str)]| detect_backend(&environment(vars));
    assert_eq!(found(&[("XDG_SESSION_TYPE", "Wayland")]), Ok(Backend::Wayland));
    assert_eq!(found(&[("WAYLAND_DISPLAY", "wayland-1")]), Ok(Backend::Wayland));
    assert_eq!(found(&[("XDG_SESSION_TYPE", "x11")]), Ok(Backend::X11));
    assert_eq!(found(&[("DISPLAY", ":0")]), Ok(Backend::X11));
    assert!(found(&[]).is_err());
    assert_eq!(Backend::Wayland.resolved(&environment(&[])), Ok(Backend::Wayland));
    assert_eq!(Backend::parse("x11"), Ok(Backend::X11));
    assert!(Backend::parse("beos").is_err());
}

#[test]
fn paths_follow_the_environment() {
    let plain = environment(&[]);
    let cached = environment(&[("XDG_CACHE_HOME", "/cache")]);
    assert_eq!(cache_dir(&cached), "/cache/boltsnap");
    assert_eq!(cache_dir(&environment(&[("HOME", "/h")])), "/h/.cache/boltsnap");
    assert_eq!(last_pointer_path(&cached), "/cache/boltsnap/last.txt");
    assert_eq!(normalize_path("a.png", &plain), "/work/a.png");
    assert_eq!(normalize_path("/a.png", &plain), "/a.png");
    assert_eq!(
        target_path(&parsed(&["boltsnap", "-o", "a.png"]), &plain, 7),
        "/work/a.png"
    );
    assert_eq!(target_path(&parsed(&["boltsnap"]), &cached, 7), "/cache/boltsnap/last.png");
    assert_eq!(
        edit_output_path(&parsed(&["boltsnap"]), &cached, 7),
        Some("/cache/boltsnap/last-edited.png".into())
    );
    assert!(default_save_path(&plain, 7).ends_with("7.png"));
    assert!(ensure_file("/a", true).is_ok());
    assert_eq!(ensure_file("/a", false), Err("file not found: /a".into()));
}

#[test]
fn temporary_files_are_told_by_their_names() {
    let plain = environment(&[]);
    assert_eq!(temp_png("shot", &plain, 12, 34), temp_file("shot", "png", &plain, 12, 34));
    let shelf = temp_file("shelf", "png", &plain, 12, 34);
    let name = shelf.strip_prefix("/tmp/").unwrap();
    assert!(is_orphan_shelf_temp(name));
    assert!(!is_orphan_shelf_temp("other.png"));
}

#[test]
fn the_time_is_that_of_the_clock_or_a_number() {
    assert_eq!(local_timestamp(Some("2026-06-01_14-23-05\n"), 9), "2026-06-01_14-23-05");
    assert_eq!(local_timestamp(Some("\n"), 9), "9");
    assert_eq!(local_timestamp(None, 9), "9");
}

#[test]
fn the_last_screenshot_is_the_one_that_is_named() {
    let cached = environment(&[("XDG_CACHE_HOME", "/cache")]);
    assert_eq!(
        last_screenshot_path(Some("/a.png\n"), true, false, &cached),
        Ok("/a.png".into())
    );
    assert_eq!(
        last_screenshot_path(Some("/a.png"), false, true, &cached),
        Ok("/cache/boltsnap/last.png".into())
    );
    assert!(last_screenshot_path(None, false, false, &cached).is_err());
}

#[test]
fn a_program_is_looked_for_in_each_directory() {
    assert_eq!(
        command_candidates("/usr/bin:/bin/", "ffmpeg"),
        ["/usr/bin/ffmpeg", "/bin/ffmpeg"]
    );
}

#[test]
fn a_picture_for_the_editor_leaves_the_output_alone() {
    let environment = Environment {
        vars: vec![("XDG_CACHE_HOME".into(), "/cache".into())],
        home_dir: "/home/bolt".into(),
        config_dir: "/home/bolt/.config/boltsnap".into(),
        screenshot_dir: "/home/bolt/Pictures/Screenshots".into(),
        temp_dir: "/tmp".into(),
        current_dir: "/work".into(),
    };
    let path = |words: &[&str]| {
        let words: Vec<String> = words.iter().map(|word| word.to_string()).collect();
        capture_path(&parse_args(&words).unwrap(), &environment, 5, 7)
    };
    assert_eq!(path(&["boltsnap", "area", "-o", "/a.png"]), "/a.png");
    assert_eq!(path(&["boltsnap", "area"]), "/cache/boltsnap/last.png");
    for words in [
        &["boltsnap", "area", "-o", "/a.png", "--edit"][..],
        &["boltsnap", "area", "--save", "--edit"],
    ] {
        assert_eq!(path(words), "/tmp/boltsnap-shot-5-7.png");
    }
}
