use boltsnap::config::{RecordDefaultTarget, Settings};
use boltsnap::document::Document;
use boltsnap::json::{parse_json, print_json};
use boltsnap::linux::replay::client::{
    cli, granted, notification, preview_target, request, timeout, FrozenSelection, USAGE,
};
use boltsnap::linux::replay::crop::{
    check_encoder, check_encoder_args, crop_args, deadline, preview, preview_args, saved,
    with_extension, Copied, Crop,
};
use boltsnap::linux::replay::export::{
    check_output, export_error, interleave, nonempty, partial_path, reserve, shifted, Attempt,
    Created, LimitedFile, Source, NAME_ATTEMPTS,
};
use boltsnap::linux::replay::live::{
    answer, bytes_document, saved_answer, Decision, Live, SaveSource, Span, SELECTION_EXPIRES,
    STALLED_AFTER,
};
use boltsnap::linux::replay::packet::{
    check_streams, counted, dimensions, frame_rate, lasting, packet_read, Medium, PacketTimes,
    MAX_SIDE,
};
use boltsnap::linux::replay::process::{
    bounded, finished, terminate, watch as watch_process, Ending, Next, Seen, PATIENCE,
};
use boltsnap::linux::replay::service::{
    clip_path, companion_path, hand_on, is_capturing, undelivered, watch, Admission, Connections,
    Control, Route, Session, Watchdog, Watched, MAX_ACTIVE,
};
use boltsnap::linux::replay::socket::{address, configure};
use boltsnap::linux::replay::start::{
    capture_args, capture_codec, choose_encoder, choose_output, clip_limit, encoder_candidates,
    encoders_in, listed_encoders, worker_args, worker_name, Asked, Look, Trial, Wait,
};
use boltsnap::linux::replay::worker::{
    capabilities, command, live_directory, share, WorkerCommand, USAGE as WORKER_USAGE,
};
use boltsnap::picture::write_png;
use boltsnap::pixels::{Image, Rgb};
use boltsnap::protocol::ErrorKind;
use boltsnap::record::{Monitor, Scale};

fn words(words: &[&str]) -> Vec<String> {
    words.iter().map(|word| word.to_string()).collect()
}

fn document(text: &str) -> Document {
    parse_json(text.as_bytes()).unwrap()
}

/// A document as a text.
fn text(document: Document) -> String {
    print_json(document)
}

fn decide(live: &mut Live<&'static str>, name: &str, body: &str, now: u64) -> Decision {
    live.decide(name, &document(body), now, Some((1_000, 5_000)), "h264_vaapi", 60)
}

#[test]
fn a_replay_tells_how_it_is() {
    let mut live: Live<&'static str> = Live::new(10);
    match decide(&mut live, "status", "{}", 10) {
        Decision::Answer(Ok(status)) => assert_eq!(
            text(status),
            r#"{"busy":false,"duration_us":4000,"encoder":"h264_vaapi","error":null,"ready":true,"seconds":60}"#
        ),
        _ => panic!("no answer"),
    }
    match decide(&mut live, "status", "{}", 10 + STALLED_AFTER) {
        Decision::Answer(Ok(status)) => assert_eq!(status.bool_at("ready"), Some(false)),
        _ => panic!("no answer"),
    }
    assert!(Live::<&'static str>::known_stream(1, 2).is_ok());
    assert_eq!(
        Live::<&'static str>::known_stream(2, 2).unwrap_err(),
        "unknown input stream"
    );
    live.received(false, 50);
    assert_eq!(live.updated, 10);
    live.received(true, 50);
    assert_eq!(live.updated, 50);
    assert!(live.usable(50, true).is_ok());
    assert_eq!(live.usable(50, false).unwrap_err(), "replay is warming up");
    assert_eq!(
        live.usable(51 + STALLED_AFTER, true).unwrap_err(),
        "replay input is stalled"
    );
    live.ended("capture ended".into());
    assert_eq!(live.usable(50, true).unwrap_err(), "capture ended");
}

#[test]
fn a_selection_is_held_until_it_is_used() {
    let mut live: Live<&'static str> = Live::new(0);
    assert!(matches!(decide(&mut live, "freeze", "{}", 0), Decision::Freeze));
    assert_eq!(live.freeze(Ok("recording"), 5), Ok(1));
    assert!(live.busy);
    match decide(&mut live, "save", "{}", 5) {
        Decision::Answer(Err(message)) => {
            assert_eq!(message, "another replay selection or export is active");
        }
        _ => panic!("saved"),
    }
    let span = Span { width: 8, height: 6, start: 1_000, end: 5_000 };
    let shown = live.previewed(1, Ok(77), span).unwrap();
    assert_eq!(
        text(shown),
        r#"{"duration_us":4000,"end_us":5000,"height":6,"ok":true,"preview_bytes":77,"snapshot":1,"start_us":1000,"width":8}"#
    );
    assert!(!live.busy);
    match decide(&mut live, "freeze", "{}", 5) {
        Decision::Answer(Err(_)) => {}
        _ => panic!("frozen twice"),
    }
    assert!(matches!(
        live.save_source(&document("{}"), 5, true),
        SaveSource::Refused(message) if message == "a replay selection is already open"
    ));
    assert!(matches!(
        live.save_source(&document("{\"snapshot\":1}"), 5, false),
        SaveSource::Frozen("recording")
    ));
    assert!(matches!(
        live.save_source(&document("{\"snapshot\":1}"), 5, true),
        SaveSource::Refused(message) if message == "replay selection expired; open the selector again"
    ));
    assert!(matches!(live.save_source(&document("{}"), 5, true), SaveSource::Live));
    assert_eq!(
        live.begin_save(Ok(()), "/clips", 42, 99).unwrap(),
        "/clips/clip-42-99-2.mkv"
    );
    assert!(live.busy);
    live.end_save();
    assert!(!live.busy);
    assert_eq!(live.begin_save(Err("full".into()), "/clips", 42, 99).unwrap_err(), "full");
    assert!(!live.busy);
}

#[test]
fn a_selection_goes_when_it_is_cancelled_or_old() {
    let mut live: Live<&'static str> = Live::new(0);
    assert_eq!(live.freeze(Err("none".into()), 0), Err("none".to_string()));
    assert_eq!(live.freeze(Ok("a"), 0), Ok(1));
    decide(&mut live, "cancel", "{\"snapshot\":2}", 0);
    assert!(live.frozen.is_some());
    decide(&mut live, "cancel", "{\"snapshot\":1}", 0);
    assert!(live.frozen.is_none());
    let span = Span { width: 8, height: 6, start: 0, end: 1 };
    assert_eq!(
        live.previewed(1, Ok(7), span).unwrap_err(),
        "replay selection cancelled"
    );
    assert_eq!(live.freeze(Ok("b"), 0), Ok(2));
    assert_eq!(live.previewed(2, Err("broken".into()), span).unwrap_err(), "broken");
    assert!(live.frozen.is_none());
    assert_eq!(live.freeze(Ok("c"), 0), Ok(3));
    live.expire(SELECTION_EXPIRES);
    assert!(live.frozen.is_some());
    live.unsent(2);
    assert!(live.frozen.is_some());
    live.expire(SELECTION_EXPIRES + 1);
    assert!(live.frozen.is_none());
    assert!(matches!(decide(&mut live, "stop", "{}", 0), Decision::Stop));
    match decide(&mut live, "jump", "{}", 0) {
        Decision::Answer(Err(message)) => assert_eq!(message, "unknown replay command"),
        _ => panic!("jumped"),
    }
}

#[test]
fn an_answer_says_whether_it_went_well() {
    assert_eq!(text(bytes_document(b"/a")), "[47,97]");
    assert_eq!(
        text(answer(Ok(saved_answer("/a", 9, 10, 30)))),
        r#"{"bytes":9,"duration_us":20,"ok":true,"path":"/a","path_bytes":[47,97]}"#
    );
    assert_eq!(text(answer(Err("no".into()))), r#"{"error":"no","ok":false}"#);
}

#[test]
fn connections_are_limited() {
    let mut connections = Connections::new();
    for _ in 0..MAX_ACTIVE {
        assert_eq!(connections.connected(false, true), Admission::Serve);
    }
    assert_eq!(connections.connected(false, true), Admission::Drop);
    connections.served();
    assert_eq!(connections.connected(false, false), Admission::Drop);
    assert_eq!(connections.connected(true, true), Admission::Stop);
    assert_eq!(connections.connected(false, true), Admission::Serve);
}

fn session(name: &str) -> Session {
    Session { name: name.into(), output: "DP-1".into(), output_limit: 500 }
}

#[test]
fn a_replay_is_started_once() {
    let mut control = Control::new();
    assert!(control.begin_start(Ok(false), Ok(())).is_ok());
    assert_eq!(
        control.begin_start(Ok(false), Ok(())).unwrap_err(),
        "replay is already starting or stopping"
    );
    assert!(!control.running());
    assert!(control.end_start(Ok(session("a"))).is_ok());
    assert!(control.running());
    assert_eq!(
        control.begin_start(Ok(true), Ok(())).unwrap_err(),
        "replay is already running"
    );
    assert_eq!(control.begin_start(Err("odd".into()), Ok(())).unwrap_err(), "odd");
    assert!(control.running());
    assert_eq!(control.begin_start(Ok(false), Err("bad".into())).unwrap_err(), "bad");
    assert!(!control.running());
    assert!(control.begin_start(Ok(false), Ok(())).is_ok());
    assert_eq!(control.stop(), None);
    assert_eq!(
        control.end_start(Ok(session("b"))).unwrap_err(),
        "replay start cancelled"
    );
    assert!(!control.running());
    assert!(control.begin_start(Ok(false), Ok(())).is_ok());
    assert_eq!(control.end_start(Err("failed".into())).unwrap_err(), "failed");
}

#[test]
fn requests_go_to_the_session_that_they_name() {
    let mut control = Control::new();
    match control.route("status", &document("{}")).ok().unwrap() {
        Route::Answer(status) => {
            assert_eq!(text(status), r#"{"ok":true,"ready":false,"state":"stopped"}"#);
        }
        Route::Forward { .. } => panic!("forwarded"),
    }
    assert_eq!(
        control.route("save", &document("{}")).err().unwrap(),
        "replay is stopped; start it from the tray first"
    );
    control.session = Some(session("a"));
    assert_eq!(
        control.route("save", &document("{\"session\":\"b\"}")).err().unwrap(),
        "replay session changed; open the selector again"
    );
    for body in ["{}", "{\"session\":\"a\"}"] {
        match control.route("save", &document(body)).ok().unwrap() {
            Route::Forward { name, output, output_limit } => {
                assert_eq!((name.as_str(), output.as_str(), output_limit), ("a", "DP-1", 500));
            }
            Route::Answer(_) => panic!("answered"),
        }
    }
    assert_eq!(
        text(hand_on("status", document("{\"ready\":true}"), "a", "DP-1")),
        r#"{"output":"DP-1","ready":true,"session":"a","state":"running"}"#
    );
    assert_eq!(
        text(hand_on("save", document("{\"ok\":true}"), "a", "DP-1")),
        r#"{"ok":true,"output":"DP-1","session":"a"}"#
    );
}

#[test]
fn a_dead_session_is_replaced() {
    let mut watchdog = Watchdog::new();
    for looks in [
        [Watched::Dead, Watched::Dead, Watched::Healthy],
        [Watched::Dead, Watched::Dead, Watched::Starting],
        [Watched::Dead, Watched::Nothing, Watched::Dead],
    ] {
        for look in looks {
            assert!(!watchdog.look(look));
        }
    }
    assert!(!watchdog.look(Watched::Dead));
    assert!(watchdog.look(Watched::Dead));
    assert!(!watchdog.look(Watched::Dead));

    let ready = document("{\"ready\":true}");
    let busy = document("{\"busy\":true}");
    let neither = document("{}");
    assert_eq!(watch(true, true, None), Watched::Starting);
    assert_eq!(watch(false, false, None), Watched::Nothing);
    assert_eq!(watch(false, true, Some(&ready)), Watched::Healthy);
    assert_eq!(watch(false, true, Some(&busy)), Watched::Healthy);
    assert_eq!(watch(false, true, Some(&neither)), Watched::Dead);
    assert_eq!(watch(false, true, None), Watched::Dead);
    assert!(is_capturing(true, true, Some(&ready)));
    assert!(!is_capturing(true, true, Some(&busy)));
    assert!(!is_capturing(false, true, Some(&ready)));
    assert!(!is_capturing(true, true, None));

    let mut control = Control::new();
    control.session = Some(session("a"));
    assert_eq!(control.begin_replace("b"), None);
    assert_eq!(control.begin_replace("a"), Some(session("a")));
    assert!(control.starting && !control.running());
    assert_eq!(
        control.end_replace(Err("gone".into())).unwrap(),
        "replay capture stopped and could not restart: gone"
    );
    control.session = Some(session("c"));
    assert!(control.begin_replace("c").is_some());
    assert_eq!(control.end_replace(Ok(session("d"))), None);
    assert_eq!(control.session, Some(session("d")));
}

#[test]
fn a_clip_lies_in_the_cache() {
    let answer = |path: &str| Document::object().with("path_bytes", bytes_document(path.as_bytes()));
    assert_eq!(clip_path(&answer("/c/clip.mkv"), b"/c/"), Ok(b"/c/clip.mkv".to_vec()));
    assert_eq!(clip_path(&answer("/c//./clip.mkv"), b"/c"), Ok(b"/c//./clip.mkv".to_vec()));
    for path in ["/c/d/clip.mkv", "/clip.mkv", "c/clip.mkv", "/c/clip.mp4", "/c/.mkv", "/c/../c/x.mkv", ""] {
        assert_eq!(
            clip_path(&answer(path), b"/c").unwrap_err(),
            "clip response is outside the recording cache",
            "{path}"
        );
    }
    assert_eq!(
        clip_path(&document("{\"path_bytes\":[256]}"), b"/c").unwrap_err(),
        "invalid clip path byte"
    );
    assert_eq!(
        clip_path(&document("{\"path_bytes\":\"x\"}"), b"/c").unwrap_err(),
        "clip response has no native path"
    );
    assert_eq!(
        undelivered(&document("{\"snapshot\":4,\"session\":\"a\"}")),
        Some(("a".to_string(), 4))
    );
    assert_eq!(undelivered(&document("{\"snapshot\":4}")), None);
    assert_eq!(companion_path("worker", Some("/opt"), true), "/opt/worker");
    assert_eq!(companion_path("worker", Some("/opt"), false), "worker");
    assert_eq!(companion_path("worker", None, true), "worker");
}

#[test]
fn requests_are_given_time() {
    assert_eq!(text(request("start")), r#"{"command":"start","version":1}"#);
    for (name, seconds) in [("save", 1900), ("start", 120), ("freeze", 15), ("status", 5)] {
        assert_eq!(timeout(&request(name)), seconds);
    }
    assert_eq!(timeout(&document("{}")), 5);
    assert!(granted(&document("{\"ok\":true}")).is_ok());
    assert_eq!(granted(&document("{\"ok\":false,\"error\":\"x\"}")).unwrap_err(), "x");
    assert_eq!(granted(&document("{}")).unwrap_err(), "replay request failed");
    for name in ["start", "stop", "status", "save"] {
        assert_eq!(text(cli(&words(&[name])).unwrap()), text(request(name)));
    }
    assert_eq!(cli(&words(&["freeze"])).unwrap_err(), USAGE);
    assert_eq!(cli(&words(&["save", "now"])).unwrap_err(), USAGE);
    assert_eq!(cli(&[]).unwrap_err(), USAGE);
    assert_eq!(notification("x"), ["Boltsnap replay", "x"]);
}

#[test]
fn a_preview_is_as_large_as_it_is_said_to_be() {
    let status = r#"{"ok":true,"ready":true,"busy":false,"output":"DP-1","session":"s"}"#;
    let target = preview_target(&document(status)).unwrap();
    assert_eq!((target.output.as_str(), target.session.as_str()), ("DP-1", "s"));
    for refused in [
        r#"{"ok":false,"ready":true,"output":"DP-1","session":"s"}"#,
        r#"{"ok":true,"ready":false,"output":"DP-1","session":"s"}"#,
        r#"{"ok":true,"ready":true,"busy":true,"output":"DP-1","session":"s"}"#,
        r#"{"ok":true,"ready":true,"session":"s"}"#,
    ] {
        assert_eq!(preview_target(&document(refused)), None);
    }
    assert_eq!(
        text(FrozenSelection::freeze_request(&target)),
        r#"{"command":"freeze","session":"s","version":1}"#
    );
    let png = write_png(&Image { width: 2, height: 1, pixels: vec![Rgb { r: 1, g: 2, b: 3 }; 2] })
        .unwrap();
    let offer = |width: u32| {
        document(&format!(
            r#"{{"snapshot":7,"session":"s","output":"DP-1","width":{width},"height":1}}"#
        ))
    };
    let frozen = FrozenSelection::prepare(&offer(2), &png).unwrap();
    assert_eq!((frozen.id, frozen.width, frozen.height), (7, 2, 1));
    assert_eq!(frozen.preview.as_ref().unwrap().pixels.len(), 2);
    assert!(FrozenSelection::prepare(&offer(3), &png).is_none());
    assert!(FrozenSelection::prepare(&offer(1), &png).is_none());
    assert!(FrozenSelection::prepare(&offer(2), b"nothing").is_none());
    assert!(FrozenSelection::prepare(&document("{}"), &png).is_none());
    assert_eq!(
        text(frozen.save_request(1, 0, 1, 1)),
        r#"{"command":"save","crop":{"height":1,"width":1,"x":1,"y":0},"session":"s","snapshot":7,"version":1}"#
    );
    assert_eq!(
        text(frozen.cancel_request()),
        r#"{"command":"cancel","session":"s","snapshot":7,"version":1}"#
    );
}

#[test]
fn the_replay_has_an_address_for_each_user() {
    assert_eq!(address(1000, "main"), "boltsnap-replay-1000-main");
    assert!(configure(12, 12, 5, 5).is_ok());
    let refused = configure(12, 12, 5, 6).unwrap_err();
    assert_eq!(refused.kind, ErrorKind::PermissionDenied);
    assert_eq!(refused.message, "replay peer has another user ID");
    assert!(configure(11, 12, 5, 5).is_err());
}

#[test]
fn a_process_is_given_up_when_its_time_is_over() {
    assert!(matches!(watch_process(Seen::Ended, 9, 5), Next::Ended));
    assert!(matches!(watch_process(Seen::Running, 4, 5), Next::LookAgain));
    assert!(matches!(
        watch_process(Seen::Running, 5, 5),
        Next::Terminate(message) if message == "media capability probe timed out"
    ));
    assert!(matches!(
        watch_process(Seen::Unknown("lost".into()), 0, 5),
        Next::Terminate(message) if message == "lost"
    ));
    assert_eq!(terminate(false, None), Ending::Over);
    assert_eq!(terminate(true, None), Ending::Ask);
    assert_eq!(terminate(true, Some(PATIENCE - 1)), Ending::Wait);
    assert_eq!(terminate(true, Some(PATIENCE)), Ending::Kill);
    assert_eq!(bounded(vec![1, 2], 2), Ok(vec![1, 2]));
    assert_eq!(
        bounded(vec![1, 2, 3], 2).unwrap_err(),
        "media process output exceeds its limit"
    );
    assert_eq!(finished(Ok(true), Ok(vec![1]), Ok(vec![2])), Ok((true, vec![1], vec![2])));
    assert_eq!(finished(Ok(true), Ok(vec![1]), Err("c".into())).unwrap_err(), "c");
    assert_eq!(finished(Ok(true), Err("b".into()), Err("c".into())).unwrap_err(), "b");
    assert_eq!(finished(Err("a".into()), Err("b".into()), Ok(vec![])).unwrap_err(), "a");
}

fn monitor(name: &str, focused: bool) -> Monitor {
    Monitor {
        name: name.into(),
        description: String::new(),
        x: 0,
        y: 0,
        width: 1920,
        height: 1080,
        scale: Scale { numerator: 1, denominator: 1 },
        focused,
    }
}

#[test]
fn the_output_is_the_configured_or_the_focused_one() {
    let monitors = || Asked::Answered(Ok(vec![monitor("A", false), monitor("B", true)]));
    let mut settings = Settings::default();
    let focused = RecordDefaultTarget::Focused;
    assert_eq!(choose_output(&settings, &focused, monitors()), Ok("B".to_string()));
    let named = RecordDefaultTarget::Output("A".into());
    assert_eq!(choose_output(&settings, &named, monitors()), Ok("A".to_string()));
    settings.output = Some("B".into());
    assert_eq!(choose_output(&settings, &named, monitors()), Ok("B".to_string()));
    settings.output = Some("C".into());
    assert_eq!(
        choose_output(&settings, &named, monitors()).unwrap_err(),
        "configured replay monitor is unavailable"
    );
    assert_eq!(
        choose_output(&settings, &named, Asked::Unsuccessful).unwrap_err(),
        "could not query replay monitor"
    );
    assert_eq!(choose_output(&settings, &named, Asked::Failed("x".into())).unwrap_err(), "x");
    assert_eq!(
        choose_output(&settings, &named, Asked::Answered(Err("y".into()))).unwrap_err(),
        "y"
    );
}

#[test]
fn the_first_encoder_that_works_is_chosen() {
    let listed = listed_encoders(Asked::Answered(
        br#"{"video_encoders":["h264_vaapi",3,"h264_vulkan"]}"#.to_vec(),
    ))
    .unwrap();
    assert_eq!(listed, ["h264_vaapi", "h264_vulkan"]);
    assert_eq!(
        encoders_in(&document("{}")).unwrap_err(),
        "invalid encoder capabilities"
    );
    assert_eq!(
        listed_encoders(Asked::Failed("gone".into())).unwrap_err(),
        "replay worker missing or unavailable; install boltsnap-replay-worker: gone"
    );
    assert_eq!(
        listed_encoders(Asked::Unsuccessful).unwrap_err(),
        "replay worker could not load its media libraries"
    );
    assert!(listed_encoders(Asked::Answered(b"nothing".to_vec())).is_err());
    let candidates = encoder_candidates("auto");
    assert_eq!(candidates, ["h264_nvenc", "h264_vaapi", "h264_vulkan"]);
    assert_eq!(encoder_candidates("libx264"), ["libx264"]);
    let trial = |works: &'static str| {
        move |name: &String| -> Result<Trial, String> {
            Ok(Trial { success: name == works, errors: format!("{name} is bad").into_bytes() })
        }
    };
    assert_eq!(
        choose_encoder(&candidates, &listed, || false, trial("h264_vulkan")),
        Ok("h264_vulkan".to_string())
    );
    assert_eq!(
        choose_encoder(&candidates, &listed, || false, trial("h264_nvenc")).unwrap_err(),
        "no usable requested hardware encoder: h264_vaapi is bad; h264_vulkan is bad"
    );
    assert_eq!(
        choose_encoder(&candidates, &listed, || true, trial("h264_vaapi")).unwrap_err(),
        "replay start cancelled"
    );
    let none: Vec<String> = Vec::new();
    assert_eq!(
        choose_encoder(&none, &listed, || true, trial("h264_vaapi")).unwrap_err(),
        "no usable requested hardware encoder: "
    );
    let broken = |_: &String| -> Result<Trial, String> { Err("broken".into()) };
    assert_eq!(choose_encoder(&candidates, &listed, || false, broken).unwrap_err(), "broken");
    let long = |_: &String| -> Result<Trial, String> {
        Ok(Trial { success: false, errors: vec![b'x'; 600] })
    };
    let one = words(&["h264_vaapi"]);
    let message = choose_encoder(&one, &listed, || false, long).unwrap_err();
    assert_eq!(message.len(), "no usable requested hardware encoder: ".len() + 512);
}

#[test]
fn the_capture_and_the_worker_are_started() {
    for (encoder, codec) in [
        ("h264_nvenc", "h264"),
        ("hevc_vaapi", "hevc"),
        ("av1_nvenc", "av1"),
        ("hevc_vulkan", "hevc_vulkan"),
    ] {
        assert_eq!(capture_codec(encoder), Ok(codec.to_string()));
    }
    assert_eq!(
        capture_codec("libx264").unwrap_err(),
        "libx264 is installed, but has no compatible GPU Screen Recorder adapter"
    );
    assert!(capture_args("DP-1", 60, "h264").join(" ").starts_with(
        "-w DP-1 -f 60 -fm cfr -k h264 -q very_high -tune performance -keyint 1 -a default_output "
    ));
    assert_eq!(worker_name(3, 44), "worker-3-44");
    let settings = Settings { seconds: 30, memory_mib: 100, ..Settings::default() };
    let args = worker_args("n", "/d", &settings, "h264_vaapi");
    assert_eq!(args, ["live", "n", "/d", "30", "100", "h264_vaapi"]);
    assert_eq!(clip_limit(&settings), 34_952_533);
    match command(&args).ok().unwrap() {
        WorkerCommand::Live { name, directory, seconds, memory, encoder } => {
            assert_eq!((name.as_str(), directory.as_str()), ("n", "/d"));
            assert_eq!((seconds, memory, encoder.as_str()), (30, 104_857_600, "h264_vaapi"));
        }
        _ => panic!("not live"),
    }
}

fn look() -> Look {
    Look {
        expired: false,
        cancelled: false,
        capture_exit: Ok(None),
        worker_exit: Ok(None),
        status: None,
    }
}

#[test]
fn a_start_is_waited_for() {
    let failed = |look: Look| match look.judge() {
        Wait::Failed(message) => message,
        _ => panic!("not failed"),
    };
    assert!(matches!(look().judge(), Wait::Again));
    let ready = Look { status: Some(document("{\"ready\":true}")), ..look() };
    assert!(matches!(ready.judge(), Wait::Ready));
    let waiting = Look { status: Some(document("{\"ready\":false}")), ..look() };
    assert!(matches!(waiting.judge(), Wait::Again));
    assert_eq!(failed(Look { status: Some(document("{\"error\":\"x\"}")), ..look() }), "x");
    assert_eq!(
        failed(Look { expired: true, ..look() }),
        "replay did not receive a decodable video frame within sixty seconds"
    );
    assert_eq!(
        failed(Look { cancelled: true, status: Some(document("{\"ready\":true}")), ..look() }),
        "replay start cancelled"
    );
    assert_eq!(
        failed(Look { capture_exit: Ok(Some("exit 1".into())), ..look() }),
        "replay capture failed: exit 1"
    );
    assert_eq!(
        failed(Look { worker_exit: Ok(Some("exit 2".into())), ..look() }),
        "replay worker failed: exit 2"
    );
    assert_eq!(failed(Look { capture_exit: Err("lost".into()), ..look() }), "lost");
}

#[test]
fn the_worker_understands_its_command_line() {
    let refused = |line: &[&str]| command(&words(line)).err().unwrap();
    assert_eq!(refused(&[]), WORKER_USAGE);
    assert_eq!(refused(&["jump"]), WORKER_USAGE);
    assert_eq!(refused(&["check-encoder"]), "missing encoder");
    assert_eq!(refused(&["check-encoder", "a", "b"]), "unexpected encoder probe option");
    assert_eq!(refused(&["live"]), "live requires socket name");
    assert_eq!(refused(&["live", "n"]), "live requires output directory");
    assert_eq!(refused(&["live", "n", "/d", "x"]), "live requires seconds");
    assert_eq!(refused(&["live", "n", "/d", "5"]), "live requires memory MiB");
    assert_eq!(refused(&["live", "n", "/d", "5", "64"]), "live requires crop encoder");
    assert_eq!(refused(&["live", "n", "/d", "5", "63", "e"]), "invalid live options");
    assert_eq!(refused(&["live", "n", "/d", "601", "64", "e"]), "invalid live options");
    assert!(matches!(
        command(&words(&["check-encoder", "a"])),
        Ok(WorkerCommand::CheckEncoder(encoder)) if encoder == "a"
    ));
    assert!(matches!(command(&words(&["capabilities"])), Ok(WorkerCommand::Capabilities)));
    assert_eq!(
        refused(&["probe", "--input", "a", "--output", "b.mkv"]),
        "probe requires --closed-gop for a known closed-GOP, non-reordered test stream"
    );
    assert_eq!(refused(&["probe", "--closed-gop"]), "--input is required");
    assert_eq!(refused(&["probe", "--closed-gop", "--input", "-"]), "--output is required");
    assert_eq!(refused(&["probe", "--input"]), "--input requires a path");
    assert_eq!(refused(&["probe", "--output"]), "--output requires a path");
    assert_eq!(refused(&["probe", "--seconds", "x"]), "--seconds requires an integer");
    assert_eq!(refused(&["probe", "--memory-mib"]), "--memory-mib requires an integer");
    assert_eq!(refused(&["probe", "--fast"]), "unknown probe option: --fast");
    assert_eq!(
        refused(&["probe", "--closed-gop", "--seconds", "0"]),
        "seconds must be 1..600 and memory-mib must be 1..4096"
    );
    match command(&words(&[
        "probe", "--memory-mib", "2", "--closed-gop", "--input", "-", "--output", "o.mkv",
    ]))
    .ok()
    .unwrap()
    {
        WorkerCommand::Probe(probe) => {
            assert_eq!((probe.input.as_str(), probe.output.as_str()), ("-", "o.mkv"));
            assert_eq!((probe.seconds, probe.budget), (Settings::default().seconds, 2_097_152));
        }
        _ => panic!("no probe"),
    }
    assert!(live_directory(true).is_ok());
    assert!(live_directory(false).is_err());
    let known = capabilities(7, &words(&["z", "a"]));
    assert_eq!(encoders_in(&known).unwrap(), ["a", "z"]);
}

#[test]
fn invalid_timing_is_rejected_before_buffering() {
    let packet = PacketTimes { corrupt: false, pts: Some(0), dts: Some(0), duration: 1 };
    assert_eq!(packet.checked(), Ok((0, 1)));
    assert!(PacketTimes { pts: Some(1), ..packet }.checked().is_err());
    assert!(PacketTimes { dts: None, ..packet }.checked().is_err());
    assert!(PacketTimes { duration: 0, ..packet }.checked().is_err());
}

#[test]
fn a_packet_that_is_refused_is_explained() {
    let packet = PacketTimes { corrupt: false, pts: Some(5), dts: Some(5), duration: 2 };
    let refused = |packet: PacketTimes| packet.checked().unwrap_err();
    assert_eq!(refused(PacketTimes { corrupt: true, ..packet }), "corrupt input packet");
    assert_eq!(refused(PacketTimes { pts: None, ..packet }), "packet has no PTS");
    assert_eq!(refused(PacketTimes { dts: None, ..packet }), "packet has no DTS");
    assert_eq!(
        refused(PacketTimes { dts: Some(4), ..packet }),
        "probe requires a stream without frame reordering"
    );
    assert_eq!(
        refused(PacketTimes { duration: 0, ..packet }),
        "probe requires positive packet durations"
    );
    assert_eq!(
        refused(PacketTimes { duration: i64::MAX, ..packet }),
        "timestamp overflow"
    );
    assert!(lasting(1, 2).is_ok());
    assert_eq!(lasting(2, 2).unwrap_err(), "packet duration is below clock resolution");
    assert_eq!(counted(100, &vec![3, 4], 10, 5), Ok(132));
    assert_eq!(
        counted(usize::MAX, &Vec::new(), 0, 1).unwrap_err(),
        "packet accounting overflow"
    );
    assert_eq!(check_streams(&vec![Medium::Audio, Medium::Video]), Ok(1));
    assert_eq!(check_streams(&vec![Medium::Video]), Ok(0));
    assert_eq!(check_streams(&vec![Medium::Audio]).unwrap_err(), "input has no video stream");
    assert_eq!(
        check_streams(&vec![Medium::Video, Medium::Video]).unwrap_err(),
        "probe requires one video and at most one audio stream"
    );
    assert_eq!(dimensions(MAX_SIDE as i32, 1), Ok((MAX_SIDE, 1)));
    assert!(dimensions(MAX_SIDE as i32 + 1, 1).is_err());
    assert!(dimensions(0, 1).is_err());
    assert!(dimensions(-1, 1).is_err());
}

#[test]
fn a_file_keeps_to_its_limit() {
    let mut file = LimitedFile::new(3);
    assert!(file.check(3).is_ok());
    file.wrote(3);
    assert_eq!(file.check(1).unwrap_err(), "probe output quota exceeded");
    assert_eq!(file.length, 3);
    file.seek(1);
    assert!(file.check(2).is_ok());
    file.wrote(1);
    assert_eq!((file.position, file.length), (2, 3));
    assert_eq!(file.check(u64::MAX).unwrap_err(), "output size overflow");
    assert_eq!(partial_path("/c/clip.mkv", 4, 5).unwrap(), "/c/clip.mkv.4.5.partial");
    assert_eq!(partial_path("/c/clip.mkv/", 4, 5).unwrap(), "/c/clip.mkv.4.5.partial");
    assert_eq!(partial_path("/c/clip.mkv/./", 4, 5).unwrap(), "/c/clip.mkv.4.5.partial");
    assert_eq!(partial_path("c//./clip.mkv", 4, 5).unwrap(), "c/clip.mkv.4.5.partial");
    assert_eq!(partial_path("/clip.mkv", 4, 5).unwrap(), "/clip.mkv.4.5.partial");
    assert_eq!(partial_path("./clip.mkv", 4, 5).unwrap(), "./clip.mkv.4.5.partial");
    assert_eq!(partial_path("clip.mkv", 4, 5).unwrap(), "clip.mkv.4.5.partial");
    for path in ["", "/", ".", "..", "/c/..", "./."] {
        assert_eq!(partial_path(path, 4, 5).unwrap_err(), "output has no filename");
    }
    for path in ["/c/clip.mkv/", "c//./clip.mkv", "/clip.mkv", "./clip.mkv", "clip.mkv", "/./a"] {
        let path = std::path::Path::new(path);
        let mut name = path.file_name().unwrap().to_os_string();
        name.push(".4.5.partial");
        let beside = path.with_file_name(name);
        assert_eq!(partial_path(path.to_str().unwrap(), 4, 5).unwrap(), beside.to_str().unwrap());
    }
    assert!(matches!(reserve(0, Created::Done), Attempt::Done));
    assert!(matches!(reserve(0, Created::AlreadyThere), Attempt::Again));
    assert!(matches!(
        reserve(NAME_ATTEMPTS - 1, Created::AlreadyThere),
        Attempt::Failed(message) if message == "could not reserve a temporary output filename"
    ));
    assert!(matches!(
        reserve(0, Created::Failed("x".into())),
        Attempt::Failed(message) if message == "create output: x"
    ));
}

#[test]
fn a_clip_is_written_in_order() {
    assert_eq!(
        interleave(&vec![0, 10], &vec![-5, 0, 5, 20]),
        vec![
            Source::Audio,
            Source::Video,
            Source::Audio,
            Source::Audio,
            Source::Video,
            Source::Audio,
        ]
    );
    assert_eq!(shifted(Some(10), Some(8), 5), Ok((5, 3)));
    assert_eq!(shifted(None, Some(8), 5).unwrap_err(), "missing PTS");
    assert_eq!(shifted(Some(i64::MIN), Some(8), 5).unwrap_err(), "PTS overflow");
    assert_eq!(shifted(Some(10), None, 5).unwrap_err(), "missing DTS");
    assert_eq!(shifted(Some(10), Some(i64::MIN), 5).unwrap_err(), "DTS overflow");
    assert!(check_output("/c/a.mkv", Ok(false)).is_ok());
    assert!(check_output("/c/a.mkv/./", Ok(false)).is_ok());
    assert_eq!(check_output("/c/a.mkv", Ok(true)).unwrap_err(), "output already exists");
    assert_eq!(check_output("/c/a.mkv", Err("x".into())).unwrap_err(), "check output: x");
    for path in ["/c/a.mp4", "/c/.mkv", "a"] {
        assert_eq!(
            check_output(path, Ok(false)).unwrap_err(),
            "probe output must use the .mkv extension"
        );
    }
    assert_eq!(export_error("x", "/p"), "x; partial output: /p");
    assert_eq!(nonempty(4), Ok(4));
    assert_eq!(nonempty(0).unwrap_err(), "empty output");
}

#[test]
fn a_part_of_the_picture_is_encoded_anew() {
    assert_eq!(
        check_encoder_args("h264_vaapi").join(" "),
        "-v error -nostdin -init_hw_device vaapi=clip -filter_hw_device clip -f lavfi -i color=size=320x180:rate=60 -vf format=nv12,hwupload -frames:v 1 -c:v h264_vaapi -bf 0 -f null -"
    );
    assert!(check_encoder("x", true, b"").is_ok());
    assert_eq!(check_encoder("x", false, b" no \n").unwrap_err(), "x cannot initialize: no");
    assert_eq!(
        preview_args(30).unwrap().join(" "),
        "-v error -nostdin -threads 2 -i pipe:0 -map 0:v:0 -vf select=eq(n\\,29) -frames:v 1 -threads:v 1 -c:v png -f image2pipe pipe:1"
    );
    assert_eq!(preview_args(0).unwrap_err(), "empty preview");
    assert_eq!(preview(true, vec![1]), Ok(vec![1]));
    assert_eq!(preview(true, vec![]).unwrap_err(), "could not decode replay preview");
    assert!(preview(false, vec![1]).is_err());
    let crop = Crop { x: 1, y: 2, width: 30, height: 40 };
    assert_eq!(
        crop_args(crop, "libx264").join(" "),
        "-hide_banner -loglevel error -nostdin -threads 2 -i pipe:0 -map 0:v:0 -map 0:a:0? -vf crop=30:40:1:2,setsar=1,format=nv12 -filter_threads 1 -c:v libx264 -threads:v 2 -bf 0 -preset veryfast -crf 18 -c:a copy -f matroska pipe:1"
    );
    assert!(crop_args(crop, "h264_vulkan").join(" ").contains(
        "-init_hw_device vulkan=clip -filter_hw_device clip -i pipe:0"
    ));
    assert!(crop_args(crop, "h264_vulkan").join(" ").contains("format=nv12,hwupload"));
    assert!(crop_args(crop, "h264_nvenc").join(" ").contains("-bf 0 -qp 18 -c:a"));
    assert!(crop_args(crop, "h264_vaapi").join(" ").contains("-global_quality 18"));
    assert_eq!(deadline(0, 10_500_000), 60);
    let mut copied = Copied::new(10);
    assert!(copied.count(10).is_ok());
    assert_eq!(copied.count(1).unwrap_err(), "crop output exceeds its disk budget");
    assert_eq!(copied.count(u64::MAX).unwrap_err(), "crop size overflow");
    assert_eq!(copied.total, 10);
    assert_eq!(saved(Ok(5), Ok(true), "/p"), Ok(5));
    assert_eq!(saved(Err("x".into()), Ok(true), "/p").unwrap_err(), "x; partial output: /p");
    assert_eq!(saved(Ok(5), Err("y".into()), "/p").unwrap_err(), "y");
    for (bytes, success) in [(0, true), (5, false)] {
        assert_eq!(
            saved(Ok(bytes), Ok(success), "/p").unwrap_err(),
            "crop encoder failed; partial output: /p"
        );
    }
    assert_eq!(with_extension("/c/a.b.mkv", "mp4"), "/c/a.b.mp4");
    assert_eq!(with_extension("/c.d/.hidden", "mp4"), "/c.d/.hidden.mp4");
    assert_eq!(with_extension("/c.d/plain", "mp4"), "/c.d/plain.mp4");
    for path in ["/c/a.mkv/", "/c/a.mkv/.", "a.", "..", "/", "", ".", "a/..", ".b", ".b.c", "/c.d/."] {
        for extension in ["partial.mkv", "mp4", ""] {
            let whole = std::path::Path::new(path).with_extension(extension);
            assert_eq!(with_extension(path, extension), whole.to_str().unwrap());
        }
    }
}

#[test]
fn packets_are_counted_and_the_memory_is_shared() {
    assert_eq!(packet_read(0, 1, 2), Ok(1));
    assert_eq!(
        packet_read(0, 2, 2).unwrap_err(),
        "packet references an unknown stream"
    );
    assert_eq!(packet_read(u64::MAX, 0, 2).unwrap_err(), "packet count overflow");
    assert_eq!(frame_rate((60, 1), (30, 1)), (60, 1));
    assert_eq!(frame_rate((0, 1), (30, 1)), (30, 1));
    assert_eq!(share(64 * 1024 * 1024), 22_369_621);
}
