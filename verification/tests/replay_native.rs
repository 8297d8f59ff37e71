use boltsnap::json::print_json;
use boltsnap::linux::cursor_recording::{probe, smoothing};
use boltsnap::linux::replay::native::{
    acknowledged, check_background, check_codec, check_cursor, check_encoder, check_frame, check_planes,
    check_size, cursor_command, finalized, first_frame, fixture_size, handed, initial_frame, keeps_up,
    looked, mux_args, noted, presented, probe_answer, probe_options, record_options, render_node, select_output, Ack, AckStep, CaptureOutput, CursorCommand, Handed,
    ImageQueue, Looked, Producer, Shown, Waiting, MAX_IMAGES,
};

fn words(words: &[&str]) -> Vec<String> {
    words.iter().map(|word| word.to_string()).collect()
}

fn output(name: &str) -> CaptureOutput {
    CaptureOutput {
        name: name.into(),
        description: "AOC".into(),
        logical: (0, 0, 1920, 1080),
        mode_size: (1920, 1080),
        transform: 0,
    }
}

#[test]
fn there_is_one_device_to_draw_with() {
    assert_eq!(
        render_node(&words(&["card0", "renderD128"])),
        Ok("/dev/dri/renderD128".to_string())
    );
    for names in [&["card0"][..], &["renderD128", "renderD129"]] {
        assert_eq!(
            render_node(&words(names)).unwrap_err(),
            "native cursor recording currently requires exactly one DRM render node"
        );
    }
}

#[test]
fn an_output_is_captured_as_it_was_found() {
    let outputs = vec![output("A"), output("B")];
    assert_eq!(select_output(&outputs, "B", None, true), Ok(1));
    assert_eq!(select_output(&outputs, "B", Some(&output("B")), true), Ok(1));
    assert_eq!(
        select_output(&outputs, "C", None, true).unwrap_err(),
        "cursor capture output unavailable"
    );
    let twice = vec![output("A"), output("A")];
    assert_eq!(select_output(&twice, "A", None, true).unwrap_err(), "ambiguous capture output");
    for odd in [
        CaptureOutput { transform: 1, ..output("A") },
        CaptureOutput { mode_size: (1921, 1080), ..output("A") },
        CaptureOutput { mode_size: (1920, 1079), ..output("A") },
    ] {
        assert_eq!(
            select_output(&vec![odd], "A", None, true).unwrap_err(),
            "native cursor capture requires an unrotated, even-sized output"
        );
    }
    let moved = CaptureOutput { logical: (1, 0, 1920, 1080), ..output("A") };
    assert_eq!(
        select_output(&outputs, "A", Some(&moved), true).unwrap_err(),
        "capture output changed during discovery"
    );
    assert_eq!(
        select_output(&outputs, "A", None, false).unwrap_err(),
        "separate cursor capture requires EXT image-copy-capture"
    );
    assert!(check_frame(0, false, (4, 2), (4, 2)).is_ok());
    for (transform, inverted, size) in [(1, false, (4, 2)), (0, true, (4, 2)), (0, false, (4, 4))] {
        assert_eq!(
            check_frame(transform, inverted, size, (4, 2)).unwrap_err(),
            "video layout changed or unsupported buffer orientation"
        );
    }
}

#[test]
fn frames_come_at_their_time() {
    assert_eq!(presented(Some(90), 100), Ok(Shown::Ago(10)));
    assert_eq!(presented(Some(100), 100), Ok(Shown::Ago(0)));
    assert_eq!(presented(Some(130), 100), Ok(Shown::Ahead(30)));
    assert_eq!(
        presented(None, 100).unwrap_err(),
        "video presentation timestamp missing"
    );
    assert_eq!(
        presented(Some(1_000_000_101), 100).unwrap_err(),
        "video timestamp is outside the monotonic timeline"
    );
    assert_eq!(first_frame(1_500_000_000, 60), Ok(90));
    assert_eq!(first_frame(u64::MAX as u128 * 1_000_000_000, 1).unwrap_err(), "timestamp overflow");
    let mut waiting: Waiting<&str, &str> = Waiting::new();
    waiting.add_image(10, "a");
    waiting.add_image(30, "b");
    waiting.add_image(20, "c");
    assert_eq!(waiting.next_image(9), None);
    assert_eq!(waiting.next_image(20), Some("a"));
    assert_eq!(waiting.next_image(20), None);
    assert_eq!(waiting.next_image(30), Some("b"));
    assert_eq!(waiting.next_image(30), Some("c"));
    assert!(waiting.wants_video());
    waiting.add_video(5, "v");
    assert!(!waiting.wants_video());
    assert_eq!(waiting.next_video(4), None);
    assert_eq!(waiting.next_video(5), Some("v"));
    assert_eq!(waiting.next_video(5), None);
}

#[test]
fn what_waits_is_limited() {
    assert_eq!(handed(Handed::Taken, true), Some(Ok(())));
    assert_eq!(handed(Handed::Gone, false), Some(Err("consumer stopped".to_string())));
    assert_eq!(handed(Handed::Full, true), Some(Err("capture cancelled".to_string())));
    assert_eq!(handed(Handed::Full, false), None);
    let mut queue = ImageQueue::new();
    for _ in 0..MAX_IMAGES {
        assert!(queue.take(0, false).is_ok());
    }
    assert_eq!(queue.take(0, false).unwrap_err(), "cursor image queue exhausted");
    assert_eq!(queue.take(1, false).unwrap_err(), "unsupported cursor image orientation");
    queue.release();
    assert!(queue.take(0, false).is_ok());
}

#[test]
fn a_recording_keeps_up_or_ends() {
    assert!(keeps_up(None, 2_000_000_010, 10).is_ok());
    assert_eq!(
        keeps_up(None, 2_000_000_011, 10).unwrap_err(),
        "cursor encoder cannot sustain requested frame rate"
    );
    assert_eq!(
        keeps_up(Some("exit 1"), 0, 10).unwrap_err(),
        "recording mux exited: exit 1"
    );
    assert_eq!(finalized(Some((true, "exit 0")), true), Some(Ok(())));
    assert_eq!(
        finalized(Some((false, "exit 1")), false),
        Some(Err("recording mux failed: exit 1".to_string()))
    );
    assert_eq!(
        finalized(None, true),
        Some(Err("audio/video mux finalization timed out".to_string()))
    );
    assert_eq!(finalized(None, false), None);
}

#[test]
fn a_recording_is_asked_for_in_five_words() {
    let refused = |line: &[&str]| record_options(&words(line)).err().unwrap();
    assert_eq!(
        refused(&["DP-1"]),
        "cursor-record OUTPUT FPS CODEC AUDIO_SOURCE|- DESTINATION.mp4"
    );
    assert_eq!(refused(&["DP-1", "0", "libx264", "-", "a.mp4"]), "invalid fps");
    assert_eq!(refused(&["DP-1", "241", "libx264", "-", "a.mp4"]), "invalid fps");
    assert_eq!(
        refused(&["DP-1", "30", "libx264", "-", "a.mp4"]),
        "experimental cursor recording currently supports 60 FPS only"
    );
    assert!(refused(&["DP-1", "60", "h264_vulkan", "-", "a.mp4"]).contains("explicit libx264"));
    let options = record_options(&words(&["DP-1", "60", "libx264", "-", "a.mp4"])).ok().unwrap();
    assert_eq!((options.fps, options.codec.as_str()), (60, "libx264"));
    assert!(check_codec("libx264").is_ok());
    assert!(check_codec("x").is_err());
    assert_eq!(
        mux_args("-", None).join(" "),
        "-v warning -nostdin -copyts -start_at_zero -f nut -i pipe:0 -map 0:v:0 -c:v copy -f mp4 -movflags frag_keyframe+delay_moov pipe:1"
    );
    assert_eq!(
        mux_args("sink", None).join(" "),
        "-v warning -nostdin -copyts -start_at_zero -f nut -i pipe:0 -isync 0 -f pulse -i sink -map 0:v:0 -c:v copy -map 1:a:0 -c:a aac -b:a 128k -shortest -f mp4 -movflags frag_keyframe+delay_moov pipe:1"
    );
    assert!(mux_args("-", Some("sine")).join(" ").contains("-isync 0 -re -f lavfi -i sine -map"));
}

#[test]
fn what_cannot_be_drawn_is_refused() {
    assert_eq!(fixture_size(&words(&["a", "b", "c"])), Ok((320, 180)));
    assert_eq!(fixture_size(&words(&["a", "b", "c", "64", "48"])), Ok((64, 48)));
    assert_eq!(fixture_size(&words(&["a", "b", "c", "x", "48"])).unwrap_err(), "invalid width");
    assert_eq!(fixture_size(&words(&["a", "b", "c", "64", "y"])).unwrap_err(), "invalid height");
    assert_eq!(
        fixture_size(&words(&["a"])).unwrap_err(),
        "cursor-fixture RENDER_NODE CODEC OUTPUT.nut [WIDTH HEIGHT]"
    );
    assert!(check_size(8192, 2048).is_ok());
    for (width, height) in [(0, 1), (1, 0), (8193, 1), (8192, 2049)] {
        assert_eq!(check_size(width, height).unwrap_err(), "unsupported compositor size");
    }
    assert!(check_background(2, 3, 24).is_ok());
    assert_eq!(check_background(2, 3, 25).unwrap_err(), "background byte count");
    assert!(check_planes(4).is_ok());
    assert_eq!(check_planes(0).unwrap_err(), "invalid DMA-BUF planes");
    assert!(check_planes(5).is_err());
    assert!(check_cursor(1024, 1, 4096).is_ok());
    assert_eq!(check_cursor(1025, 1, 4100).unwrap_err(), "invalid cursor image");
    assert!(check_cursor(2, 2, 15).is_err());
    assert!(check_encoder("h264_vulkan", 240, false).is_ok());
    assert_eq!(
        check_encoder("libx264", 241, false).unwrap_err(),
        "unsupported native cursor encoder/FPS"
    );
    assert!(check_encoder("hevc", 60, false).is_err());
    assert_eq!(
        check_encoder("libx264", 60, true).unwrap_err(),
        "encoder already initialized"
    );
    assert_eq!(cursor_command("cursor-fixture"), Ok(CursorCommand::Fixture));
    assert_eq!(cursor_command("cursor-probe"), Ok(CursorCommand::Probe));
    assert_eq!(cursor_command("cursor-record"), Ok(CursorCommand::Record(false)));
    assert_eq!(cursor_command("cursor-record-fixture"), Ok(CursorCommand::Record(true)));
    assert_eq!(cursor_command("x").unwrap_err(), "unknown native cursor command");
}

#[test]
fn a_frame_is_let_go_once_it_is_drawn() {
    for cancelled in [false, true] {
        assert_eq!(acknowledged(Ack::Done, cancelled), AckStep::Next);
    }
    assert_eq!(acknowledged(Ack::Late, false), AckStep::Wait);
    assert_eq!(acknowledged(Ack::Late, true), AckStep::Stop);
}

#[test]
fn a_producer_that_is_gone_is_an_error() {
    assert_eq!(looked(Producer::Cursor, Looked::Found(Ok(7))), Ok(Some(7)));
    assert_eq!(looked::<u8>(Producer::Cursor, Looked::Empty), Ok(None));
    assert_eq!(
        looked::<u8>(Producer::Video, Looked::Found(Err("broken".into()))).unwrap_err(),
        "broken"
    );
    assert_eq!(
        looked::<u8>(Producer::Cursor, Looked::Gone).unwrap_err(),
        "cursor producer stopped"
    );
    assert_eq!(
        looked::<u8>(Producer::Video, Looked::Gone).unwrap_err(),
        "video producer stopped"
    );
    assert!(noted(true).is_ok());
    assert_eq!(
        noted(false).unwrap_err(),
        "cursor observation queue exhausted/disconnected"
    );
    assert_eq!(initial_frame(Ok(Ok(3))), Ok(3));
    assert_eq!(initial_frame::<u8>(Ok(Err("broken".into()))).unwrap_err(), "broken");
    assert_eq!(
        initial_frame::<u8>(Err("timed out".into())).unwrap_err(),
        "initial video frame: timed out"
    );
}

#[test]
fn the_probe_is_asked_and_its_answer_understood() {
    assert_eq!(
        probe_options(&words(&["DP-1", "libx264"])),
        Ok(("DP-1".to_string(), "libx264".to_string()))
    );
    assert_eq!(
        probe_options(&words(&["DP-1"])).unwrap_err(),
        "cursor-probe OUTPUT CODEC"
    );
    assert!(probe_options(&words(&["DP-1", "h264_vaapi"])).is_err());
    assert!(smoothing(&probe_answer("DP-1", "libx264")).is_ok());
    let printed = print_json(probe_answer("DP-1", "libx264"));
    assert!(probe(true, printed.as_bytes(), b"").is_ok());
    assert!(printed.contains("\"output\":\"DP-1\""));
}
