use boltsnap::cli::Backend;
use boltsnap::config::RecordAudioSource;
use boltsnap::pixels::{crop, pixel, Image, Rgba};
use boltsnap::protocol::{
    ErrorKind, PublicRecordingState, RecordingAction, Request, Response,
};
use boltsnap::selector::{Handle, Interaction, Mode, Point, Rect as Part, Region};
use boltsnap::windows::audio::{
    mix, sample_at, sources, stop, take_chunks, ThreadEnd, CHUNK_BYTES,
};
use boltsnap::windows::autostart::{
    daemon_path, ensure_success, exit_code, launcher, powershell_args, powershell_path, started,
    INSTALL_SCRIPT, REMOVE_SCRIPT, TASK_NAME,
};
use boltsnap::windows::capture::{
    capture_rect, capture_window, check_backend, check_written, found_window, intersect,
    looks_like_empty_frame, monitor_image, needs_fallback, opaque_image, strip_uniform_border,
    valid_rect, virtual_screen_rect, Desktop, Format, Rect,
};
use boltsnap::windows::clipboard::{
    drop_files, filled, opened, serve_wayland_clipboard, serve_wayland_uri_list, OPEN_ATTEMPTS,
};
use boltsnap::windows::default_record_codec;
use boltsnap::windows::hotkey::{
    goes_down, key_of, shortcut_arguments, Handled, Key, Keyboard, ShortcutAction,
};
use boltsnap::windows::ipc::{
    ensure_daemon, sanitize_pipe_component, socket_path, unreachable_daemon, watch_recording,
    Reaching, DAEMON_ATTEMPTS,
};
use boltsnap::windows::paths::{
    bundled_editor, command_candidates, ensure_file, file_name, is_orphan, join, local_timestamp,
    sanitize_recording_output, temp_file, temp_png, unique_path, unique_recording_path, Folders,
    LocalTime,
};
use boltsnap::windows::recording::{
    bottom_up, duration_ticks, even, monitor_for_point, start_area, start_focused, Crop,
    FrameStep, RecordingHandler, WindowsRecording,
};
use boltsnap::windows::select_skia::{
    check_layered, check_style, rounded_region, screenshot_overlay, selection_cursor,
    surface_bytes, touched_pixels, utility_style, Facts, Rounded, Selector, Touched, LAYERED,
};
use boltsnap::windows::shelf::{
    added, card_extension, card_picture, check_video, clicked, controls_position, hovered,
    instance_name, moved, placeholder, popup_action, present, shelf_position, tray_task,
    video_extension, Click, Drag, Ended, Hit, PopupButton, Press, Shelf, Task, TrayTask,
};
use boltsnap::windows::tray::{
    copy_to_wide, encode_utf16, label, menu, tray_icon, verbs, TrayAction, TrayState, Verb,
};

fn rgba(r: u8, g: u8, b: u8, a: u8) -> Rgba {
    Rgba { r, g, b, a }
}

fn filled_image(width: u32, height: u32, pixel: Rgba) -> Image<Rgba> {
    Image { width, height, pixels: vec![pixel; (width * height) as usize] }
}

fn area(left: i32, top: i32, right: i32, bottom: i32) -> Rect {
    Rect { left, top, right, bottom }
}

/// A place in whole pixels.
fn at(x: i64, y: i64) -> Point {
    Point { x: x * 256, y: y * 256 }
}

/// A part in whole pixels.
fn part(x: i64, y: i64, w: i64, h: i64) -> Part {
    Part { x: x * 256, y: y * 256, w: w * 256, h: h * 256 }
}

#[test]
fn empty_frame_detection_rejects_black_dxgi_frames() {
    let black = filled_image(128, 128, rgba(0, 0, 0, 255));
    assert!(looks_like_empty_frame(&black));

    let mut desktop = black;
    for pixel in desktop.pixels.iter_mut().take(256) {
        *pixel = rgba(32, 48, 64, 255);
    }
    assert!(!looks_like_empty_frame(&desktop));
    assert!(looks_like_empty_frame(&filled_image(0, 5, rgba(9, 9, 9, 9))));
    assert!(!looks_like_empty_frame(&filled_image(3, 3, rgba(5, 0, 0, 255))));
}

#[test]
fn screenshot_shortcut_captures_on_release() {
    assert_eq!(shortcut_arguments(ShortcutAction::Area), ["area", "--instant"]);
    assert_eq!(shortcut_arguments(ShortcutAction::Record), ["record"]);
}

#[test]
fn pipe_name_is_local_and_user_scoped() {
    let text = socket_path(Some("DOMAIN"), Some("user"));
    assert!(text.starts_with(r"\\.\pipe\boltsnap-"));
    assert!(text.len() > r"\\.\pipe\boltsnap-".len());
    assert_eq!(text, r"\\.\pipe\boltsnap-domain-user");
    assert_eq!(socket_path(None, None), r"\\.\pipe\boltsnap--user");
}

#[test]
fn pipe_component_contains_only_safe_ascii() {
    assert_eq!(sanitize_pipe_component("DOMAIN\\A User"), "domain_a_user");
    assert_eq!(sanitize_pipe_component("domain_a_user"), "domain_a_user");
    assert_eq!(sanitize_pipe_component("\u{e4}-9"), "_-9");
}

#[test]
fn wide_copy_truncates_and_terminates() {
    let mut small = vec![0xFFFF_u16; 4];
    copy_to_wide(&mut small, "abcdef");
    assert_eq!(small, [0x61, 0x62, 0x63, 0]);

    let mut roomy = vec![0xFFFF_u16; 8];
    copy_to_wide(&mut roomy, "ok");
    assert_eq!(&roomy[..3], [0x6F, 0x6B, 0]);
}

#[test]
fn fullscreen_drag_includes_last_windows_pixel() {
    let start = selection_cursor(at(0, 0), 1920, 1080);
    let end = selection_cursor(at(1919, 1079), 1920, 1080);
    let selection = Part::from_corners(start, end);
    assert_eq!(selection, part(0, 0, 1920, 1080));
}

#[test]
fn selection_cursor_keeps_interior_coordinates() {
    // The middle of a pixel is at half of its 256 parts.
    let interior = Point { x: 640 * 256 + 128, y: 360 * 256 + 128 };
    assert_eq!(selection_cursor(interior, 1920, 1080), interior);
    assert_eq!(selection_cursor(at(-5, 5000), 1920, 1080), at(0, 1080));
}

#[test]
fn screenshot_overlay_restores_original_inside_and_dims_outside() {
    let base = filled_image(4, 3, rgba(180, 140, 100, 255));
    let touched = touched_pixels(part(1, 1, 2, 1), 4, 3);
    let frame = screenshot_overlay(&base, touched);

    for y in 0..frame.height {
        for x in 0..frame.width {
            if y == 1 && (1..3).contains(&x) {
                assert_eq!(pixel(&frame, x, y), rgba(180, 140, 100, 255));
            } else {
                assert_eq!(pixel(&frame, x, y), rgba(144, 112, 80, 255));
            }
        }
    }
}

#[test]
fn screenshot_overlay_dims_entire_monitor_before_selection() {
    let base = filled_image(1, 1, rgba(180, 140, 100, 255));
    let frame = screenshot_overlay(&base, None);
    assert_eq!(frame.pixels, vec![rgba(144, 112, 80, 255)]);
}

#[test]
fn a_selection_touches_whole_pixels() {
    let selection = Part { x: 300, y: 256, w: 300, h: 512 };
    assert_eq!(
        touched_pixels(selection, 4, 3),
        Some(Touched { x0: 1, y0: 1, x1: 3, y1: 3 })
    );
    assert_eq!(touched_pixels(Part { w: 255, ..selection }, 4, 3), None);
    assert_eq!(touched_pixels(part(9, 9, 2, 2), 4, 3), None);
    let frame = filled_image(1, 1, rgba(1, 2, 3, 4));
    assert_eq!(surface_bytes(&frame, 1, 1), Ok(vec![3, 2, 1, 4]));
    assert_eq!(
        surface_bytes(&frame, 2, 1).unwrap_err(),
        "selector overlay dimensions changed"
    );
}

#[test]
fn shelf_is_anchored_bottom_left_inside_work_area() {
    assert_eq!(shelf_position(area(0, 0, 1920, 1040), 300), (12, 728));
}

#[test]
fn shelf_position_supports_negative_monitor_coordinates() {
    assert_eq!(shelf_position(area(-1920, -40, 0, 1040), 300), (-1908, 728));
}

#[test]
fn a_shelf_that_is_too_high_begins_at_the_top() {
    assert_eq!(shelf_position(area(0, 0, 1920, 200), 300), (12, 12));
    assert_eq!(controls_position(area(100, 50, 500, 400), 200), (200, 74));
    assert_eq!(controls_position(area(0, 0, 101, 400), 200), (-49, 24));
}

#[test]
fn a_style_that_is_set_is_accepted() {
    for no_activate in [false, true] {
        let (style, extended) = utility_style(0xffff_ffff, 0xffff_ffff, no_activate);
        assert!(check_style(style, extended, no_activate).is_ok());
        assert_eq!(
            check_style(style, extended, !no_activate).unwrap_err(),
            "failed to apply borderless Boltsnap utility window style"
        );
    }
    assert_eq!(utility_style(0x00cf_0000, 0, false), (0x8000_0000, 0x80));
    assert!(check_layered(LAYERED).is_ok());
    assert_eq!(
        check_layered(0x1c0).unwrap_err(),
        "selector overlay window is not layered (extended style 0x1c0)"
    );
    assert_eq!(
        rounded_region((10, 20, 100, 30), 18),
        Some(Rounded { left: 10, top: 20, right: 111, bottom: 51, diameter: 30 })
    );
    assert_eq!(rounded_region((0, 0, 1, 1), 18).unwrap().diameter, 2);
    assert_eq!(rounded_region((u32::MAX, 0, 1, 1), 18), None);
}

fn facts(region: Region) -> Facts {
    Facts {
        audio: false,
        record: false,
        region,
        resized: part(1, 2, 30, 40),
        moved: part(5, 6, 70, 80),
    }
}

fn drawn(selector: &mut Selector) {
    let outside = facts(Region::Outside);
    selector.moved(at(110, 120), outside);
    selector.press(outside);
    selector.moved(at(10, 20), outside);
    selector.release();
}

#[test]
fn a_part_is_drawn_changed_and_confirmed() {
    let mut selector = Selector::new(1920, 1080, false, false, false, false);
    drawn(&mut selector);
    assert_eq!(selector.mode, Mode::Editing { rect: part(10, 20, 100, 100) });
    assert_eq!(selector.selection(), Some(part(10, 20, 100, 100)));
    let inside = facts(Region::Inside);
    selector.moved(at(50, 50), inside);
    selector.press(inside);
    selector.moved(at(53, 53), inside);
    assert_eq!(selector.interaction, Some(Interaction::ClickInside { press: at(50, 50) }));
    selector.release();
    assert_eq!(selector.result, Some(part(10, 20, 100, 100)));
    selector.result = None;
    selector.moved(at(50, 50), inside);
    selector.press(inside);
    selector.moved(at(54, 50), inside);
    assert_eq!(selector.interaction, Some(Interaction::Move { grab: at(40, 30) }));
    selector.moved(at(60, 50), inside);
    selector.release();
    assert_eq!((selector.result, selector.selection()), (None, Some(part(5, 6, 70, 80))));
    let handle = Handle { left: true, right: false, top: false, bottom: false };
    let held = facts(Region::Handle(handle));
    selector.press(held);
    selector.moved(at(1, 50), held);
    assert_eq!(selector.selection(), Some(part(1, 2, 30, 40)));
    selector.enter();
    assert_eq!(selector.result, Some(part(1, 2, 30, 40)));
}

#[test]
fn a_tiny_part_is_not_confirmed() {
    let mut selector = Selector::new(1920, 1080, true, true, false, true);
    selector.confirm(part(0, 0, 3, 100));
    assert_eq!((selector.result, selector.mode), (None, Mode::Idle));
    drawn(&mut selector);
    assert_eq!(selector.result, Some(part(10, 20, 100, 100)));
    let mut recorder = Selector::new(1920, 1080, false, true, false, true);
    drawn(&mut recorder);
    recorder.press(Facts { audio: true, ..facts(Region::Inside) });
    assert!(!recorder.audio_enabled);
    assert_eq!(recorder.result, None);
    recorder.press(Facts { record: true, ..facts(Region::Inside) });
    assert_eq!(recorder.result, Some(part(10, 20, 100, 100)));
}

#[test]
fn sound_is_mixed_within_its_range() {
    assert_eq!(sources(RecordAudioSource::SystemAndMic), (true, true));
    assert_eq!(sources(RecordAudioSource::Mic), (false, true));
    assert_eq!(sources(RecordAudioSource::System), (true, false));
    assert_eq!(sample_at(Some(&[1, 0, 0xff, 0xff]), 2), -1);
    assert_eq!(sample_at(Some(&[1, 0, 0xff]), 2), 0);
    assert_eq!(sample_at(None, 0), 0);
    let chunk = |samples: &[i16]| {
        let mut bytes: Vec<u8> = samples.iter().flat_map(|sample| sample.to_le_bytes()).collect();
        bytes.resize(CHUNK_BYTES, 0);
        bytes
    };
    let a = chunk(&[100, 32_000, -32_000, -5]);
    let b = chunk(&[-30, 32_000, -32_000, 5]);
    let mixed = mix(Some(&a), Some(&b)).unwrap();
    assert_eq!(mixed, chunk(&[70, i16::MAX, i16::MIN, 0]));
    assert_eq!(mix(Some(&b), Some(&a)).unwrap(), mixed);
    assert_eq!(mix(Some(&a), None).unwrap(), a);
    assert_eq!(mix(None, None), None);
    let samples = vec![7; 2 * CHUNK_BYTES + 3];
    let (chunks, rest) = take_chunks(&samples);
    assert_eq!((chunks.len(), rest.len()), (2, 3));
    assert!(chunks.iter().all(|chunk| chunk.len() == CHUNK_BYTES));
    assert!(stop(&vec![ThreadEnd::Done]).is_ok());
    assert_eq!(
        stop(&vec![ThreadEnd::Done, ThreadEnd::Panicked, ThreadEnd::Failed("x".into())])
            .unwrap_err(),
        "Windows audio thread panicked"
    );
    assert_eq!(stop(&vec![ThreadEnd::Failed("x".into())]).unwrap_err(), "x");
}

#[test]
fn a_task_starts_the_daemon() {
    assert_eq!(launcher(r"C:\b", true), Ok(r"C:\b\boltsnap-background.exe".to_string()));
    assert_eq!(
        launcher(r"C:\b", false).unwrap_err(),
        r"Boltsnap background launcher is missing: C:\b\boltsnap-background.exe"
    );
    assert_eq!(
        powershell_path(None),
        r"C:\Windows\System32\WindowsPowerShell\v1.0\powershell.exe"
    );
    assert_eq!(
        powershell_args("go"),
        ["-NoLogo", "-NoProfile", "-NonInteractive", "-ExecutionPolicy", "Bypass", "-Command", "go"]
    );
    assert!(ensure_success("x", true, b"", b"").is_ok());
    assert_eq!(ensure_success("go", false, b"out\n", b" \n").unwrap_err(), "could not go: out");
    assert_eq!(ensure_success("go", false, b"out", b"bad\n").unwrap_err(), "could not go: bad");
    assert_eq!(started(true, false), Some(Ok(())));
    assert_eq!(started(false, false), None);
    assert!(started(true, true).unwrap().is_err());
    assert_eq!(daemon_path(r"C:\b"), r"C:\b\boltsnap.exe");
    assert_eq!(exit_code(Some(Some(3))), 3);
    assert_eq!(exit_code(Some(None)), 1);
    assert_eq!(exit_code(None), 1);
    assert_eq!(TASK_NAME, "Boltsnap Daemon");
    assert!(INSTALL_SCRIPT.contains("Register-ScheduledTask"));
    assert!(REMOVE_SCRIPT.contains("Unregister-ScheduledTask"));
}

#[test]
fn a_rectangle_has_a_size() {
    assert_eq!(valid_rect(area(0, 0, 1, 1)), Ok(area(0, 0, 1, 1)));
    let wide = area(i32::MIN, 0, i32::MAX, 1);
    assert_eq!(valid_rect(wide), Ok(wide));
    assert_eq!(
        valid_rect(area(3, -4, 3, 5)).unwrap_err(),
        "invalid capture rectangle 3,-4 0x9"
    );
    assert_eq!(virtual_screen_rect(-10, 0, 30, 20), Ok(area(-10, 0, 20, 20)));
    assert!(virtual_screen_rect(0, 0, 0, 20).is_err());
    assert_eq!(
        intersect(area(0, 0, 10, 10), area(5, -5, 20, 5)),
        Some(area(5, 0, 10, 5))
    );
    assert_eq!(intersect(area(0, 0, 10, 10), area(10, 0, 20, 10)), None);
}

#[test]
fn monitors_make_up_the_desktop() {
    let mut desktop = Desktop::new(area(-1, 0, 1, 1)).ok().unwrap();
    assert_eq!(desktop.needed(area(5, 5, 6, 6)), None);
    desktop.place(area(-2, 0, 0, 1), &Image {
        width: 2,
        height: 1,
        pixels: vec![rgba(1, 1, 1, 255), rgba(2, 2, 2, 255)],
    });
    assert_eq!(desktop.covered, 1);
    desktop.place(area(0, 0, 1, 1), &filled_image(1, 1, rgba(3, 3, 3, 255)));
    let image = desktop.finish().unwrap();
    assert_eq!(image.pixels, vec![rgba(2, 2, 2, 255), rgba(3, 3, 3, 255)]);
    let partial = Desktop::new(area(0, 0, 2, 2)).ok().unwrap();
    assert_eq!(partial.finish().unwrap_err(), "DXGI covered 0 of 4 requested pixels");
    assert!(Desktop::new(area(0, 0, 0, 2)).is_err());
}

#[test]
fn a_frame_is_opaque() {
    let image = opaque_image(&[1, 2, 3, 4], true, 1, 1).unwrap();
    assert_eq!(image.pixels, vec![rgba(3, 2, 1, 255)]);
    assert!(opaque_image(&[1, 2, 3], false, 1, 1).is_none());
    assert_eq!(
        monitor_image(Format::Rgba8, &[1, 2, 3, 4], 1, 1).unwrap().pixels,
        vec![rgba(1, 2, 3, 255)]
    );
    assert_eq!(
        monitor_image(Format::Bgra8Srgb, &[1, 2, 3, 4], 1, 1).unwrap().pixels,
        vec![rgba(3, 2, 1, 255)]
    );
    assert_eq!(
        monitor_image(Format::Bgra8, &[1], 1, 1).unwrap_err(),
        "could not construct DXGI monitor image"
    );
    assert_eq!(
        monitor_image(Format::Other("R16".into()), &[], 1, 1).unwrap_err(),
        "unsupported DXGI desktop format R16"
    );
}

#[test]
fn a_capture_falls_back() {
    let good = filled_image(2, 2, rgba(90, 90, 90, 255));
    let dark = filled_image(2, 2, rgba(0, 0, 0, 255));
    assert!(!needs_fallback(&Ok(good.clone())));
    assert!(needs_fallback(&Ok(dark.clone())));
    assert!(needs_fallback(&Err("x".into())));
    assert_eq!(capture_rect(Err("x".into()), Ok(good.clone())), Ok(good.clone()));
    assert_eq!(capture_rect(Ok(dark.clone()), Err("y".into())), Ok(dark.clone()));
    assert_eq!(capture_rect(Ok(dark.clone()), Ok(good.clone())), Ok(good.clone()));
    assert_eq!(capture_rect(Ok(good.clone()), Ok(dark)), Ok(good.clone()));
    assert_eq!(
        capture_rect(Err("x".into()), Err("y".into())).unwrap_err(),
        "DXGI capture failed (x); GDI fallback failed (y)"
    );
    let other = filled_image(2, 2, rgba(80, 80, 80, 255));
    assert_eq!(capture_window(Ok(good.clone()), Ok(Ok(other))), Ok(good.clone()));
    assert_eq!(capture_window(Err("x".into()), Ok(Ok(good.clone()))), Ok(good));
    assert_eq!(capture_window(Err("x".into()), Err("z".into())).unwrap_err(), "z");
    assert_eq!(found_window(Some(7), true), Ok(7));
    assert_eq!(found_window(None, true).unwrap_err(), "no window found under the pointer");
    assert_eq!(found_window(None, false).unwrap_err(), "no active Windows window available");
    assert_eq!(
        capture_window(Err("x".into()), Ok(Err("y".into()))).unwrap_err(),
        "WGC failed (x); GDI fallback failed (y)"
    );
    assert!(check_backend(Backend::Windows).is_ok());
    assert_eq!(
        check_backend(Backend::X11).unwrap_err(),
        "backend x11 is unavailable on Windows"
    );
    assert!(check_written("a.png", Some(1)).is_ok());
    assert_eq!(check_written("a.png", Some(0)).unwrap_err(), "capture did not create a.png");
    assert!(check_written("a.png", None).is_err());
}

#[test]
fn a_border_of_one_colour_is_cut_off() {
    let mut image = filled_image(40, 36, rgba(7, 7, 7, 255));
    for y in 3..33 {
        for x in 3..37 {
            image.pixels[(y * 40 + x) as usize] = rgba(x as u8, y as u8, 99, 255);
        }
    }
    assert_eq!(strip_uniform_border(&image), Some(crop(&image, 3, 3, 34, 30)));
    image.pixels[0] = rgba(8, 7, 7, 255);
    assert_eq!(strip_uniform_border(&image), None);
    assert_eq!(strip_uniform_border(&filled_image(31, 40, rgba(1, 1, 1, 1))), None);
}

#[test]
fn a_file_is_put_on_the_clipboard() {
    let bytes = drop_files(&vec![0x61, 0xf600]);
    assert_eq!(bytes.len(), 20 + 4 + 4);
    assert_eq!(&bytes[..4], [20, 0, 0, 0]);
    assert_eq!(&bytes[16..], [1, 0, 0, 0, 0x61, 0, 0, 0xf6, 0, 0, 0, 0]);
    assert_eq!(opened(0, true), Some(Ok(())));
    assert_eq!(opened(0, false), None);
    assert_eq!(
        opened(OPEN_ATTEMPTS - 1, false),
        Some(Err("open Windows clipboard for file reference failed".to_string()))
    );
    assert!(filled(Ok(()), Ok(())).is_ok());
    assert_eq!(
        filled(Err("x".into()), Ok(())).unwrap_err(),
        "empty Windows clipboard: x"
    );
    assert_eq!(
        filled(Ok(()), Err("y".into())).unwrap_err(),
        "set Windows file clipboard: y"
    );
    assert!(serve_wayland_clipboard().is_err());
    assert!(serve_wayland_uri_list().is_err());
    assert_eq!(default_record_codec(), "h264");
}

#[test]
fn a_shortcut_is_taken_from_the_keyboard() {
    let launched = Handled { blocked: true, launch: Some(ShortcutAction::Area) };
    let kept = Handled { blocked: true, launch: None };
    let passed = Handled { blocked: false, launch: None };
    let mut keyboard = Keyboard::new();
    assert_eq!(keyboard.keyboard_hook(Key::PrintScreen, true), launched);
    assert_eq!(keyboard.keyboard_hook(Key::PrintScreen, true), kept);
    assert_eq!(keyboard.keyboard_hook(Key::PrintScreen, false), kept);
    assert_eq!(keyboard.keyboard_hook(Key::PrintScreen, false), passed);
    assert_eq!(keyboard.keyboard_hook(Key::S, true), passed);
    assert_eq!(keyboard.keyboard_hook(Key::S, false), passed);
    assert_eq!(keyboard.keyboard_hook(Key::RightWin, true), passed);
    assert_eq!(keyboard.keyboard_hook(Key::S, true), passed);
    assert_eq!(keyboard.keyboard_hook(Key::Shift, true), passed);
    assert_eq!(keyboard.keyboard_hook(Key::S, true), launched);
    assert_eq!(keyboard.keyboard_hook(Key::S, true), kept);
    assert_eq!(keyboard.keyboard_hook(Key::Shift, false), passed);
    assert_eq!(keyboard.keyboard_hook(Key::S, false), kept);
    assert_eq!(keyboard.keyboard_hook(Key::Other, true), passed);
    assert_eq!(key_of(0x2c), Key::PrintScreen);
    assert_eq!(key_of(0x53), Key::S);
    assert_eq!(key_of(0x54), Key::Other);
    assert_eq!(goes_down(0x104), Some(true));
    assert_eq!(goes_down(0x101), Some(false));
    assert_eq!(goes_down(0x102), None);
}

#[test]
fn the_daemon_is_reached_over_its_pipe() {
    assert_eq!(ensure_daemon(Reaching::First, false), Reaching::Spawn);
    assert_eq!(ensure_daemon(Reaching::Spawn, true), Reaching::Again(0));
    assert_eq!(ensure_daemon(Reaching::Again(0), true), Reaching::Connected);
    assert_eq!(
        ensure_daemon(Reaching::Again(DAEMON_ATTEMPTS - 1), false),
        Reaching::TimedOut
    );
    assert_eq!(unreachable_daemon().kind, ErrorKind::TimedOut);
    assert_eq!(watch_recording().kind, ErrorKind::Unsupported);
}

fn folders() -> Folders {
    Folders {
        profile: Some(r"C:\Users\bolt".into()),
        user_profile: None,
        roaming: None,
        local: None,
        pictures: None,
        videos: None,
        temp_dir: r"C:\Temp".into(),
    }
}

#[test]
fn files_lie_in_the_folders_of_the_user() {
    let folders = folders();
    assert_eq!(folders.home_dir(), r"C:\Users\bolt");
    assert_eq!(folders.config_dir(), r"C:\Users\bolt\AppData\Roaming\boltsnap");
    assert_eq!(folders.cache_dir(), r"C:\Temp\boltsnap\cache");
    assert_eq!(folders.last_pointer_path(), r"C:\Temp\boltsnap\cache\last.txt");
    assert_eq!(folders.default_screenshot_dir(), r"C:\Users\bolt\Pictures\Boltsnap");
    assert_eq!(folders.default_recording_dir(), r"C:\Users\bolt\Videos\Boltsnap");
    assert_eq!(folders.rec_dir(), r"C:\Temp\boltsnap\cache\recordings");
    assert_eq!(
        folders.default_save_path("now"),
        r"C:\Users\bolt\Pictures\Boltsnap\boltsnap-now.png"
    );
    assert_eq!(folders.target_path(None, false, "now"), r"C:\Temp\boltsnap\cache\last.png");
    assert_eq!(folders.target_path(Some("a.png"), true, "now"), "a.png");
    assert_eq!(
        folders.edit_output_path(None, false, "now"),
        r"C:\Temp\boltsnap\cache\last-edited.png"
    );
    assert_eq!(
        folders.last_screenshot_path(Some(" C:\\a.png\r\n"), true, false),
        Ok(r"C:\a.png".to_string())
    );
    assert_eq!(
        folders.last_screenshot_path(Some("x"), false, true),
        Ok(r"C:\Temp\boltsnap\cache\last.png".to_string())
    );
    assert!(folders.last_screenshot_path(None, true, false).is_err());
    let nobody = Folders { profile: None, ..folders };
    assert_eq!(nobody.home_dir(), ".");
    assert_eq!(join("C:/", "a"), "C:/a");
}

#[test]
fn names_of_files_do_not_collide() {
    assert_eq!(file_name("card", "mp4", 1, 2, 3), "boltsnap-card-1-2-3.mp4");
    assert_eq!(temp_file(r"C:\t", "card", "mp4", 1, 2, 3), r"C:\t\boltsnap-card-1-2-3.mp4");
    assert_eq!(temp_png(r"C:\t", "card", 1, 2, 3), r"C:\t\boltsnap-card-1-2-3.png");
    assert!(is_orphan(&file_name("card", "mp4", 1, 2, 3)));
    assert!(!is_orphan("other-card"));
    assert!(ensure_file("a", true).is_ok());
    assert_eq!(ensure_file("a", false).unwrap_err(), "file not found: a");
    assert_eq!(sanitize_recording_output(r"\\.\DISPLAY 1!"), "DISPLAY-1");
    let files: Vec<String> = vec![
        r"C:\v\boltsnap-now-DP-1.mp4".into(),
        r"C:\v\boltsnap-now-DP-1-1.mp4".into(),
        r"C:\v\boltsnap-now.png".into(),
    ];
    assert_eq!(
        unique_recording_path(r"C:\v", Some("DP 1"), "now", &files),
        r"C:\v\boltsnap-now-DP-1-2.mp4"
    );
    assert_eq!(
        unique_recording_path(r"C:\v", None, "now", &files),
        r"C:\v\boltsnap-now.mp4"
    );
    assert_eq!(unique_path(r"C:\v", "png", "now", &files), r"C:\v\boltsnap-now-1.png");
    assert_eq!(
        command_candidates("ff", &vec![r"C:\a".into()], &vec![".exe".into(), ".cmd".into()]),
        [r"C:\a\ff", r"C:\a\ff.exe", r"C:\a\ff.cmd"]
    );
    assert_eq!(bundled_editor(r"C:\b"), r"C:\b\Eddy\eddy.exe");
    let time = LocalTime { year: 2024, month: 3, day: 7, hour: 9, minute: 5, second: 59 };
    assert_eq!(local_timestamp(time), "2024-03-07_09-05-59");
}

#[test]
fn a_recording_is_even() {
    assert_eq!((even(7), even(8), even(0)), (6, 8, 0));
    assert_eq!(duration_ticks(12_345), 123);
    let monitors = vec![area(-100, 0, 0, 50), area(0, 0, 200, 100)];
    assert_eq!(monitor_for_point(&monitors, -1, 10), Ok(0));
    assert_eq!(
        monitor_for_point(&monitors, -1, 60).unwrap_err(),
        "no monitor contains recording origin -1,60"
    );
    assert_eq!(
        start_area(&monitors, -11, 5, 301, 21),
        Ok((0, Crop { left: 89, top: 5, right: 99, bottom: 25 }))
    );
    assert_eq!(
        start_area(&monitors, -1, 5, 301, 21).unwrap_err(),
        "recording selection is outside the selected monitor"
    );
    assert_eq!(start_focused(&monitors, area(0, 0, 201, 101)), Ok((1, 200, 100)));
    assert!(start_focused(&monitors, area(500, 0, 600, 50)).is_err());
}

#[test]
fn a_pause_is_left_out_of_the_video() {
    let mut handler = RecordingHandler::new();
    assert_eq!(handler.on_frame_arrived(50), FrameStep::Encode { timestamp: 50 });
    handler.set_paused(true, 1_000);
    assert_eq!(handler.on_frame_arrived(60), FrameStep::DropSound);
    handler.set_paused(true, 2_000);
    handler.set_paused(false, 4_000);
    assert_eq!(handler.on_frame_arrived(100), FrameStep::Encode { timestamp: 70 });
    assert!(handler.finish());
    assert!(!handler.finish());
    assert_eq!(handler.on_frame_arrived(100), FrameStep::Nothing);
    let picture = [1, 2, 3, 4, 5, 6, 7, 8];
    let flipped = bottom_up(&picture, 1, 2);
    assert_eq!(flipped, [5, 6, 7, 8, 1, 2, 3, 4]);
    assert_eq!(bottom_up(&flipped, 1, 2), picture);
}

const SECOND: u128 = 1_000_000_000;

#[test]
fn a_recording_counts_its_time_without_pauses() {
    let mut recording = WindowsRecording::start("a.mp4".into(), "area", SECOND);
    assert_eq!(recording.snapshot(3 * SECOND).elapsed_ms, 2_000);
    assert_eq!(recording.resume(SECOND).unwrap_err(), "recording is not paused");
    assert!(recording.pause(3 * SECOND).is_ok());
    assert_eq!(recording.pause(3 * SECOND).unwrap_err(), "recording is not active");
    assert_eq!(recording.snapshot(9 * SECOND).elapsed_ms, 2_000);
    assert_eq!(recording.snapshot(9 * SECOND).state, PublicRecordingState::Paused);
    assert!(recording.resume(9 * SECOND).is_ok());
    assert_eq!(recording.snapshot(10 * SECOND).elapsed_ms, 3_000);
    assert_eq!(recording.finish(Ok(()), Ok(()), Ok(()), Some(5)), Ok("a.mp4".to_string()));
    let finish = |sound: Result<(), String>, encoded: Result<(), String>, length: Option<u64>| {
        WindowsRecording::start("a.mp4".into(), "area", 0)
            .finish(sound, encoded, Ok(()), length)
            .unwrap_err()
    };
    assert_eq!(finish(Err("s".into()), Ok(()), Some(5)), "s");
    assert_eq!(
        finish(Ok(()), Err("e".into()), Some(5)),
        "failed to finalize Windows recording: e"
    );
    assert_eq!(finish(Ok(()), Ok(()), Some(0)), "Media Foundation did not create a recording");
    assert_eq!(finish(Ok(()), Ok(()), None), "Media Foundation did not create a recording");
}

fn answer(task: Task) -> Response {
    match task {
        Task::Answer(response) => response,
        _ => panic!("no answer"),
    }
}

fn start_request() -> Request {
    Request::StartRecording {
        x: 1,
        y: 2,
        w: 3,
        h: 4,
        show_frame: false,
        audio_enabled: true,
    }
}

#[test]
fn one_recording_at_a_time() {
    let mut shelf = Shelf::new();
    assert!(answer(shelf.handle_request(Request::Ping, 0)).ok);
    let idle = answer(shelf.handle_request(Request::RecordingStatus, 0)).snapshot.unwrap();
    assert_eq!(idle.state, PublicRecordingState::Idle);
    assert!(matches!(
        shelf.handle_request(start_request(), 0),
        Task::StartArea { x: 1, y: 2, w: 3, h: 4, audio_enabled: true }
    ));
    assert!(matches!(
        shelf.handle_request(Request::StartDefaultRecording, 0),
        Task::StartFocused
    ));
    assert_eq!(shelf.started(Err("no".into()), 0).error.as_deref(), Some("no"));
    shelf.window = true;
    let recording = WindowsRecording::start("a.mp4".into(), "area", 0);
    assert!(shelf.started(Ok(recording), 0).ok);
    assert!(shelf.shows_recording());
    for request in [start_request(), Request::StartDefaultRecording] {
        assert_eq!(
            answer(shelf.handle_request(request, 0)).error.as_deref(),
            Some("a recording is already in progress")
        );
    }
    let control = |action: RecordingAction| Request::RecordingControl { action };
    let paused = answer(shelf.handle_request(control(RecordingAction::Pause), SECOND));
    assert_eq!(paused.snapshot.unwrap().state, PublicRecordingState::Paused);
    assert_eq!(
        answer(shelf.handle_request(control(RecordingAction::Pause), SECOND)).error.as_deref(),
        Some("recording is not active")
    );
    let resumed = answer(shelf.handle_request(control(RecordingAction::Resume), 2 * SECOND));
    assert_eq!(resumed.snapshot.unwrap().elapsed_ms, 1_000);
    assert_eq!(shelf.wait(true), Some(250));
    assert_eq!(shelf.native_regions((9, 8), &vec![(1, 2, 3, 4)]), vec![(0, 0, 9, 8)]);
    match shelf.handle_request(Request::StopRecording, 3 * SECOND) {
        Task::Finish { recording, action } => {
            assert_eq!(recording.output, "a.mp4");
            assert_eq!(action, RecordingAction::SaveShelf);
        }
        _ => panic!("not finished"),
    }
    assert_eq!(
        answer(shelf.handle_request(Request::StopRecording, 0)).error.as_deref(),
        Some("no recording is active")
    );
    assert_eq!(
        answer(shelf.handle_request(Request::ShowRecordingControls, 0)).error.as_deref(),
        Some("no recording is active")
    );
    assert!(matches!(
        shelf.finished(RecordingAction::SaveShelf, Ok("a.mp4".into())),
        Ended::AddVideo(path) if path == "a.mp4"
    ));
    assert!(!shelf.controls);
    assert!(matches!(
        shelf.finished(RecordingAction::SaveDisk, Ok("a.mp4".into())),
        Ended::Move(_)
    ));
    assert!(matches!(
        shelf.finished(RecordingAction::Discard, Ok("a.mp4".into())),
        Ended::Remove(_)
    ));
    assert!(matches!(
        shelf.finished(RecordingAction::SaveDisk, Err("x".into())),
        Ended::Answer(response) if response.error.as_deref() == Some("x")
    ));
    assert!(shelf.stored(Ok(()), 0).ok);
    assert_eq!(shelf.removed(0), shelf.stored(Ok(()), 0));
    assert_eq!(shelf.canvas_size((300, 60), (0, 40)), (1, 40));
    assert_eq!(shelf.stored(Err("y".into()), 0).error.as_deref(), Some("y"));
    assert_eq!(shelf.wait(true), Some(500));
    assert_eq!(shelf.wait(false), None);
    assert_eq!(shelf.native_regions((9, 8), &vec![(1, 2, 3, 4)]), vec![(1, 2, 3, 4)]);
    assert_eq!(
        answer(shelf.handle_request(Request::RecordingWatch, 0)).error.as_deref(),
        Some("recording watch streaming is not connected on Windows yet")
    );
    let (answered, added_path) = moved(Ok("b".into()), true);
    assert_eq!(answered.path.as_deref(), Some("b"));
    assert_eq!(added_path.as_deref(), Some("b"));
    assert_eq!(moved(Ok("b".into()), false), (answered, None));
    let (answered, added_path) = moved(Err("z".into()), true);
    assert_eq!(answered.error.as_deref(), Some("z"));
    assert_eq!(added_path, None);
    assert!(added(Ok(())).ok);
}

#[test]
fn cards_are_shown_on_the_shelf() {
    assert_eq!(instance_name(Some("bolt")), r"Local\BoltsnapShelf-bolt");
    assert_eq!(instance_name(None), r"Local\BoltsnapShelf-user");
    assert!(check_video(Some(1)).is_ok());
    assert!(check_video(Some(0)).is_err());
    assert!(check_video(None).is_err());
    assert!(!card_picture(b"nothing").unwrap_err().is_empty());
    let stripes = placeholder(30, 2);
    assert_eq!(pixel(&stripes, 0, 0), rgba(24, 24, 32, 255));
    assert_eq!(pixel(&stripes, 23, 1), rgba(24, 24, 32, 255));
    assert_eq!(pixel(&stripes, 23, 0), rgba(47, 47, 55, 255));
    assert_eq!(present(&vec![1, 2, 3, 255, 0, 0, 0, 0]), vec![0x0003_0201, 0x0014_1414]);
    assert_eq!(
        popup_action(PopupButton::PauseResume, PublicRecordingState::Paused),
        RecordingAction::Resume
    );
    assert_eq!(
        popup_action(PopupButton::PauseResume, PublicRecordingState::Recording),
        RecordingAction::Pause
    );
    assert_eq!(
        popup_action(PopupButton::Discard, PublicRecordingState::Paused),
        RecordingAction::Discard
    );
    let mut press = Press::new();
    press.pressed(Some(Hit::Body(7)), true);
    assert_eq!(press.moved(Drag::Begin), None);
    press.pressed(Some(Hit::Save(7)), false);
    assert_eq!(press.moved(Drag::Begin), None);
    press.pressed(Some(Hit::Body(7)), false);
    assert_eq!(press.moved(Drag::Wait), None);
    assert_eq!(press.moved(Drag::Begin), Some(7));
    assert!(!press.released());
    assert!(press.released());
}

#[test]
fn the_tray_has_a_menu() {
    assert!(matches!(
        tray_task(TrayAction::RecordFull),
        TrayTask::Spawn(words) if words == ["record", "full"]
    ));
    assert!(matches!(
        tray_task(TrayAction::CaptureArea),
        TrayTask::Spawn(words) if words == ["area"]
    ));
    assert!(matches!(tray_task(TrayAction::ShowRecordingControls), TrayTask::ShowControls));
    assert!(matches!(tray_task(TrayAction::Quit), TrayTask::Quit));
    let state = TrayState {
        capture_area: "1".into(),
        capture_full: "2".into(),
        record_area: "3".into(),
        record_full: "4".into(),
        show_recording_controls: "5".into(),
        quit: "6".into(),
    };
    assert_eq!(state.action("4"), Some(TrayAction::RecordFull));
    assert_eq!(state.action("9"), None);
    let entries = menu();
    assert_eq!(entries.iter().flatten().count(), 6);
    assert!(entries.iter().flatten().all(|action| !label(*action).is_empty()));
    assert_eq!(verbs(false), (Verb::Add, Verb::Modify));
    assert_eq!(verbs(true), (Verb::Modify, Verb::Add));
    assert_eq!(
        encode_utf16("a\u{1f600}"),
        "a\u{1f600}".encode_utf16().collect::<Vec<u16>>()
    );
    assert!(tray_icon(b"nothing").is_err());
}

#[test]
fn a_card_answers_the_pointer() {
    for hit in [Hit::Body(4), Hit::Save(4), Hit::Close(4)] {
        assert_eq!(hovered(Some(hit), false, Some(9)), Some(4));
        assert_eq!(hovered(Some(hit), true, Some(9)), Some(9));
    }
    assert_eq!(hovered(None, false, Some(9)), None);
    assert_eq!(clicked(Some(Hit::Body(4)), false, false), Some(Click::Copy(4)));
    assert_eq!(clicked(Some(Hit::Save(4)), false, false), Some(Click::Save(4)));
    assert_eq!(clicked(Some(Hit::Close(4)), false, false), Some(Click::Remove(4)));
    assert_eq!(clicked(Some(Hit::Body(4)), true, false), Some(Click::Copy(4)));
    assert_eq!(clicked(Some(Hit::Save(4)), true, false), None);
    assert_eq!(clicked(Some(Hit::Close(4)), true, false), None);
    assert_eq!(clicked(None, false, false), None);
    assert_eq!(clicked(Some(Hit::Body(4)), false, true), None);
    assert_eq!(clicked(Some(Hit::Close(4)), false, true), None);
}

#[test]
fn a_saved_card_keeps_its_extension() {
    assert_eq!(card_extension("shelf-1.2.mp4"), "mp4");
    assert_eq!(card_extension("shelf."), "");
    assert_eq!(card_extension(".shelf"), "png");
    assert_eq!(card_extension("shelf"), "png");
    assert_eq!(video_extension("clip.webm"), "webm");
    assert_eq!(video_extension("clip"), "mp4");
    assert_eq!(video_extension(".clip"), "mp4");
    assert_eq!(video_extension(".."), "mp4");
    assert_eq!(video_extension("clip."), "");
}
