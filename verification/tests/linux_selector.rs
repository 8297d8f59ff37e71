use boltsnap::linux::ipc::{
    ensure_daemon, socket_path, systemd_start_args, unreachable_daemon, Reaching, DAEMON_ATTEMPTS,
};
use boltsnap::linux::select_skia::{
    base_is_stale, check_layout, choose_output, configured_size, contains, no_clip_message,
    record_control_hit, target_layout_valid, Confirmed, DrawPlan, Facts, Layout, Outcome, Pace,
    Placement, PointerKind, RecordControlHit, Scene, Selector, Slots, MAX_SLOTS,
};
use boltsnap::paths::Environment;
use boltsnap::protocol::ErrorKind;
use boltsnap::selector::{move_target, Handle, Interaction, Mode, Point, Rect, Region};

/// A place in whole pixels.
fn at(x: i64, y: i64) -> Point {
    Point { x: x * 256, y: y * 256 }
}

/// A part in whole pixels.
fn rect(x: i64, y: i64, w: i64, h: i64) -> Rect {
    Rect { x: x * 256, y: y * 256, w: w * 256, h: h * 256 }
}

fn facts(hit: Option<RecordControlHit>, region: Region) -> Facts {
    Facts { previous: None, hit, region, resized: rect(1, 2, 30, 40), moved: rect(5, 6, 70, 80) }
}

fn outside() -> Facts {
    facts(None, Region::Outside)
}

fn drawn(selector: &mut Selector) -> Outcome {
    selector.pointer_frame(PointerKind::Press, at(110, 120), outside(), false);
    selector.pointer_frame(PointerKind::Motion, at(10, 20), outside(), false);
    selector.pointer_frame(PointerKind::Release, at(10, 20), outside(), false)
}

#[test]
fn audio_control_hit_does_not_confirm() {
    assert_eq!(
        record_control_hit(false, false, false, true, true),
        Some(RecordControlHit::Audio)
    );
    assert_eq!(
        record_control_hit(false, false, false, false, true),
        Some(RecordControlHit::Background)
    );
    let mut selector = Selector::new(false, true, false, true, false, false);
    drawn(&mut selector);
    let audio = facts(Some(RecordControlHit::Audio), Region::Inside);
    assert_eq!(
        selector.pointer_frame(PointerKind::Press, at(50, 50), audio, false),
        Outcome::Redraw
    );
    assert!(!selector.audio_enabled);
    assert!(!selector.done);
    let background = facts(Some(RecordControlHit::Background), Region::Inside);
    assert_eq!(
        selector.pointer_frame(PointerKind::Press, at(50, 50), background, false),
        Outcome::Nothing
    );
    assert_eq!(record_control_hit(false, false, false, false, false), None);
    assert_eq!(
        record_control_hit(true, true, true, true, true),
        Some(RecordControlHit::Record)
    );
}

#[test]
fn a_part_has_its_left_and_upper_edge() {
    assert!(contains(rect(1, 1, 2, 2), at(1, 1)));
    assert!(!contains(rect(1, 1, 2, 2), at(3, 1)));
    assert!(!contains(rect(1, 1, 2, 2), at(1, 3)));
    assert!(!contains(rect(1, 1, 2, 2), at(0, 1)));
}

#[test]
fn a_part_that_is_drawn_is_selected() {
    let mut selector = Selector::new(false, false, false, false, false, true);
    assert_eq!(drawn(&mut selector), Outcome::Next { redraw: true });
    assert_eq!(selector.mode, Mode::Editing { rect: rect(10, 20, 100, 100) });
    assert_eq!(selector.selection(), Some(rect(10, 20, 100, 100)));
    assert_eq!(selector.key_confirms(), Some(rect(10, 20, 100, 100)));
    let mut instant = Selector::new(true, false, false, false, false, true);
    assert_eq!(drawn(&mut instant), Outcome::Confirm(rect(10, 20, 100, 100)));
}

#[test]
fn a_click_draws_nothing() {
    let mut selector = Selector::new(true, false, false, false, false, true);
    selector.pointer_frame(PointerKind::Press, at(10, 10), outside(), false);
    selector.pointer_frame(PointerKind::Motion, at(13, 200), outside(), false);
    assert_eq!(
        selector.pointer_frame(PointerKind::Release, at(13, 200), outside(), false),
        Outcome::Next { redraw: true }
    );
    assert_eq!(selector.mode, Mode::Idle);
    assert_eq!(selector.selection(), None);
}

#[test]
fn a_click_inside_confirms_though_it_trembles() {
    let mut selector = Selector::new(false, false, false, false, false, true);
    drawn(&mut selector);
    let inside = facts(None, Region::Inside);
    selector.pointer_frame(PointerKind::Press, at(50, 50), inside, false);
    selector.pointer_frame(PointerKind::Motion, at(53, 50), inside, false);
    assert_eq!(
        selector.pointer_frame(PointerKind::Release, at(53, 50), inside, false),
        Outcome::Confirm(rect(10, 20, 100, 100))
    );
    selector.pointer_frame(PointerKind::Press, at(50, 50), inside, false);
    selector.pointer_frame(PointerKind::Motion, at(54, 50), inside, false);
    assert_eq!(selector.interaction, Some(Interaction::Move { grab: at(44, 30) }));
    selector.pointer_frame(PointerKind::Motion, at(60, 50), inside, false);
    assert_eq!(selector.mode, Mode::Editing { rect: rect(5, 6, 70, 80) });
    assert_eq!(
        selector.pointer_frame(PointerKind::Release, at(60, 50), inside, false),
        Outcome::Next { redraw: false }
    );
    assert_eq!(selector.interaction, None);
}

#[test]
fn a_handle_changes_the_part() {
    let mut selector = Selector::new(false, false, false, false, false, true);
    drawn(&mut selector);
    let handle = Handle { left: true, right: false, top: false, bottom: false };
    let held = facts(None, Region::Handle(handle));
    selector.pointer_frame(PointerKind::Press, at(10, 50), held, false);
    assert_eq!(selector.interaction, Some(Interaction::Resize { handle }));
    selector.pointer_frame(PointerKind::Motion, at(1, 50), held, false);
    assert_eq!(selector.selection(), Some(rect(1, 2, 30, 40)));
}

#[test]
fn a_clip_needs_a_moment_that_is_held() {
    let mut selector = Selector::new(false, true, false, false, true, false);
    drawn(&mut selector);
    let clip = facts(Some(RecordControlHit::Clip), Region::Inside);
    assert_eq!(
        selector.pointer_frame(PointerKind::Press, at(50, 50), clip, false),
        Outcome::NoClip { replay: true }
    );
    assert_eq!(
        selector.pointer_frame(PointerKind::Press, at(50, 50), clip, false),
        Outcome::Nothing
    );
    selector.freeze();
    assert_eq!(
        selector.pointer_frame(PointerKind::Press, at(50, 50), clip, false),
        Outcome::Confirm(rect(10, 20, 100, 100))
    );
    assert!(selector.result_clip);
    assert_ne!(no_clip_message(true), no_clip_message(false));
}

#[test]
fn only_a_large_part_is_recorded() {
    let mut selector = Selector::new(false, true, false, false, false, false);
    assert_eq!(selector.confirm_rect(rect(0, 0, 3, 100)), Confirmed::Redraw);
    assert_eq!(selector.result_rect, None);
    assert_eq!(selector.confirm_rect(rect(0, 0, 4, 4)), Confirmed::Done);
    assert_eq!(selector.result_rect, Some(rect(0, 0, 4, 4)));
    let mut picture = Selector::new(false, false, false, false, false, true);
    assert_eq!(picture.confirm_rect(rect(0, 0, 4, 4)), Confirmed::Crop);
    assert_eq!(picture.cropped(false), Confirmed::Redraw);
    assert_eq!(picture.cropped(true), Confirmed::Done);
    assert!(picture.done);
    let mut cancelled = Selector::new(false, true, false, false, false, false);
    cancelled.cancel();
    assert!(cancelled.done);
    assert_eq!(cancelled.result_rect, None);
    assert!(cancelled.update_modifiers(true));
    assert!(!cancelled.update_modifiers(true));
}

#[test]
fn an_output_that_moved_is_no_longer_selected_on() {
    let then = Layout { x: 10, y: 20, width: 300, height: 200, transform: 0 };
    let now = Placement {
        transform: 0,
        location: Point { x: 10, y: 20 },
        logical_position: None,
        logical_size: Some(Point { x: 300, y: 200 }),
    };
    assert!(target_layout_valid(None, Some(then)));
    assert!(!target_layout_valid(Some(None), Some(then)));
    assert!(target_layout_valid(Some(Some(now)), None));
    assert!(target_layout_valid(Some(Some(now)), Some(then)));
    assert!(!target_layout_valid(Some(Some(Placement { transform: 1, ..now })), Some(then)));
    let moved = Placement { logical_position: Some(Point { x: 11, y: 20 }), ..now };
    assert!(!target_layout_valid(Some(Some(moved)), Some(then)));
    let resized = Placement { logical_size: Some(Point { x: 300, y: 201 }), ..now };
    assert!(!target_layout_valid(Some(Some(resized)), Some(then)));
}

#[test]
fn the_selector_opens_on_the_focused_output() {
    let names: Vec<String> = vec!["A".into(), "B".into()];
    assert_eq!(choose_output(&names, Some("B"), None), Ok(Some(1)));
    assert_eq!(
        choose_output(&names, Some("C"), None).unwrap_err(),
        "capture monitor disconnected"
    );
    assert_eq!(choose_output(&names, None, Some("B")), Ok(Some(1)));
    assert_eq!(choose_output(&names, None, Some("C")), Ok(Some(0)));
    assert_eq!(choose_output(&Vec::new(), None, Some("B")), Ok(None));
    assert_eq!(configured_size((0, 7), (5, 6)), (5, 7));
    assert_eq!(configured_size((0, 0), (0, 0)), (1, 1));
}

#[test]
fn pictures_of_the_overlay_are_used_again() {
    let mut slots: Slots<&str> = Slots::new();
    for (i, name) in ["a", "b", "c"].into_iter().enumerate() {
        assert_eq!(slots.draw(4, 3, i as u64), DrawPlan::Create);
        let place = slots.create(name, 4, 3);
        slots.slots[place].free = false;
        slots.commit(place, i as u64);
    }
    assert_eq!(slots.slots.len(), MAX_SLOTS);
    assert_eq!(slots.draw(4, 3, 2), DrawPlan::Unchanged);
    assert_eq!(slots.draw(4, 3, 9), DrawPlan::Wait);
    slots.slots[1].free = true;
    assert_eq!(slots.draw(4, 3, 9), DrawPlan::Draw(1));
    slots.forget();
    assert_eq!(slots.draw(4, 3, 2), DrawPlan::Draw(1));
}

#[test]
fn the_overlay_is_drawn_once_for_each_frame() {
    let mut pace = Pace::new();
    assert!(!pace.due(false));
    assert!(pace.request());
    assert!(pace.due(false));
    assert!(!pace.due(true));
    pace.drawn(DrawPlan::Draw(0));
    assert!(!pace.due(false));
    assert!(!pace.request());
    assert!(!pace.due(false));
    assert!(pace.frame());
    assert!(pace.due(false));
    pace.drawn(DrawPlan::Unchanged);
    assert!(!pace.frame());
}

fn environment(vars: &[(&str, &str)]) -> Environment {
    Environment {
        vars: vars.iter().map(|(name, value)| (name.to_string(), value.to_string())).collect(),
        home_dir: "/home/bolt".into(),
        config_dir: "/home/bolt/.config/boltsnap".into(),
        screenshot_dir: "/home/bolt/Pictures".into(),
        temp_dir: "/tmp".into(),
        current_dir: "/work".into(),
    }
}

#[test]
fn the_daemon_is_started_where_it_does_not_answer() {
    assert_eq!(
        socket_path(&environment(&[("XDG_RUNTIME_DIR", "/run/user/1")])),
        "/run/user/1/boltsnap.sock"
    );
    assert_eq!(socket_path(&environment(&[("XDG_RUNTIME_DIR", "")])), "/tmp/boltsnap.sock");
    assert_eq!(
        systemd_start_args(),
        ["--user", "start", "--no-block", "boltsnap-daemon.service"]
    );
    assert_eq!(ensure_daemon(Reaching::First, true), Reaching::Connected);
    assert_eq!(ensure_daemon(Reaching::First, false), Reaching::Service);
    assert_eq!(ensure_daemon(Reaching::Service, false), Reaching::Spawn);
    assert_eq!(ensure_daemon(Reaching::Again(3), true), Reaching::Connected);
    assert_eq!(ensure_daemon(Reaching::Again(3), false), Reaching::Again(4));
    assert_eq!(
        ensure_daemon(Reaching::Again(DAEMON_ATTEMPTS - 1), false),
        Reaching::TimedOut
    );
    assert_eq!(unreachable_daemon().kind, ErrorKind::TimedOut);
}

#[test]
fn the_overlay_shows_what_the_selector_holds() {
    let mut picture = Selector::new(false, false, true, true, false, true);
    assert_eq!(
        picture.scene(Some(2)),
        Scene {
            selection: None,
            editing: false,
            record: false,
            toggles: (false, false, false),
            hovered: None,
            magnifier: None,
        }
    );
    picture.update_modifiers(true);
    drawn(&mut picture);
    assert_eq!(
        picture.scene(Some(2)),
        Scene {
            selection: Some(rect(10, 20, 100, 100)),
            editing: true,
            record: false,
            toggles: (false, false, false),
            hovered: None,
            magnifier: Some(at(10, 20)),
        }
    );
    let mut record = Selector::new(false, true, true, false, true, false);
    record.update_modifiers(true);
    record.freeze();
    assert_eq!(
        record.scene(Some(2)),
        Scene {
            selection: None,
            editing: false,
            record: true,
            toggles: (true, true, false),
            hovered: Some(2),
            magnifier: None,
        }
    );
}

#[test]
fn a_moment_is_held_where_it_is_of_the_replay_and_has_a_picture() {
    let fresh = Selector::new(false, true, true, true, true, true);
    let mut selector = fresh;
    assert!(!selector.fetched(Some("DP-1"), "DP-2", true));
    assert!(!selector.fetched(None, "DP-1", true));
    assert_eq!(selector, fresh);
    assert!(!selector.fetched(Some("DP-1"), "DP-1", false));
    assert!(!selector.frozen && !selector.has_image);
    selector.clip_reported = true;
    assert!(selector.fetched(Some("DP-1"), "DP-1", true));
    assert!(selector.frozen && selector.has_image && !selector.clip_reported);
}

#[test]
fn a_changed_or_missing_output_ends_the_selector() {
    let then = Layout { x: 0, y: 0, width: 1920, height: 1080, transform: 0 };
    let now = Placement {
        transform: 0,
        location: Point { x: 0, y: 0 },
        logical_position: None,
        logical_size: Some(Point { x: 1920, y: 1080 }),
    };
    let turned = Placement { transform: 1, ..now };
    assert!(check_layout(Some(Some(now)), Some(then)).is_ok());
    assert_eq!(
        check_layout(Some(Some(turned)), Some(then)).unwrap_err(),
        "capture monitor layout changed during capture"
    );
    let mut selector = Selector::new(false, false, true, true, false, true);
    assert_eq!(selector.update_output(Some(Some(now)), Some(then)), None);
    assert_eq!(selector.output_destroyed(false), None);
    assert!(!selector.done);
    assert_eq!(
        selector.update_output(Some(None), Some(then)).as_deref(),
        Some("capture monitor layout changed")
    );
    assert!(selector.done);
    selector.done = false;
    assert_eq!(
        selector.output_destroyed(true).as_deref(),
        Some("capture monitor disconnected")
    );
    assert!(selector.done);
    assert!(base_is_stale(None, (1, 1)));
    assert!(base_is_stale(Some((1, 2)), (1, 1)));
    assert!(!base_is_stale(Some((1, 2)), (1, 2)));
}

#[test]
fn a_part_begins_to_move_where_it_is() {
    let mut selector = Selector::new(false, false, true, true, false, true);
    drawn(&mut selector);
    let inside = facts(None, Region::Inside);
    selector.pointer_frame(PointerKind::Press, at(50, 60), inside, false);
    selector.pointer_frame(PointerKind::Motion, at(55, 60), inside, false);
    let Some(Interaction::Move { grab }) = selector.interaction else {
        panic!("{:?}", selector.interaction)
    };
    assert_eq!(move_target(at(55, 60), grab), at(10, 20));
    assert_eq!(move_target(at(65, 50), grab), at(20, 10));
}
