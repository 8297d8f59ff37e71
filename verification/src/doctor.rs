//! What the program says of itself and of what it finds.
use vstd::prelude::*;

use crate::text::{joined, push_word};

verus! {

/// The kind of session, where it is known.
pub open spec fn session_name(session: Option<&str>) -> Seq<char> {
    match session {
        Some(name) => name@,
        None => "unknown"@,
    }
}

/// The first lines of the report on Linux.
pub open spec fn opening(session: Option<&str>, hyprctl: bool) -> Seq<Seq<char>> {
    seq![
        "Boltsnap doctor"@,
        "================"@,
        "Session: "@ + session_name(session),
        ""@,
        "Optional compositor IPC (only used for active-window on Wayland):"@,
        if hyprctl {
            "  hyprctl    ok"@
        } else {
            "  hyprctl    missing"@
        },
        ""@,
    ]
}

/// What can be done on Linux.
pub open spec fn capabilities() -> Seq<Seq<char>> {
    seq![
        "Capabilities (no external screenshot/clipboard helpers required):"@,
        "  X11 capture:       in-process via x11rb (root pixmap GetImage)"@,
        "  X11 area/window:   in-process selection overlay (eframe)"@,
        "  X11 active win:    in-process via x11rb (_NET_ACTIVE_WINDOW)"@,
        "  Wayland capture:   in-process via libwayshot (wlr-screencopy)"@,
        "  Wayland area/win:  in-process selection overlay (eframe)"@,
        "  Wayland active win: hyprctl on Hyprland"@,
        "  Clipboard:         in-process via arboard (X11) and wl-clipboard-rs (Wayland)"@,
        ""@,
    ]
}

/// What is said of the shelf on Linux.
pub open spec fn shelf_lines(wayland: bool, alive: bool, socket: &str) -> Seq<Seq<char>> {
    seq![
        "Screenshot shelf (Wayland / wlroots):"@,
        if wayland {
            "  wayland session:   yes"@
        } else {
            "  wayland session:   no"@
        },
        if alive {
            "  shelf daemon:      running"@
        } else {
            "  shelf daemon:      not running (auto-starts on first wayland capture)"@
        },
        "  shelf socket:      "@ + socket@,
    ]
}

/// Writes the first lines of the report on Linux.
fn push_opening(session: Option<&str>, hyprctl: bool) -> (r: Vec<String>)
    ensures
        crate::text::views(r@) == opening(session, hyprctl),
{
    let mut lines: Vec<String> = Vec::new();
    let name = match session {
        Some(name) => name,
        None => "unknown",
    };
    push_word(&mut lines, "Boltsnap doctor");
    push_word(&mut lines, "================");
    push_word(&mut lines, joined("Session: ", name).as_str());
    push_word(&mut lines, "");
    push_word(&mut lines, "Optional compositor IPC (only used for active-window on Wayland):");
    if hyprctl {
        push_word(&mut lines, "  hyprctl    ok");
    } else {
        push_word(&mut lines, "  hyprctl    missing");
    }
    push_word(&mut lines, "");
    proof {
        assert(crate::text::views(lines@) =~= opening(session, hyprctl));
    }
    lines
}

/// Writes what can be done on Linux.
fn push_capabilities(lines: &mut Vec<String>)
    ensures
        crate::text::views(final(lines)@) == crate::text::views(old(lines)@) + capabilities(),
{
    let ghost before = crate::text::views(lines@);
    push_word(lines, "Capabilities (no external screenshot/clipboard helpers required):");
    push_word(lines, "  X11 capture:       in-process via x11rb (root pixmap GetImage)");
    push_word(lines, "  X11 area/window:   in-process selection overlay (eframe)");
    push_word(lines, "  X11 active win:    in-process via x11rb (_NET_ACTIVE_WINDOW)");
    push_word(lines, "  Wayland capture:   in-process via libwayshot (wlr-screencopy)");
    push_word(lines, "  Wayland area/win:  in-process selection overlay (eframe)");
    push_word(lines, "  Wayland active win: hyprctl on Hyprland");
    push_word(lines, "  Clipboard:         in-process via arboard (X11) and wl-clipboard-rs (Wayland)");
    push_word(lines, "");
    proof {
        assert(crate::text::views(lines@) =~= before + capabilities());
    }
}

/// Writes what is said of the shelf on Linux.
fn push_shelf(lines: &mut Vec<String>, wayland: bool, alive: bool, socket: &str)
    ensures
        crate::text::views(final(lines)@) == crate::text::views(old(lines)@) + shelf_lines(
            wayland,
            alive,
            socket,
        ),
{
    let ghost before = crate::text::views(lines@);
    push_word(lines, "Screenshot shelf (Wayland / wlroots):");
    if wayland {
        push_word(lines, "  wayland session:   yes");
    } else {
        push_word(lines, "  wayland session:   no");
    }
    if alive {
        push_word(lines, "  shelf daemon:      running");
    } else {
        push_word(
            lines,
            "  shelf daemon:      not running (auto-starts on first wayland capture)",
        );
    }
    push_word(lines, joined("  shelf socket:      ", socket).as_str());
    proof {
        assert(crate::text::views(lines@) =~= before + shelf_lines(wayland, alive, socket));
    }
}

/// The report on Linux, line by line: the kind of session, whether the program `hyprctl` is there,
/// whether the session is one of Wayland, whether the daemon runs, and where it listens.
pub fn print_doctor(
    session: Option<&str>,
    hyprctl: bool,
    wayland: bool,
    alive: bool,
    socket: &str,
) -> (r: Vec<String>)
    ensures
        crate::text::views(r@) == opening(session, hyprctl) + capabilities() + shelf_lines(
            wayland,
            alive,
            socket,
        ),
{
    let mut lines: Vec<String> = push_opening(session, hyprctl);
    push_capabilities(&mut lines);
    push_shelf(&mut lines, wayland, alive, socket);
    lines
}

/// The report on Windows.
pub open spec fn windows_lines(socket: &str) -> Seq<Seq<char>> {
    seq![
        "Boltsnap doctor"@,
        "================"@,
        "Platform: Windows"@,
        "Native IPC: "@ + socket@,
        "Clipboard: native image, CF_HDROP and OLE file drag available"@,
        "Capture: DXGI monitor/region, WGC window, GDI compatibility fallback"@,
        "Selector/shelf/tray: native Windows windows with shared design"@,
        "Recording: WGC + Media Foundation H.264/AAC + WASAPI audio"@,
        "Recording limits: one monitor at a time; live watch stream pending"@,
    ]
}

/// The report on Windows, line by line: `socket` is where the daemon listens.
pub fn print_windows_doctor(socket: &str) -> (r: Vec<String>)
    ensures
        crate::text::views(r@) == windows_lines(socket),
{
    let mut lines: Vec<String> = Vec::new();
    push_word(&mut lines, "Boltsnap doctor");
    push_word(&mut lines, "================");
    push_word(&mut lines, "Platform: Windows");
    push_word(&mut lines, joined("Native IPC: ", socket).as_str());
    push_word(&mut lines, "Clipboard: native image, CF_HDROP and OLE file drag available");
    push_word(&mut lines, "Capture: DXGI monitor/region, WGC window, GDI compatibility fallback");
    push_word(&mut lines, "Selector/shelf/tray: native Windows windows with shared design");
    push_word(&mut lines, "Recording: WGC + Media Foundation H.264/AAC + WASAPI audio");
    push_word(&mut lines, "Recording limits: one monitor at a time; live watch stream pending");
    proof {
        assert(crate::text::views(lines@) =~= windows_lines(socket));
    }
    lines
}

/// What is said behind the report where the program tests itself.
pub fn self_test(windows: bool) -> (r: &'static str)
    ensures
        r@ == (if windows {
            "\nShared protocol tests are available through `cargo test --lib`."@
        } else {
            "\nInternal parser/render tests are covered by `cargo test`."@
        }),
{
    if windows {
        "\nShared protocol tests are available through `cargo test --lib`."
    } else {
        "\nInternal parser/render tests are covered by `cargo test`."
    }
}

/// The report tells the session, whether the compositor's command is there, and how the shelf does,
/// each in its own line, and nothing in it depends on anything else.
pub proof fn lemma_report(
    session: Option<&str>,
    hyprctl: bool,
    wayland: bool,
    alive: bool,
    socket: &str,
    report: Vec<String>,
)
    requires
        call_ensures(print_doctor, (session, hyprctl, wayland, alive, socket), report),
    ensures
        report@.len() == 20,
        session matches Some(name) ==> report@[2]@ == "Session: "@ + name@,
        session is None ==> report@[2]@ == "Session: unknown"@,
        hyprctl ==> report@[5]@ == "  hyprctl    ok"@,
        !hyprctl ==> report@[5]@ == "  hyprctl    missing"@,
        wayland ==> report@[17]@ == "  wayland session:   yes"@,
        !wayland ==> report@[17]@ == "  wayland session:   no"@,
        alive ==> report@[18]@ == "  shelf daemon:      running"@,
        !alive ==> report@[18]@
            == "  shelf daemon:      not running (auto-starts on first wayland capture)"@,
        report@[19]@ == "  shelf socket:      "@ + socket@,
        report@[0]@ == "Boltsnap doctor"@,
{
    let lines = crate::text::views(report@);
    assert(lines.len() == 20);
    assert(lines[0] == report@[0]@);
    assert(lines[2] == report@[2]@);
    assert(lines[5] == report@[5]@);
    assert(lines[17] == report@[17]@);
    assert(lines[18] == report@[18]@);
    assert(lines[19] == report@[19]@);
    reveal_strlit("Session: ");
    reveal_strlit("unknown");
    reveal_strlit("Session: unknown");
    assert("Session: "@ + "unknown"@ =~= "Session: unknown"@);
}

/// The report on Windows tells where the shelf is reached.
pub proof fn lemma_windows_report(socket: &str, report: Vec<String>)
    requires
        call_ensures(print_windows_doctor, (socket,), report),
    ensures
        report@.len() == 9,
        report@[2]@ == "Platform: Windows"@,
        report@[3]@ == "Native IPC: "@ + socket@,
{
    let lines = crate::text::views(report@);
    assert(lines.len() == 9);
    assert(lines[2] == report@[2]@);
    assert(lines[3] == report@[3]@);
}

} // verus!
