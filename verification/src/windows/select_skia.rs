//! The selector on Windows: a part of a monitor is drawn, changed and confirmed.
use vstd::prelude::*;
use vstd::string::StringExecFns;

use crate::pixels::{Image, Rgba};
use crate::selector::{Interaction, Mode, Point, Rect, Region, MIN_SEL};
use crate::text::joined;

verus! {

/// How far the pointer may move in each direction before a click counts as a drag: three pixels.
pub const DRAG_SLOP: i64 = 768;

/// How bright what is not selected is shown, in hundredths.
pub const SCREENSHOT_BACKGROUND_PERCENT: u32 = 80;

/// A place along a side of so many pixels: within it, and at its end where it lies on its last
/// pixel.
pub open spec fn along(coordinate: int, extent: int) -> int {
    let inside = if coordinate < 0 {
        0
    } else if coordinate > 256 * extent {
        256 * extent
    } else {
        coordinate
    };
    if extent > 1 && inside >= 256 * (extent - 1) {
        256 * extent
    } else {
        inside
    }
}

/// A place along a side of so many pixels.
fn map_axis(coordinate: i64, extent: u32) -> (r: i64)
    ensures
        r == along(coordinate as int, extent as int),
{
    let end: i64 = 256 * extent as i64;
    let inside: i64 = if coordinate < 0 {
        0
    } else if coordinate > end {
        end
    } else {
        coordinate
    };
    if extent > 1 && inside >= end - 256 {
        end
    } else {
        inside
    }
}

/// Where the pointer is taken to be.
pub open spec fn cursor_at(position: Point, width: u32, height: u32) -> Point {
    Point {
        x: along(position.x as int, width as int) as i64,
        y: along(position.y as int, height as int) as i64,
    }
}

/// Where the pointer is taken to be: a drag up to the last pixel of a side takes it in.
pub fn selection_cursor(position: Point, width: u32, height: u32) -> (r: Point)
    ensures
        r == cursor_at(position, width, height),
        r.in_range(),
{
    Point { x: map_axis(position.x, width), y: map_axis(position.y, height) }
}

/// A drag from the first to the last pixel takes in the whole surface.
pub proof fn lemma_fullscreen_drag(width: u32, height: u32)
    requires
        width > 1,
        height > 1,
    ensures
        ({
            let first = cursor_at(Point { x: 0, y: 0 }, width, height);
            let last = cursor_at(
                Point { x: (256 * (width - 1)) as i64, y: (256 * (height - 1)) as i64 },
                width,
                height,
            );
            Rect::between(first, last) == (Rect {
                x: 0,
                y: 0,
                w: (256 * width) as i64,
                h: (256 * height) as i64,
            })
        }),
{
}

/// The pixels that a selection touches, from the first to before the last of each side.
#[derive(Clone, Copy, Debug, PartialEq, Eq, Structural)]
pub struct Touched {
    pub x0: u32,
    pub y0: u32,
    pub x1: u32,
    pub y1: u32,
}

/// The pixel in which a place lies, on a side of so many.
pub open spec fn pixel_down(coordinate: int, extent: int) -> int {
    let pixel = if coordinate < 0 {
        0
    } else {
        coordinate / 256
    };
    if pixel <= extent {
        pixel
    } else {
        extent
    }
}

/// The pixel behind a place, on a side of so many.
pub open spec fn pixel_up(coordinate: int, extent: int) -> int {
    let pixel = if coordinate < 0 {
        0
    } else {
        (coordinate + 255) / 256
    };
    if pixel <= extent {
        pixel
    } else {
        extent
    }
}

/// The pixels that a selection touches: none where it is narrower or lower than a pixel.
pub open spec fn touched(selection: Rect, width: u32, height: u32) -> Option<Touched> {
    let pixels = Touched {
        x0: pixel_down(selection.x as int, width as int) as u32,
        y0: pixel_down(selection.y as int, height as int) as u32,
        x1: pixel_up(selection.x + selection.w, width as int) as u32,
        y1: pixel_up(selection.y + selection.h, height as int) as u32,
    };
    if selection.w < 256 || selection.h < 256 || pixels.x1 <= pixels.x0 || pixels.y1
        <= pixels.y0 {
        None
    } else {
        Some(pixels)
    }
}

/// The pixel in which a place lies.
fn round_down(coordinate: i64, extent: u32) -> (r: u32)
    ensures
        r == pixel_down(coordinate as int, extent as int),
{
    let pixel: i64 = if coordinate < 0 {
        0
    } else {
        coordinate / 256
    };
    if pixel <= extent as i64 {
        pixel as u32
    } else {
        extent
    }
}

/// The pixel behind a place.
fn round_up(coordinate: i64, extent: u32) -> (r: u32)
    requires
        coordinate <= i64::MAX - 255,
    ensures
        r == pixel_up(coordinate as int, extent as int),
{
    let pixel: i64 = if coordinate < 0 {
        0
    } else {
        (coordinate + 255) / 256
    };
    if pixel <= extent as i64 {
        pixel as u32
    } else {
        extent
    }
}

/// The pixels that a selection touches.
pub fn touched_pixels(selection: Rect, width: u32, height: u32) -> (r: Option<Touched>)
    requires
        selection.in_range(),
    ensures
        r == touched(selection, width, height),
{
    let pixels = Touched {
        x0: round_down(selection.x, width),
        y0: round_down(selection.y, height),
        x1: round_up(selection.x + selection.w, width),
        y1: round_up(selection.y + selection.h, height),
    };
    if selection.w < 256 || selection.h < 256 || pixels.x1 <= pixels.x0 || pixels.y1
        <= pixels.y0 {
        None
    } else {
        Some(pixels)
    }
}

/// A pixel that is not selected.
pub open spec fn dimmed(pixel: Rgba) -> Rgba {
    Rgba {
        r: (pixel.r as u32 * SCREENSHOT_BACKGROUND_PERCENT / 100) as u8,
        g: (pixel.g as u32 * SCREENSHOT_BACKGROUND_PERCENT / 100) as u8,
        b: (pixel.b as u32 * SCREENSHOT_BACKGROUND_PERCENT / 100) as u8,
        a: 255,
    }
}

/// A pixel of the overlay.
pub open spec fn overlaid(pixel: Rgba, selection: Option<Touched>, x: int, y: int) -> Rgba {
    match selection {
        Some(pixels) if pixels.x0 <= x < pixels.x1 && pixels.y0 <= y < pixels.y1 => pixel,
        _ => dimmed(pixel),
    }
}

/// The picture of a monitor with all that is not selected dimmed.
pub fn screenshot_overlay(base: &Image<Rgba>, selection: Option<Touched>) -> (r: Image<Rgba>)
    requires
        base.well_formed(),
        base.width > 0,
    ensures
        r.width == base.width,
        r.height == base.height,
        r.well_formed(),
        forall|x: int, y: int|
            0 <= x < base.width && 0 <= y < base.height ==> #[trigger] r.at(x, y) == overlaid(
                base.at(x, y),
                selection,
                x,
                y,
            ),
{
    let width: u32 = base.width;
    let mut pixels: Vec<Rgba> = Vec::new();
    let mut i: usize = 0;
    let mut x: u32 = 0;
    let mut y: u32 = 0;
    proof {
        assert(0 * width == 0) by (nonlinear_arith);
    }
    while i < base.pixels.len()
        invariant
            base.well_formed(),
            width == base.width,
            width > 0,
            i <= base.pixels.len(),
            x < width,
            y <= base.height,
            i == y * width + x,
            pixels@.len() == i,
            forall|a: int, b: int|
                0 <= a < width && 0 <= b && crate::pixels::position(width as int, a, b) < i
                    ==> #[trigger] pixels@[crate::pixels::position(width as int, a, b)] == overlaid(
                    base.at(a, b),
                    selection,
                    a,
                    b,
                ),
        decreases base.pixels.len() - i,
    {
        proof {
            assert(y < base.height) by (nonlinear_arith)
                requires
                    y * width + x < width * base.height,
                    y <= base.height,
                    x >= 0,
            ;
        }
        let found: Rgba = base.pixels[i];
        let selected: bool = match selection {
            Some(area) => x >= area.x0 && x < area.x1 && y >= area.y0 && y < area.y1,
            None => false,
        };
        let ghost before = pixels@;
        if selected {
            pixels.push(found);
        } else {
            pixels.push(
                Rgba {
                    r: (found.r as u32 * SCREENSHOT_BACKGROUND_PERCENT / 100) as u8,
                    g: (found.g as u32 * SCREENSHOT_BACKGROUND_PERCENT / 100) as u8,
                    b: (found.b as u32 * SCREENSHOT_BACKGROUND_PERCENT / 100) as u8,
                    a: 255,
                },
            );
        }
        proof {
            assert forall|a: int, b: int|
                0 <= a < width && 0 <= b && crate::pixels::position(width as int, a, b) < i
                    + 1 implies #[trigger] pixels@[crate::pixels::position(width as int, a, b)]
                == overlaid(base.at(a, b), selection, a, b) by {
                assert(crate::pixels::position(width as int, a, b) >= 0) by (nonlinear_arith)
                    requires
                        0 <= a,
                        0 <= b,
                        width > 0,
                ;
                if crate::pixels::position(width as int, a, b) == i {
                    crate::pixels::lemma_position_divides(width as int, a, b);
                    crate::pixels::lemma_position_divides(width as int, x as int, y as int);
                } else {
                    assert(before[crate::pixels::position(width as int, a, b)] == overlaid(
                        base.at(a, b),
                        selection,
                        a,
                        b,
                    ));
                }
            }
            assert((y + 1) * width == y * width + width) by (nonlinear_arith);
        }
        i = i + 1;
        if x + 1 < width {
            x = x + 1;
        } else {
            x = 0;
            y = y + 1;
        }
    }
    let overlay = Image { width: base.width, height: base.height, pixels };
    proof {
        assert forall|a: int, b: int| 0 <= a < base.width && 0 <= b < base.height implies
            #[trigger] overlay.at(a, b) == overlaid(base.at(a, b), selection, a, b) by {
            crate::pixels::lemma_position(width as int, base.height as int, a, b);
            assert(pixels@[crate::pixels::position(width as int, a, b)] == overlaid(
                base.at(a, b),
                selection,
                a,
                b,
            ));
        }
    }
    overlay
}

/// The bytes of pixels, with blue first.
pub open spec fn blue_first(pixels: Seq<Rgba>) -> Seq<u8> {
    Seq::new(
        4 * pixels.len(),
        |i: int|
            if i % 4 == 0 {
                pixels[i / 4].b
            } else if i % 4 == 1 {
                pixels[i / 4].g
            } else if i % 4 == 2 {
                pixels[i / 4].r
            } else {
                pixels[i / 4].a
            },
    )
}

/// The bytes of an overlay for a surface of a size, or what is said where it has another.
pub fn surface_bytes(frame: &Image<Rgba>, width: u32, height: u32) -> (r: Result<Vec<u8>, String>)
    ensures
        if frame.width == width && frame.height == height {
            r matches Ok(bytes) && bytes@ == blue_first(frame.pixels@)
        } else {
            r matches Err(message) && message@ == "selector overlay dimensions changed"@
        },
{
    if frame.width != width || frame.height != height {
        return Err("selector overlay dimensions changed".to_owned());
    }
    let mut bytes: Vec<u8> = Vec::new();
    let mut i: usize = 0;
    while i < frame.pixels.len()
        invariant
            i <= frame.pixels.len(),
            bytes@.len() == 4 * i,
            forall|j: int| 0 <= j < 4 * i ==> #[trigger] bytes@[j] == blue_first(frame.pixels@)[j],
        decreases frame.pixels.len() - i,
    {
        bytes.push(frame.pixels[i].b);
        bytes.push(frame.pixels[i].g);
        bytes.push(frame.pixels[i].r);
        bytes.push(frame.pixels[i].a);
        i = i + 1;
    }
    proof {
        assert(bytes@ =~= blue_first(frame.pixels@));
    }
    Ok(bytes)
}

/// The parts of a window's frame: its caption, its menu, its border and its buttons.
pub const CHROME: u32 = 0x00cf_0000;

/// A window without a frame.
pub const POPUP: u32 = 0x8000_0000;

/// A window that does not stand in the task bar.
pub const TOOL_WINDOW: u32 = 0x0000_0080;

/// A window that stands in the task bar.
pub const APP_WINDOW: u32 = 0x0004_0000;

/// A window that does not become active.
pub const NO_ACTIVATE: u32 = 0x0800_0000;

/// A window that is drawn with opacity.
pub const LAYERED: u32 = 0x0008_0000;

/// The style and the extended style of a window of the program, given those that it has.
pub open spec fn styled(style: u32, extended: u32, no_activate: bool) -> (u32, u32) {
    let tool = (extended | TOOL_WINDOW) & !APP_WINDOW;
    (
        (style & !CHROME) | POPUP,
        if no_activate {
            tool | NO_ACTIVATE
        } else {
            tool & !NO_ACTIVATE
        },
    )
}

/// A window of the program has the style that it should.
pub open spec fn is_styled(style: u32, extended: u32, no_activate: bool) -> bool {
    &&& style & CHROME == 0
    &&& style & POPUP != 0
    &&& extended & TOOL_WINDOW != 0
    &&& extended & APP_WINDOW == 0
    &&& no_activate == (extended & NO_ACTIVATE != 0)
}

/// The style and the extended style of a window of the program, given those that it has.
pub fn utility_style(style: u32, extended: u32, no_activate: bool) -> (r: (u32, u32))
    ensures
        r == styled(style, extended, no_activate),
{
    let tool: u32 = (extended | TOOL_WINDOW) & !APP_WINDOW;
    let utility: u32 = if no_activate {
        tool | NO_ACTIVATE
    } else {
        tool & !NO_ACTIVATE
    };
    ((style & !CHROME) | POPUP, utility)
}

/// Whether a window of the program has the style that it should.
pub fn check_style(style: u32, extended: u32, no_activate: bool) -> (r: Result<(), String>)
    ensures
        if is_styled(style, extended, no_activate) {
            r is Ok
        } else {
            r matches Err(message) && message@
                == "failed to apply borderless Boltsnap utility window style"@
        },
{
    if style & CHROME != 0 || style & POPUP == 0 || extended & TOOL_WINDOW == 0 || extended
        & APP_WINDOW != 0 || no_activate != (extended & NO_ACTIVATE != 0) {
        return Err("failed to apply borderless Boltsnap utility window style".to_owned());
    }
    Ok(())
}

/// A window that took the style that it was given has the style that it should, whatever it had.
pub proof fn lemma_style_is_accepted(style: u32, extended: u32, no_activate: bool)
    ensures
        is_styled(
            styled(style, extended, no_activate).0,
            styled(style, extended, no_activate).1,
            no_activate,
        ),
{
    assert(((style & !0x00cf_0000u32) | 0x8000_0000u32) & 0x00cf_0000u32 == 0) by (bit_vector);
    assert(((style & !0x00cf_0000u32) | 0x8000_0000u32) & 0x8000_0000u32 != 0) by (bit_vector);
    let tool = (extended | TOOL_WINDOW) & !APP_WINDOW;
    assert(tool & 0x80u32 != 0 && tool & 0x4_0000u32 == 0) by (bit_vector)
        requires
            tool == (extended | 0x80u32) & !0x4_0000u32,
    ;
    assert((tool | 0x800_0000u32) & 0x80u32 != 0 && (tool | 0x800_0000u32) & 0x4_0000u32 == 0 && (
    tool | 0x800_0000u32) & 0x800_0000u32 != 0) by (bit_vector)
        requires
            tool & 0x80u32 != 0,
            tool & 0x4_0000u32 == 0,
    ;
    assert((tool & !0x800_0000u32) & 0x80u32 != 0 && (tool & !0x800_0000u32) & 0x4_0000u32 == 0 && (
    tool & !0x800_0000u32) & 0x800_0000u32 == 0) by (bit_vector)
        requires
            tool & 0x80u32 != 0,
            tool & 0x4_0000u32 == 0,
    ;
}

/// A number in the digits of sixteen.
pub open spec fn hexadecimal(value: nat) -> Seq<char>
    decreases value,
{
    let digit = value % 16;
    let last = (if digit < 10 {
        '0' as int + digit
    } else {
        'a' as int + digit - 10
    }) as char;
    if value < 16 {
        seq![last]
    } else {
        hexadecimal(value / 16).push(last)
    }
}

/// A number in the digits of sixteen.
fn hexadecimal_string(value: u32) -> (r: String)
    ensures
        r@ == hexadecimal(value as nat),
    decreases value,
{
    let digit: u8 = (value % 16) as u8;
    let last: char = if digit < 10 {
        (0x30 + digit) as char
    } else {
        (0x57 + digit) as char
    };
    let mut text: String = if value < 16 {
        String::new()
    } else {
        hexadecimal_string(value / 16)
    };
    crate::text::push(&mut text, last);
    proof {
        if value < 16 {
            assert(text@ =~= seq![last]);
        }
    }
    text
}

/// Whether the overlay's window is drawn with opacity.
pub fn check_layered(extended: u32) -> (r: Result<(), String>)
    ensures
        if extended & LAYERED != 0 {
            r is Ok
        } else {
            r matches Err(message) && message@
                == "selector overlay window is not layered (extended style 0x"@ + hexadecimal(
                extended as nat,
            ) + ")"@
        },
{
    if extended & LAYERED == 0 {
        let mut message: String = joined(
            "selector overlay window is not layered (extended style 0x",
            hexadecimal_string(extended).as_str(),
        );
        message.append(")");
        return Err(message);
    }
    Ok(())
}

/// A part of a window with round corners.
#[derive(Clone, Copy, Debug, PartialEq, Eq, Structural)]
pub struct Rounded {
    pub left: i32,
    pub top: i32,
    pub right: i32,
    pub bottom: i32,
    /// How wide and high the ellipse of a corner is.
    pub diameter: i32,
}

/// The smaller of two numbers.
pub open spec fn smaller(a: int, b: int) -> int {
    if a <= b {
        a
    } else {
        b
    }
}

/// A part of a window with its corners rounded as far as it allows.
pub open spec fn rounded(x: int, y: int, width: int, height: int, radius: int) -> Rounded {
    let fitting = smaller(smaller(radius, width / 2), height / 2);
    Rounded {
        left: x as i32,
        top: y as i32,
        right: smaller(x + width + 1, i32::MAX as int) as i32,
        bottom: smaller(y + height + 1, i32::MAX as int) as i32,
        diameter: (if fitting < 1 {
            2
        } else {
            2 * fitting
        }) as i32,
    }
}

/// A part of a window with its corners rounded as far as it allows: `None` where it lies too far
/// out.
pub fn rounded_region(part: (u32, u32, u32, u32), radius: u32) -> (r: Option<Rounded>)
    ensures
        r == (if part.0 <= i32::MAX && part.1 <= i32::MAX && part.2 <= i32::MAX && part.3
            <= i32::MAX && radius <= i32::MAX {
            Some(rounded(part.0 as int, part.1 as int, part.2 as int, part.3 as int, radius as int))
        } else {
            None
        }),
{
    let most: u32 = i32::MAX as u32;
    if part.0 > most || part.1 > most || part.2 > most || part.3 > most || radius > most {
        return None;
    }
    let half_width: u32 = part.2 / 2;
    let half_height: u32 = part.3 / 2;
    let first: u32 = if radius <= half_width {
        radius
    } else {
        half_width
    };
    let second: u32 = if first <= half_height {
        first
    } else {
        half_height
    };
    let fitting: u32 = if second < 1 {
        1
    } else {
        second
    };
    let right: i64 = part.0 as i64 + part.2 as i64 + 1;
    let bottom: i64 = part.1 as i64 + part.3 as i64 + 1;
    Some(
        Rounded {
            left: part.0 as i32,
            top: part.1 as i32,
            right: if right <= i32::MAX as i64 {
                right as i32
            } else {
                i32::MAX
            },
            bottom: if bottom <= i32::MAX as i64 {
                bottom as i32
            } else {
                i32::MAX
            },
            diameter: 2 * fitting as i32,
        },
    )
}

/// How the pointer lies to the selection.
#[derive(Clone, Copy, Debug, PartialEq, Eq, Structural)]
pub struct Facts {
    /// It is on the button that turns the sound on and off.
    pub audio: bool,
    /// It is on the button that starts the recording.
    pub record: bool,
    /// What of the selection is under it.
    pub region: Region,
    /// The selection with the handle that is held brought to it.
    pub resized: Rect,
    /// The selection with the place where it is held brought to it: its corner where
    /// [`crate::selector::move_target`] says, or as near as the screen lets it.
    pub moved: Rect,
}

/// The selector's state.
#[derive(Clone, Copy, Debug, PartialEq, Eq, Structural)]
pub struct Selector {
    pub width: u32,
    pub height: u32,
    /// A part is confirmed as soon as it is drawn.
    pub instant: bool,
    /// A recording is chosen, not a picture.
    pub record_mode: bool,
    pub show_frame: bool,
    pub audio_enabled: bool,
    pub mode: Mode,
    pub interaction: Option<Interaction>,
    pub cursor: Point,
    /// The part that was confirmed: the selector ends then.
    pub result: Option<Rect>,
}

/// A number without its sign.
pub open spec fn magnitude(value: int) -> int {
    if value < 0 {
        -value
    } else {
        value
    }
}

impl Selector {
    /// The pointer's places are ones on a screen.
    pub open spec fn in_range(self) -> bool {
        &&& self.cursor.in_range()
        &&& (self.mode matches Mode::Drawing { anchor, now } ==> anchor.in_range()
            && now.in_range())
        &&& (self.mode matches Mode::Editing { rect } ==> rect.in_range())
        &&& (self.interaction matches Some(Interaction::ClickInside { press })
            ==> press.in_range())
    }

    /// The selection, where there is one.
    pub open spec fn shown(self) -> Option<Rect> {
        match self.mode {
            Mode::Idle => None,
            Mode::Drawing { anchor, now } => Some(Rect::between(anchor, now)),
            Mode::Editing { rect } => Some(rect),
        }
    }

    /// A selection is confirmed: one that is too small is given up.
    pub open spec fn confirmed(self, rect: Rect) -> Selector {
        if rect.tiny() {
            Selector { mode: Mode::Idle, ..self }
        } else {
            Selector { result: Some(rect), ..self }
        }
    }

    /// The left button is pressed.
    pub open spec fn pressed(self, facts: Facts) -> Selector {
        let begun = Mode::Drawing { anchor: self.cursor, now: self.cursor };
        match self.mode {
            Mode::Editing { rect } => if self.record_mode && facts.audio {
                Selector { audio_enabled: !self.audio_enabled, ..self }
            } else if self.record_mode && facts.record {
                self.confirmed(rect)
            } else {
                match facts.region {
                    Region::Handle(handle) => Selector {
                        interaction: Some(Interaction::Resize { handle }),
                        ..self
                    },
                    Region::Inside => Selector {
                        interaction: Some(Interaction::ClickInside { press: self.cursor }),
                        ..self
                    },
                    Region::Outside => Selector { mode: begun, interaction: None, ..self },
                }
            },
            _ => Selector { mode: begun, ..self },
        }
    }

    /// The left button is let go.
    pub open spec fn released(self) -> Selector {
        match self.mode {
            Mode::Drawing { anchor, now } => {
                let rect = Rect::between(anchor, now);
                if self.instant {
                    self.confirmed(rect)
                } else if rect.tiny() {
                    Selector { mode: Mode::Idle, ..self }
                } else {
                    Selector { mode: Mode::Editing { rect }, ..self }
                }
            },
            Mode::Editing { rect } => if self.interaction matches Some(
                Interaction::ClickInside { .. },
            ) {
                Selector { interaction: None, ..self.confirmed(rect) }
            } else {
                Selector { interaction: None, ..self }
            },
            Mode::Idle => self,
        }
    }

    /// The pointer moves.
    pub open spec fn motioned(self, position: Point, facts: Facts) -> Selector {
        let here = cursor_at(position, self.width, self.height);
        let there = Selector { cursor: here, ..self };
        match self.mode {
            Mode::Drawing { anchor, .. } => Selector {
                mode: Mode::Drawing { anchor, now: here },
                ..there
            },
            Mode::Editing { rect } => match self.interaction {
                Some(Interaction::Resize { .. }) => Selector {
                    mode: Mode::Editing { rect: facts.resized },
                    ..there
                },
                Some(Interaction::ClickInside { press }) => if magnitude(here.x - press.x)
                    > DRAG_SLOP || magnitude(here.y - press.y) > DRAG_SLOP {
                    Selector {
                        interaction: Some(
                            Interaction::Move {
                                grab: Point {
                                    x: (press.x - rect.x) as i64,
                                    y: (press.y - rect.y) as i64,
                                },
                            },
                        ),
                        ..there
                    }
                } else {
                    there
                },
                Some(Interaction::Move { .. }) => Selector {
                    mode: Mode::Editing { rect: facts.moved },
                    ..there
                },
                None => there,
            },
            Mode::Idle => there,
        }
    }

    /// Enter is pressed.
    pub open spec fn entered(self) -> Selector {
        match self.shown() {
            Some(rect) => self.confirmed(rect),
            None => self,
        }
    }

    /// Nothing is selected.
    pub fn new(
        width: u32,
        height: u32,
        instant: bool,
        record_mode: bool,
        show_frame: bool,
        audio_enabled: bool,
    ) -> (r: Self)
        ensures
            r == (Selector {
                width,
                height,
                instant,
                record_mode,
                show_frame,
                audio_enabled,
                mode: Mode::Idle,
                interaction: None,
                cursor: Point { x: 0, y: 0 },
                result: None,
            }),
            r.in_range(),
    {
        Selector {
            width,
            height,
            instant,
            record_mode,
            show_frame,
            audio_enabled,
            mode: Mode::Idle,
            interaction: None,
            cursor: Point { x: 0, y: 0 },
            result: None,
        }
    }

    /// The selection, where there is one.
    pub fn selection(&self) -> (r: Option<Rect>)
        requires
            self.in_range(),
        ensures
            r == self.shown(),
    {
        match self.mode {
            Mode::Idle => None,
            Mode::Drawing { anchor, now } => Some(Rect::from_corners(anchor, now)),
            Mode::Editing { rect } => Some(rect),
        }
    }

    /// Confirms a selection.
    pub fn confirm(&mut self, rect: Rect)
        ensures
            *final(self) == old(self).confirmed(rect),
    {
        if rect.w >= MIN_SEL && rect.h >= MIN_SEL {
            self.result = Some(rect);
        } else {
            self.mode = Mode::Idle;
        }
    }

    /// Takes note that the left button is pressed.
    pub fn press(&mut self, facts: Facts)
        ensures
            *final(self) == old(self).pressed(facts),
    {
        match self.mode {
            Mode::Idle | Mode::Drawing { .. } => {
                self.mode = Mode::Drawing { anchor: self.cursor, now: self.cursor };
            },
            Mode::Editing { rect } => {
                if self.record_mode {
                    if facts.audio {
                        self.audio_enabled = !self.audio_enabled;
                        return ;
                    }
                    if facts.record {
                        self.confirm(rect);
                        return ;
                    }
                }
                match facts.region {
                    Region::Handle(handle) => {
                        self.interaction = Some(Interaction::Resize { handle });
                    },
                    Region::Inside => {
                        self.interaction = Some(Interaction::ClickInside { press: self.cursor });
                    },
                    Region::Outside => {
                        self.mode = Mode::Drawing { anchor: self.cursor, now: self.cursor };
                        self.interaction = None;
                    },
                }
            },
        }
    }

    /// Takes note that the left button is let go.
    pub fn release(&mut self)
        requires
            old(self).in_range(),
        ensures
            *final(self) == old(self).released(),
    {
        match self.mode {
            Mode::Drawing { anchor, now } => {
                let rect = Rect::from_corners(anchor, now);
                if self.instant {
                    self.confirm(rect);
                } else if rect.w >= MIN_SEL && rect.h >= MIN_SEL {
                    self.mode = Mode::Editing { rect };
                } else {
                    self.mode = Mode::Idle;
                }
            },
            Mode::Editing { rect } => {
                match self.interaction {
                    Some(Interaction::ClickInside { .. }) => {
                        self.confirm(rect);
                    },
                    _ => {},
                }
                self.interaction = None;
            },
            Mode::Idle => {},
        }
    }

    /// Takes note that the pointer moves.
    pub fn moved(&mut self, position: Point, facts: Facts)
        requires
            old(self).in_range(),
        ensures
            *final(self) == old(self).motioned(position, facts),
    {
        let here: Point = selection_cursor(position, self.width, self.height);
        self.cursor = here;
        match self.mode {
            Mode::Drawing { anchor, .. } => {
                self.mode = Mode::Drawing { anchor, now: here };
            },
            Mode::Editing { rect } => match self.interaction {
                Some(Interaction::Resize { .. }) => {
                    self.mode = Mode::Editing { rect: facts.resized };
                },
                Some(Interaction::ClickInside { press }) => {
                    let across: i64 = here.x - press.x;
                    let down: i64 = here.y - press.y;
                    if across > DRAG_SLOP || across < -DRAG_SLOP || down > DRAG_SLOP || down
                        < -DRAG_SLOP {
                        self.interaction = Some(
                            Interaction::Move {
                                grab: Point { x: press.x - rect.x, y: press.y - rect.y },
                            },
                        );
                    }
                },
                Some(Interaction::Move { .. }) => {
                    self.mode = Mode::Editing { rect: facts.moved };
                },
                None => {},
            },
            Mode::Idle => {},
        }
    }

    /// Takes note that Enter is pressed.
    pub fn enter(&mut self)
        requires
            old(self).in_range(),
        ensures
            *final(self) == old(self).entered(),
    {
        match self.selection() {
            Some(rect) => {
                self.confirm(rect);
            },
            None => {},
        }
    }
}

/// What is drawn from one place to another is what is selected then, unless it is too small.
pub proof fn lemma_drawn_is_selected(selector: Selector, to: Point, facts: Facts, later: Facts)
    requires
        selector.mode == Mode::Idle,
        selector.result is None,
    ensures
        ({
            let here = cursor_at(to, selector.width, selector.height);
            let rect = Rect::between(selector.cursor, here);
            let after = selector.pressed(facts).motioned(to, later).released();
            if rect.tiny() {
                after.mode == Mode::Idle && after.result is None
            } else if selector.instant {
                after.result == Some(rect)
            } else {
                after.mode == Mode::Editing { rect } && after.result is None
            }
        }),
{
}

/// What is confirmed is never too small.
pub proof fn lemma_result_is_large(selector: Selector, rect: Rect)
    requires
        selector.result is None,
    ensures
        selector.confirmed(rect).result matches Some(result) ==> result == rect && !rect.tiny(),
{
}

/// The button for the sound changes nothing else, and pressed twice it changes nothing.
pub proof fn lemma_audio_button(selector: Selector, facts: Facts)
    requires
        selector.record_mode,
        selector.mode is Editing,
        facts.audio,
    ensures
        selector.pressed(facts) == (Selector { audio_enabled: !selector.audio_enabled, ..selector }),
        selector.pressed(facts).pressed(facts) == selector,
{
}

/// The selector's places stay ones on a screen.
pub proof fn lemma_range_kept(selector: Selector, position: Point, facts: Facts)
    requires
        selector.in_range(),
        facts.resized.in_range(),
        facts.moved.in_range(),
    ensures
        selector.pressed(facts).in_range(),
        selector.released().in_range(),
        selector.motioned(position, facts).in_range(),
        selector.entered().in_range(),
{
}

/// A place is held within the picture, and the last pixel reaches to the edge.
pub proof fn lemma_along(coordinate: int, extent: int)
    requires
        extent >= 0,
    ensures
        0 <= along(coordinate, extent) <= 256 * extent,
        coordinate <= 0 && extent > 1 ==> along(coordinate, extent) == 0,
        coordinate >= 256 * extent ==> along(coordinate, extent) == 256 * extent,
        extent > 1 && 256 * (extent - 1) <= coordinate ==> along(coordinate, extent) == 256 * extent,
        0 <= coordinate < 256 * (extent - 1) ==> along(coordinate, extent) == coordinate,
{
}

/// The place across follows the pointer across, and the place down the pointer down.
pub proof fn lemma_cursor(position: Point, width: u32, height: u32)
    requires
        width > 1,
        height > 1,
    ensures
        0 <= position.x < 256 * (width - 1) ==> cursor_at(position, width, height).x == position.x,
        0 <= position.y < 256 * (height - 1) ==> cursor_at(position, width, height).y == position.y,
        position.x >= 256 * (width - 1) ==> cursor_at(position, width, height).x == 256 * width,
        position.y >= 256 * (height - 1) ==> cursor_at(position, width, height).y == 256 * height,
{
}

/// The pixels that a selection touches are all that it covers a part of, and no others.
pub proof fn lemma_touched(selection: Rect, width: u32, height: u32, x: int, y: int)
    requires
        selection.in_range(),
        0 <= x < width,
        0 <= y < height,
        0 <= selection.x,
        0 <= selection.y,
        selection.x + selection.w <= 256 * width,
        selection.y + selection.h <= 256 * height,
        selection.w >= 256,
        selection.h >= 256,
    ensures
        touched(selection, width, height) matches Some(pixels) && {
            &&& pixels.x0 <= x < pixels.x1 <==> 256 * (x + 1) > selection.x && 256 * x < selection.x
                + selection.w
            &&& pixels.y0 <= y < pixels.y1 <==> 256 * (y + 1) > selection.y && 256 * y < selection.y
                + selection.h
        },
{
}

/// A selection that is smaller than a pixel touches none.
pub proof fn lemma_untouched(selection: Rect, width: u32, height: u32)
    ensures
        selection.w < 256 || selection.h < 256 ==> touched(selection, width, height) is None,
        touched(selection, width, height) matches Some(pixels) ==> pixels.x0 < pixels.x1 <= width
            && pixels.y0 < pixels.y1 <= height,
{
}

/// What is not selected is dimmed to four fifths, each colour by itself, and what is selected is as it
/// is.
pub proof fn lemma_overlaid(pixel: Rgba, selection: Option<Touched>, x: int, y: int)
    ensures
        selection is None ==> overlaid(pixel, selection, x, y) == dimmed(pixel),
        selection matches Some(pixels) ==> {
            &&& pixels.x0 <= x < pixels.x1 && pixels.y0 <= y < pixels.y1 ==> overlaid(
                pixel,
                selection,
                x,
                y,
            ) == pixel
            &&& !(pixels.x0 <= x < pixels.x1 && pixels.y0 <= y < pixels.y1) ==> overlaid(
                pixel,
                selection,
                x,
                y,
            ) == dimmed(pixel)
        },
        dimmed(pixel).a == 255,
        5 * dimmed(pixel).r <= 4 * pixel.r < 5 * dimmed(pixel).r + 5,
        5 * dimmed(pixel).g <= 4 * pixel.g < 5 * dimmed(pixel).g + 5,
        5 * dimmed(pixel).b <= 4 * pixel.b < 5 * dimmed(pixel).b + 5,
{
}

/// A pixel is handed to the screen as its blue, its green, its red and how much it covers, in that
/// order.
pub proof fn lemma_blue_first(pixels: Seq<Rgba>, i: int)
    requires
        0 <= i < pixels.len(),
    ensures
        blue_first(pixels).len() == 4 * pixels.len(),
        blue_first(pixels)[4 * i] == pixels[i].b,
        blue_first(pixels)[4 * i + 1] == pixels[i].g,
        blue_first(pixels)[4 * i + 2] == pixels[i].r,
        blue_first(pixels)[4 * i + 3] == pixels[i].a,
{
    assert((4 * i) / 4 == i && (4 * i + 1) / 4 == i && (4 * i + 2) / 4 == i && (4 * i + 3) / 4 == i);
}

/// A rounded part has its own corner and size, and corners that fit into it.
pub proof fn lemma_rounded(part: (u32, u32, u32, u32), radius: u32, region: Option<Rounded>)
    requires
        call_ensures(rounded_region, (part, radius), region),
        part.0 + part.2 < i32::MAX,
        part.1 + part.3 < i32::MAX,
        radius <= 0x3fff_ffff,
    ensures
        region matches Some(region) && {
            &&& region.left == part.0
            &&& region.top == part.1
            &&& region.right == part.0 + part.2 + 1
            &&& region.bottom == part.1 + part.3 + 1
            &&& region.diameter >= 2
            &&& region.diameter % 2 == 0
            &&& region.diameter <= 2 * radius || region.diameter == 2
            &&& part.2 >= 2 * radius && part.3 >= 2 * radius && radius >= 1 ==> region.diameter == 2
                * radius
            &&& part.2 >= 2 && part.3 >= 2 ==> region.diameter <= part.2 && region.diameter <= part.3
        },
{
}

/// What is taken is the selection that is shown, by the record button, by a click inside it, by the
/// key, or, where parts are taken at once, when the button is let go; and only where it is not tiny.
pub proof fn lemma_result_is_shown(selector: Selector, position: Point, facts: Facts)
    requires
        selector.result is None,
    ensures
        selector.pressed(facts).result matches Some(rect) ==> selector.mode == (Mode::Editing {
            rect,
        }) && selector.record_mode && facts.record && !facts.audio && !rect.tiny(),
        selector.released().result matches Some(rect) ==> selector.shown() == Some(rect)
            && !rect.tiny() && (selector.mode is Drawing ==> selector.instant) && (selector.mode
            is Editing ==> (selector.interaction matches Some(Interaction::ClickInside { .. }))),
        selector.entered().result matches Some(rect) ==> selector.shown() == Some(rect)
            && !rect.tiny(),
        selector.motioned(position, facts).result is None,
        selector.shown() matches Some(rect) ==> (!rect.tiny() ==> selector.entered().result == Some(
            rect,
        )),
        selector.mode matches Mode::Editing { rect } ==> (selector.record_mode && facts.record
            && !facts.audio && !rect.tiny() ==> selector.pressed(facts).result == Some(rect)),
{
}

/// The selection goes where the pointer brings it: a drawn one reaches to the pointer, a held one is
/// moved or resized, and otherwise it stays.
pub proof fn lemma_selection_follows(selector: Selector, position: Point, facts: Facts)
    ensures
        ({
            let here = cursor_at(position, selector.width, selector.height);
            let after = selector.motioned(position, facts);
            &&& after.cursor == here
            &&& selector.mode matches Mode::Drawing { anchor, .. } ==> after.mode == (Mode::Drawing {
                anchor,
                now: here,
            })
            &&& selector.mode is Editing && (selector.interaction matches Some(
                Interaction::Resize { .. },
            )) ==> after.shown() == Some(facts.resized)
            &&& selector.mode is Editing && (selector.interaction matches Some(
                Interaction::Move { .. },
            )) ==> after.shown() == Some(facts.moved)
            &&& selector.mode is Editing && (selector.interaction is None || (selector.interaction
                matches Some(Interaction::ClickInside { .. }))) ==> after.mode == selector.mode
            &&& selector.mode == Mode::Idle ==> after.mode == Mode::Idle
            &&& after.audio_enabled == selector.audio_enabled
            &&& after.show_frame == selector.show_frame
        }),
        selector.mode !is Editing ==> selector.pressed(facts).mode == (Mode::Drawing {
            anchor: selector.cursor,
            now: selector.cursor,
        }),
        selector.mode is Editing && !(selector.record_mode && (facts.audio || facts.record)) ==> {
            &&& facts.region is Outside ==> selector.pressed(facts).mode == (Mode::Drawing {
                anchor: selector.cursor,
                now: selector.cursor,
            }) && selector.pressed(facts).interaction is None
            &&& facts.region matches Region::Handle(handle) ==> selector.pressed(facts).interaction
                == Some(Interaction::Resize { handle }) && selector.pressed(facts).mode
                == selector.mode
            &&& facts.region is Inside ==> selector.pressed(facts).interaction == Some(
                Interaction::ClickInside { press: selector.cursor },
            ) && selector.pressed(facts).mode == selector.mode
        },
        selector.mode matches Mode::Drawing { anchor, now } ==> (!selector.instant
            && !Rect::between(anchor, now).tiny() ==> selector.released().mode == (Mode::Editing {
            rect: Rect::between(anchor, now),
        }) && selector.released().result == selector.result),
        selector.mode matches Mode::Drawing { anchor, now } ==> (Rect::between(anchor, now).tiny()
            ==> selector.released().mode == Mode::Idle),
        selector.mode is Editing ==> selector.released().interaction is None && (
        selector.released().mode == selector.mode || selector.released().mode == Mode::Idle),
        selector.pressed(facts).cursor == selector.cursor,
        selector.pressed(facts).show_frame == selector.show_frame,
        selector.pressed(facts).audio_enabled != selector.audio_enabled <==> selector.mode is Editing
            && selector.record_mode && facts.audio,
        selector.released().audio_enabled == selector.audio_enabled,
{
}

/// A click inside becomes a move once the pointer is more than three pixels away, and holds the
/// selection where it was pressed.
pub proof fn lemma_move_begins(selector: Selector, position: Point, facts: Facts, press: Point)
    requires
        selector.in_range(),
        selector.mode is Editing,
        selector.interaction == Some(Interaction::ClickInside { press }),
    ensures
        ({
            let here = cursor_at(position, selector.width, selector.height);
            let after = selector.motioned(position, facts);
            let rect = selector.mode->Editing_rect;
            let far = here.x - press.x > 768 || press.x - here.x > 768 || here.y - press.y > 768
                || press.y - here.y > 768;
            &&& far ==> (after.interaction matches Some(Interaction::Move { grab }) && rect.x + grab.x
                == press.x && rect.y + grab.y == press.y)
            &&& !far ==> after.interaction == selector.interaction
        }),
{
}

/// The overlay has to be layered.
pub proof fn lemma_layered(extended: u32, layered: Result<(), String>)
    requires
        call_ensures(check_layered, (extended,), layered),
    ensures
        layered is Ok <==> extended & 0x0008_0000 != 0,
{
}

/// A number in base sixteen has a digit for each four bits, the last the lowest.
pub proof fn lemma_hexadecimal(value: nat)
    ensures
        hexadecimal(value).len() > 0,
        value >= 16 ==> hexadecimal(value).drop_last() == hexadecimal(value / 16),
        value < 16 ==> hexadecimal(value).len() == 1,
        value % 16 < 10 ==> hexadecimal(value).last() as int == '0' as int + value % 16,
        value % 16 >= 10 ==> hexadecimal(value).last() as int == 'a' as int + value % 16 - 10,
{
    if value >= 16 {
        assert(hexadecimal(value).drop_last() =~= hexadecimal(value / 16));
    }
}

} // verus!
