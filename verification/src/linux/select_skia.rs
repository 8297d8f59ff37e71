//! The selector: a part of an output is drawn, changed and confirmed.
//!
//! Places are counted in 256ths of a pixel, as the compositor counts them.
use vstd::prelude::*;

use crate::selector::{Interaction, Mode, Point, Rect, Region, MIN_SEL};
use crate::text::same;

verus! {

/// How far the pointer may move before a click counts as a drag: the square of three pixels.
pub const DRAG_SLOP_SQUARED: i64 = 589_824;

/// How many pictures of the overlay are kept at most.
pub const MAX_SLOTS: usize = 3;

/// A control of the recorder's toolbar.
#[derive(Clone, Copy, Debug, PartialEq, Eq, Structural)]
pub enum RecordControlHit {
    Clip,
    Audio,
    Frame,
    Record,
    Background,
}

/// Whether a place lies in a part: on its left and upper edge, but not on the others.
pub fn contains(rect: Rect, point: Point) -> (r: bool)
    requires
        i64::MIN <= rect.x + rect.w <= i64::MAX,
        i64::MIN <= rect.y + rect.h <= i64::MAX,
    ensures
        r == (rect.x <= point.x < rect.x + rect.w && rect.y <= point.y < rect.y + rect.h),
{
    point.x >= rect.x && point.x < rect.x + rect.w && point.y >= rect.y && point.y < rect.y + rect.h
}

/// The control that a place hits, given which controls of the toolbar it lies in, in the order in
/// which they stand, and whether it lies in the toolbar at all.
pub fn record_control_hit(record: bool, clip: bool, frame: bool, audio: bool, toolbar: bool) -> (r:
    Option<RecordControlHit>)
    ensures
        r == (if record {
            Some(RecordControlHit::Record)
        } else if clip {
            Some(RecordControlHit::Clip)
        } else if frame {
            Some(RecordControlHit::Frame)
        } else if audio {
            Some(RecordControlHit::Audio)
        } else if toolbar {
            Some(RecordControlHit::Background)
        } else {
            None
        }),
{
    if record {
        Some(RecordControlHit::Record)
    } else if clip {
        Some(RecordControlHit::Clip)
    } else if frame {
        Some(RecordControlHit::Frame)
    } else if audio {
        Some(RecordControlHit::Audio)
    } else if toolbar {
        Some(RecordControlHit::Background)
    } else {
        None
    }
}

/// What the pointer does.
#[derive(Clone, Copy, Debug, PartialEq, Eq, Structural)]
pub enum PointerKind {
    /// The left button is pressed.
    Press,
    Motion,
    /// The left button is let go.
    Release,
    Other,
}

/// How the pointer's place lies to the selection.
#[derive(Clone, Copy, Debug, PartialEq, Eq, Structural)]
pub struct Facts {
    /// The control under the pointer's last place.
    pub previous: Option<RecordControlHit>,
    /// The control under the pointer.
    pub hit: Option<RecordControlHit>,
    /// What of the selection is under the pointer.
    pub region: Region,
    /// The selection with the handle that is held brought to the pointer.
    pub resized: Rect,
    /// The selection with the place where it is held brought to the pointer: its corner where
    /// [`crate::selector::move_target`] says, or as near as the screen lets it.
    pub moved: Rect,
}

/// What follows from what the pointer did.
#[derive(Clone, Copy, Debug, PartialEq, Eq, Structural)]
pub enum Outcome {
    /// The next event is taken; at the end the overlay is drawn where `redraw` is set.
    Next { redraw: bool },
    /// Nothing more is done.
    Nothing,
    /// The overlay is drawn.
    Redraw,
    /// The selection is confirmed.
    Confirm(Rect),
    /// The user is told that there is nothing to clip; `replay` says whether a replay runs.
    NoClip { replay: bool },
}

/// What follows from confirming a selection.
#[derive(Clone, Copy, Debug, PartialEq, Eq, Structural)]
pub enum Confirmed {
    /// The selector ends.
    Done,
    /// The selection was too small: the overlay is drawn without it.
    Redraw,
    /// The picture has to be cropped.
    Crop,
}

/// The selector's state.
#[derive(Clone, Copy, Debug, PartialEq, Eq, Structural)]
pub struct Selector {
    pub mode: Mode,
    pub interaction: Option<Interaction>,
    pub cursor: Point,
    /// The magnifier is shown.
    pub alt_held: bool,
    pub done: bool,
    /// A part is confirmed as soon as it is drawn.
    pub instant: bool,
    /// A recording is chosen, not a picture.
    pub record_mode: bool,
    pub show_frame: bool,
    pub audio_enabled: bool,
    pub result_rect: Option<Rect>,
    pub result_clip: bool,
    /// A replay runs.
    pub replay: bool,
    /// A moment of the replay is held, so that it can be clipped.
    pub frozen: bool,
    pub clip_reported: bool,
    /// A picture of the output is there.
    pub has_image: bool,
}

/// What the overlay shows.
#[derive(Clone, Copy, Debug, PartialEq, Eq)]
pub struct Scene {
    pub selection: Option<Rect>,
    /// The selection can be changed.
    pub editing: bool,
    /// The recorder's toolbar is shown.
    pub record: bool,
    /// Whether there is something to clip, whether the frame is shown and whether sound is taken.
    pub toggles: (bool, bool, bool),
    /// The control of the toolbar that the pointer is over.
    pub hovered: Option<usize>,
    /// The place that is magnified.
    pub magnifier: Option<Point>,
}

/// The square of the way between two places.
pub open spec fn distance_squared(a: Point, b: Point) -> int {
    (a.x - b.x) * (a.x - b.x) + (a.y - b.y) * (a.y - b.y)
}

impl Selector {
    /// The pointer's places are ones that the compositor can name.
    pub open spec fn in_range(self) -> bool {
        &&& self.cursor.in_range()
        &&& (self.mode matches Mode::Drawing { anchor, now } ==> anchor.in_range()
            && now.in_range())
        &&& (self.interaction matches Some(Interaction::ClickInside { press })
            ==> press.in_range())
        &&& (self.mode matches Mode::Editing { rect } ==> (Point {
            x: rect.x,
            y: rect.y,
        }).in_range())
    }

    /// The selection as a part that is drawn, where there is one.
    pub open spec fn shown(self) -> Option<Rect> {
        match self.mode {
            Mode::Idle => None,
            Mode::Drawing { anchor, now } => Some(Rect::between(anchor, now)),
            Mode::Editing { rect } => Some(rect),
        }
    }

    /// What the overlay shows while the pointer is over the given control of the toolbar.
    pub open spec fn pictured(self, hovered: Option<usize>) -> Scene {
        Scene {
            selection: self.shown(),
            editing: self.mode is Editing,
            record: self.record_mode,
            toggles: if self.record_mode {
                (self.frozen, self.show_frame, self.audio_enabled)
            } else {
                (false, false, false)
            },
            hovered: if self.record_mode {
                hovered
            } else {
                None
            },
            magnifier: if self.alt_held && !self.record_mode {
                Some(self.cursor)
            } else {
                None
            },
        }
    }

    /// Another part is begun at a place.
    pub open spec fn begun(self, at: Point) -> Selector {
        Selector { mode: Mode::Drawing { anchor: at, now: at }, interaction: None, ..self }
    }

    /// A control of the toolbar is pressed.
    pub open spec fn toolbar_pressed(self, rect: Rect, hit: RecordControlHit) -> (
        Selector,
        Outcome,
    ) {
        match hit {
            RecordControlHit::Clip => if self.frozen {
                (Selector { result_clip: true, ..self }, Outcome::Confirm(rect))
            } else if !self.clip_reported {
                (
                    Selector { clip_reported: true, ..self },
                    Outcome::NoClip { replay: self.replay },
                )
            } else {
                (self, Outcome::Nothing)
            },
            RecordControlHit::Audio => (
                Selector { audio_enabled: !self.audio_enabled, interaction: None, ..self },
                Outcome::Redraw,
            ),
            RecordControlHit::Frame => (
                Selector { show_frame: !self.show_frame, interaction: None, ..self },
                Outcome::Redraw,
            ),
            RecordControlHit::Record => (self, Outcome::Confirm(rect)),
            RecordControlHit::Background => (self, Outcome::Nothing),
        }
    }

    /// The left button is pressed.
    pub open spec fn pressed(self, at: Point, facts: Facts) -> (Selector, Outcome) {
        let drawn = Outcome::Next { redraw: true };
        match self.mode {
            Mode::Editing { rect } => if self.record_mode && facts.hit is Some {
                self.toolbar_pressed(rect, facts.hit->Some_0)
            } else {
                match facts.region {
                    Region::Handle(handle) => (
                        Selector { interaction: Some(Interaction::Resize { handle }), ..self },
                        drawn,
                    ),
                    Region::Inside => (
                        Selector {
                            interaction: Some(Interaction::ClickInside { press: at }),
                            ..self
                        },
                        drawn,
                    ),
                    Region::Outside => (self.begun(at), drawn),
                }
            },
            _ => (self.begun(at), drawn),
        }
    }

    /// The pointer moves.
    pub open spec fn motioned(self, at: Point, facts: Facts, redraw: bool) -> (Selector, Outcome) {
        let drawn = Outcome::Next { redraw: true };
        let lens = Outcome::Next { redraw: redraw || self.alt_held };
        match self.mode {
            Mode::Drawing { anchor, .. } => (
                Selector { mode: Mode::Drawing { anchor, now: at }, ..self },
                drawn,
            ),
            Mode::Editing { rect } => match self.interaction {
                Some(Interaction::Resize { .. }) => (
                    Selector { mode: Mode::Editing { rect: facts.resized }, ..self },
                    drawn,
                ),
                Some(Interaction::Move { .. }) => (
                    Selector { mode: Mode::Editing { rect: facts.moved }, ..self },
                    drawn,
                ),
                Some(Interaction::ClickInside { press }) => if distance_squared(at, press)
                    > DRAG_SLOP_SQUARED {
                    (
                        Selector {
                            interaction: Some(
                                Interaction::Move {
                                    grab: Point {
                                        x: (at.x - rect.x) as i64,
                                        y: (at.y - rect.y) as i64,
                                    },
                                },
                            ),
                            ..self
                        },
                        drawn,
                    )
                } else {
                    (self, lens)
                },
                None => (self, lens),
            },
            Mode::Idle => (self, lens),
        }
    }

    /// The left button is let go.
    pub open spec fn released(self, redraw: bool) -> (Selector, Outcome) {
        match self.mode {
            Mode::Drawing { anchor, now } => {
                let rect = Rect::between(anchor, now);
                if rect.tiny() {
                    (
                        Selector { mode: Mode::Idle, interaction: None, ..self },
                        Outcome::Next { redraw: true },
                    )
                } else if self.instant {
                    (self, Outcome::Confirm(rect))
                } else {
                    (
                        Selector { mode: Mode::Editing { rect }, interaction: None, ..self },
                        Outcome::Next { redraw: true },
                    )
                }
            },
            Mode::Editing { rect } => match self.interaction {
                Some(Interaction::ClickInside { .. }) => (self, Outcome::Confirm(rect)),
                _ => (Selector { interaction: None, ..self }, Outcome::Next { redraw }),
            },
            Mode::Idle => (self, Outcome::Next { redraw }),
        }
    }

    /// What follows from what the pointer does; `redraw` says whether the overlay is to be drawn
    /// for what it did before.
    pub open spec fn pointed(self, kind: PointerKind, at: Point, facts: Facts, redraw: bool) -> (
        Selector,
        Outcome,
    ) {
        let here = Selector { cursor: at, ..self };
        let hovered = redraw || (self.record_mode && self.mode is Editing && facts.previous
            != facts.hit);
        match kind {
            PointerKind::Press => here.pressed(at, facts),
            PointerKind::Motion => here.motioned(at, facts, hovered),
            PointerKind::Release => here.released(hovered),
            PointerKind::Other => (here, Outcome::Next { redraw: hovered }),
        }
    }

    /// What follows from confirming a selection.
    pub open spec fn confirmed(self, rect: Rect) -> (Selector, Confirmed) {
        if self.record_mode {
            if rect.tiny() {
                (Selector { mode: Mode::Idle, ..self }, Confirmed::Redraw)
            } else {
                (Selector { result_rect: Some(rect), done: true, ..self }, Confirmed::Done)
            }
        } else if !self.has_image {
            (Selector { done: true, ..self }, Confirmed::Done)
        } else {
            (self, Confirmed::Crop)
        }
    }

    /// A selector that has just been opened.
    pub fn new(
        instant: bool,
        record_mode: bool,
        show_frame: bool,
        audio_enabled: bool,
        replay: bool,
        has_image: bool,
    ) -> (r: Selector)
        ensures
            r == (Selector {
                mode: Mode::Idle,
                interaction: None,
                cursor: Point { x: 0, y: 0 },
                alt_held: false,
                done: false,
                instant,
                record_mode,
                show_frame,
                audio_enabled,
                result_rect: None,
                result_clip: false,
                replay,
                frozen: false,
                clip_reported: false,
                has_image,
            }),
            r.in_range(),
    {
        Selector {
            mode: Mode::Idle,
            interaction: None,
            cursor: Point { x: 0, y: 0 },
            alt_held: false,
            done: false,
            instant,
            record_mode,
            show_frame,
            audio_enabled,
            result_rect: None,
            result_clip: false,
            replay,
            frozen: false,
            clip_reported: false,
            has_image,
        }
    }

    /// The selection as a part that is drawn, where there is one.
    pub fn selection(&self) -> (r: Option<Rect>)
        requires
            self.in_range(),
        ensures
            r == self.shown(),
    {
        match self.mode {
            Mode::Idle => None,
            Mode::Drawing { anchor, now } => Some(Rect::from_corners(anchor, now)),
            Mode::Editing { rect } => Some(rect),
        }
    }

    /// What the overlay shows while the pointer is over the given control of the toolbar. The
    /// toolbar is the recorder's alone, and the magnifier is not.
    pub fn scene(&self, hovered: Option<usize>) -> (r: Scene)
        requires
            self.in_range(),
        ensures
            r == self.pictured(hovered),
    {
        let editing = match self.mode {
            Mode::Editing { .. } => true,
            _ => false,
        };
        Scene {
            selection: self.selection(),
            editing,
            record: self.record_mode,
            toggles: if self.record_mode {
                (self.frozen, self.show_frame, self.audio_enabled)
            } else {
                (false, false, false)
            },
            hovered: if self.record_mode {
                hovered
            } else {
                None
            },
            magnifier: if self.alt_held && !self.record_mode {
                Some(self.cursor)
            } else {
                None
            },
        }
    }

    /// A control of the toolbar is pressed.
    fn press_toolbar(&mut self, rect: Rect, hit: RecordControlHit) -> (r: Outcome)
        ensures
            (*final(self), r) == old(self).toolbar_pressed(rect, hit),
    {
        match hit {
            RecordControlHit::Clip => {
                if self.frozen {
                    self.result_clip = true;
                    Outcome::Confirm(rect)
                } else if !self.clip_reported {
                    self.clip_reported = true;
                    Outcome::NoClip { replay: self.replay }
                } else {
                    Outcome::Nothing
                }
            },
            RecordControlHit::Audio => {
                self.audio_enabled = !self.audio_enabled;
                self.interaction = None;
                Outcome::Redraw
            },
            RecordControlHit::Frame => {
                self.show_frame = !self.show_frame;
                self.interaction = None;
                Outcome::Redraw
            },
            RecordControlHit::Record => Outcome::Confirm(rect),
            RecordControlHit::Background => Outcome::Nothing,
        }
    }

    /// The left button is pressed.
    fn press(&mut self, at: Point, facts: Facts) -> (r: Outcome)
        ensures
            (*final(self), r) == old(self).pressed(at, facts),
    {
        match self.mode {
            Mode::Editing { rect } => {
                if self.record_mode {
                    match facts.hit {
                        Some(hit) => {
                            return self.press_toolbar(rect, hit);
                        },
                        None => {},
                    }
                }
                match facts.region {
                    Region::Handle(handle) => {
                        self.interaction = Some(Interaction::Resize { handle });
                    },
                    Region::Inside => {
                        self.interaction = Some(Interaction::ClickInside { press: at });
                    },
                    Region::Outside => {
                        self.mode = Mode::Drawing { anchor: at, now: at };
                        self.interaction = None;
                    },
                }
            },
            _ => {
                self.mode = Mode::Drawing { anchor: at, now: at };
                self.interaction = None;
            },
        }
        Outcome::Next { redraw: true }
    }

    /// The pointer moves.
    fn motion(&mut self, at: Point, facts: Facts, redraw: bool) -> (r: Outcome)
        requires
            old(self).in_range(),
            at.in_range(),
        ensures
            (*final(self), r) == old(self).motioned(at, facts, redraw),
    {
        match self.mode {
            Mode::Drawing { anchor, .. } => {
                self.mode = Mode::Drawing { anchor, now: at };
                Outcome::Next { redraw: true }
            },
            Mode::Editing { rect } => match self.interaction {
                Some(Interaction::Resize { .. }) => {
                    self.mode = Mode::Editing { rect: facts.resized };
                    Outcome::Next { redraw: true }
                },
                Some(Interaction::Move { .. }) => {
                    self.mode = Mode::Editing { rect: facts.moved };
                    Outcome::Next { redraw: true }
                },
                Some(Interaction::ClickInside { press }) => {
                    let across: i128 = at.x as i128 - press.x as i128;
                    let down: i128 = at.y as i128 - press.y as i128;
                    proof {
                        assert(across * across <= 0x400_0000_0000 * 0x400_0000_0000) by (nonlinear_arith)
                            requires
                                -0x400_0000_0000 <= across <= 0x400_0000_0000,
                        ;
                        assert(down * down <= 0x400_0000_0000 * 0x400_0000_0000) by (nonlinear_arith)
                            requires
                                -0x400_0000_0000 <= down <= 0x400_0000_0000,
                        ;
                        assert(across * across >= 0) by (nonlinear_arith);
                        assert(down * down >= 0) by (nonlinear_arith);
                    }
                    if across * across + down * down > DRAG_SLOP_SQUARED as i128 {
                        self.interaction = Some(
                            Interaction::Move {
                                grab: Point { x: at.x - rect.x, y: at.y - rect.y },
                            },
                        );
                        Outcome::Next { redraw: true }
                    } else {
                        Outcome::Next { redraw: redraw || self.alt_held }
                    }
                },
                None => Outcome::Next { redraw: redraw || self.alt_held },
            },
            Mode::Idle => Outcome::Next { redraw: redraw || self.alt_held },
        }
    }

    /// The left button is let go.
    fn release(&mut self, redraw: bool) -> (r: Outcome)
        requires
            old(self).in_range(),
        ensures
            (*final(self), r) == old(self).released(redraw),
    {
        match self.mode {
            Mode::Drawing { anchor, now } => {
                let rect = Rect::from_corners(anchor, now);
                if rect.w < MIN_SEL || rect.h < MIN_SEL {
                    self.mode = Mode::Idle;
                } else if self.instant {
                    return Outcome::Confirm(rect);
                } else {
                    self.mode = Mode::Editing { rect };
                }
                self.interaction = None;
                Outcome::Next { redraw: true }
            },
            Mode::Editing { rect } => {
                match self.interaction {
                    Some(Interaction::ClickInside { .. }) => {
                        return Outcome::Confirm(rect);
                    },
                    _ => {},
                }
                self.interaction = None;
                Outcome::Next { redraw }
            },
            Mode::Idle => Outcome::Next { redraw },
        }
    }

    /// What follows from what the pointer does. Of the pictures that the pointer gives at a time,
    /// those behind one with another outcome than [`Outcome::Next`] are passed over.
    pub fn pointer_frame(&mut self, kind: PointerKind, at: Point, facts: Facts, redraw: bool) -> (r:
        Outcome)
        requires
            old(self).in_range(),
            at.in_range(),
        ensures
            (*final(self), r) == old(self).pointed(kind, at, facts, redraw),
    {
        let editing = match self.mode {
            Mode::Editing { .. } => true,
            _ => false,
        };
        self.cursor = at;
        let hovered = redraw || (self.record_mode && editing && facts.previous != facts.hit);
        match kind {
            PointerKind::Press => self.press(at, facts),
            PointerKind::Motion => self.motion(at, facts, hovered),
            PointerKind::Release => self.release(hovered),
            PointerKind::Other => Outcome::Next { redraw: hovered },
        }
    }

    /// Confirms a selection.
    pub fn confirm_rect(&mut self, rect: Rect) -> (r: Confirmed)
        ensures
            (*final(self), r) == old(self).confirmed(rect),
    {
        if self.record_mode {
            if rect.w < MIN_SEL || rect.h < MIN_SEL {
                self.mode = Mode::Idle;
                return Confirmed::Redraw;
            }
            self.result_rect = Some(rect);
            self.done = true;
            return Confirmed::Done;
        }
        if !self.has_image {
            self.done = true;
            return Confirmed::Done;
        }
        Confirmed::Crop
    }

    /// Takes note of whether the selection has pixels in the picture.
    pub fn cropped(&mut self, found: bool) -> (r: Confirmed)
        ensures
            (*final(self), r) == (if found {
                (Selector { done: true, ..*old(self) }, Confirmed::Done)
            } else {
                (Selector { mode: Mode::Idle, ..*old(self) }, Confirmed::Redraw)
            }),
    {
        if found {
            self.done = true;
            Confirmed::Done
        } else {
            self.mode = Mode::Idle;
            Confirmed::Redraw
        }
    }

    /// Ends the selector without a result.
    pub fn cancel(&mut self)
        ensures
            *final(self) == (Selector { done: true, ..*old(self) }),
    {
        self.done = true;
    }

    /// The selection that a key confirms: the one that can be changed.
    pub fn key_confirms(&self) -> (r: Option<Rect>)
        ensures
            r == (match self.mode {
                Mode::Editing { rect } => Some(rect),
                _ => None,
            }),
    {
        match self.mode {
            Mode::Editing { rect } => Some(rect),
            _ => None,
        }
    }

    /// Takes note of whether Alt is held, and says whether the overlay is to be drawn.
    pub fn update_modifiers(&mut self, alt: bool) -> (r: bool)
        ensures
            r == (old(self).alt_held != alt),
            *final(self) == (Selector { alt_held: alt, ..*old(self) }),
    {
        let changed = self.alt_held != alt;
        self.alt_held = alt;
        changed
    }

    /// Takes note of a moment of the replay that is held from now on.
    pub fn freeze(&mut self)
        ensures
            *final(self) == (Selector {
                frozen: true,
                clip_reported: false,
                has_image: true,
                ..*old(self)
            }),
    {
        self.frozen = true;
        self.clip_reported = false;
        self.has_image = true;
    }

    /// Takes note of a moment of a replay that has been fetched, and says whether it is held from
    /// now on: it has to be of the output whose replay runs, and to come with a picture. `pictured`
    /// says whether it does.
    pub fn fetched(&mut self, replay: Option<&str>, output: &str, pictured: bool) -> (r: bool)
        ensures
            r == (pictured && (replay matches Some(name) && name@ == output@)),
            *final(self) == (if r {
                Selector { frozen: true, clip_reported: false, has_image: true, ..*old(self) }
            } else if replay matches Some(name) && name@ == output@ {
                Selector { has_image: false, ..*old(self) }
            } else {
                *old(self)
            }),
            r ==> final(self).frozen && final(self).has_image,
            !r ==> final(self).frozen == old(self).frozen,
            final(self).mode == old(self).mode,
    {
        let fits = match replay {
            Some(name) => same(name, output),
            None => false,
        };
        if !fits {
            return false;
        }
        if pictured {
            self.freeze();
        } else {
            self.has_image = false;
        }
        pictured
    }

    /// Ends the selector where the picture of its output no longer fits the output, and says why.
    pub fn update_output(&mut self, target: Option<Option<Placement>>, captured: Option<Layout>) -> (r:
        Option<String>)
        ensures
            r is Some <==> !layout_fits(target, captured),
            r matches Some(message) ==> message@ == "capture monitor layout changed"@,
            *final(self) == (if r is Some {
                Selector { done: true, ..*old(self) }
            } else {
                *old(self)
            }),
    {
        if target_layout_valid(target, captured) {
            return None;
        }
        self.done = true;
        Some("capture monitor layout changed".to_owned())
    }

    /// Ends the selector where the output that is gone is its own, and says why.
    pub fn output_destroyed(&mut self, own: bool) -> (r: Option<String>)
        ensures
            r is Some <==> own,
            r matches Some(message) ==> message@ == "capture monitor disconnected"@,
            *final(self) == (if own {
                Selector { done: true, ..*old(self) }
            } else {
                *old(self)
            }),
    {
        if !own {
            return None;
        }
        self.done = true;
        Some("capture monitor disconnected".to_owned())
    }
}

/// The magnifier and the recorder's toolbar are never shown together.
pub proof fn lemma_magnifier_or_toolbar(selector: Selector, hovered: Option<usize>)
    ensures
        ({
            let scene = selector.pictured(hovered);
            &&& scene.record ==> scene.magnifier is None
            &&& scene.hovered is Some ==> scene.record
            &&& scene.toggles != (false, false, false) ==> scene.record
        }),
{
}

/// Pressing a control of the toolbar leaves the selection as it is.
pub proof fn lemma_toolbar_keeps_selection(selector: Selector, at: Point, facts: Facts, redraw: bool)
    requires
        selector.record_mode,
        selector.mode is Editing,
        facts.hit is Some,
    ensures
        selector.pointed(PointerKind::Press, at, facts, redraw).0.mode == selector.mode,
{
}

/// Only the record control, and the clip control where there is something to clip, confirm the
/// selection. The others do not.
pub proof fn lemma_confirming_controls(selector: Selector, at: Point, facts: Facts, redraw: bool)
    requires
        selector.record_mode,
        selector.mode is Editing,
        facts.hit is Some,
    ensures
        selector.pointed(PointerKind::Press, at, facts, redraw).1 is Confirm <==> (facts.hit
            == Some(RecordControlHit::Record) || (facts.hit == Some(RecordControlHit::Clip)
            && selector.frozen)),
{
}

/// A click on the selection confirms it, though the pointer trembles.
pub proof fn lemma_trembling_click(
    selector: Selector,
    press: Point,
    at: Point,
    first: Facts,
    second: Facts,
    third: Facts,
)
    requires
        selector.mode is Editing,
        !selector.record_mode || first.hit is None,
        first.region == Region::Inside,
        distance_squared(at, press) <= DRAG_SLOP_SQUARED,
    ensures
        ({
            let pressed = selector.pointed(PointerKind::Press, press, first, false).0;
            let trembled = pressed.pointed(PointerKind::Motion, at, second, true).0;
            trembled.pointed(PointerKind::Release, at, third, true).1 == Outcome::Confirm(
                selector.mode->Editing_rect,
            )
        }),
{
}

/// A part that begins to be moved stays where it is: it goes with the pointer from there on.
pub proof fn lemma_move_begins_in_place(
    selector: Selector,
    press: Point,
    at: Point,
    facts: Facts,
    redraw: bool,
)
    requires
        selector.in_range(),
        at.in_range(),
        selector.mode is Editing,
        selector.interaction == Some(Interaction::ClickInside { press }),
        distance_squared(at, press) > DRAG_SLOP_SQUARED,
    ensures
        ({
            let moved = selector.pointed(PointerKind::Motion, at, facts, redraw).0;
            let rect = selector.mode->Editing_rect;
            &&& moved.mode == selector.mode
            &&& moved.interaction matches Some(Interaction::Move { grab })
            &&& at.x - grab.x == rect.x
            &&& at.y - grab.y == rect.y
        }),
{
}

/// The user is told only once that there is nothing to clip.
pub proof fn lemma_told_once(selector: Selector, at: Point, facts: Facts, redraw: bool)
    requires
        selector.record_mode,
        selector.mode is Editing,
        !selector.frozen,
        facts.hit == Some(RecordControlHit::Clip),
    ensures
        ({
            let (after, _) = selector.pointed(PointerKind::Press, at, facts, redraw);
            after.pointed(PointerKind::Press, at, facts, redraw).1 == Outcome::Nothing
        }),
{
}

/// A part that is drawn and let go is selected unless it is too small.
pub proof fn lemma_drawn_is_selected(
    selector: Selector,
    anchor: Point,
    end: Point,
    first: Facts,
    second: Facts,
    third: Facts,
)
    requires
        selector.mode is Idle,
        !selector.instant,
    ensures
        ({
            let pressed = selector.pointed(PointerKind::Press, anchor, first, false).0;
            let drawn = pressed.pointed(PointerKind::Motion, end, second, true).0;
            let rect = Rect::between(anchor, end);
            drawn.pointed(PointerKind::Release, end, third, true).0.mode == (if rect.tiny() {
                Mode::Idle
            } else {
                Mode::Editing { rect }
            })
        }),
{
}

/// A confirmed recording is never too small.
pub proof fn lemma_confirmed_is_large(selector: Selector, rect: Rect)
    requires
        selector.record_mode,
        selector.result_rect is None,
    ensures
        selector.confirmed(rect).0.result_rect matches Some(result) ==> result == rect
            && !rect.tiny(),
{
}

/// The selector's places stay ones that the compositor can name.
pub proof fn lemma_range_kept(
    selector: Selector,
    kind: PointerKind,
    at: Point,
    facts: Facts,
    redraw: bool,
)
    requires
        selector.in_range(),
        at.in_range(),
        (Point { x: facts.resized.x, y: facts.resized.y }).in_range(),
        (Point { x: facts.moved.x, y: facts.moved.y }).in_range(),
    ensures
        selector.pointed(kind, at, facts, redraw).0.in_range(),
{
}

/// What is told where there is nothing to clip.
pub fn no_clip_message(replay: bool) -> (r: &'static str)
    ensures
        r@ == (if replay {
            "Replay preview is unavailable or still loading. REC remains available."@
        } else {
            "No replay buffer to clip from. Start it from the tray menu (Replay buffer \u{2192} Start) or with `boltsnap replay start`."@
        }),
{
    if replay {
        "Replay preview is unavailable or still loading. REC remains available."
    } else {
        "No replay buffer to clip from. Start it from the tray menu (Replay buffer \u{2192} Start) or with `boltsnap replay start`."
    }
}

/// How an output lies, or lay when its picture was taken.
#[derive(Clone, Copy, Debug, PartialEq, Eq, Structural)]
pub struct Layout {
    pub x: i32,
    pub y: i32,
    pub width: i32,
    pub height: i32,
    pub transform: u32,
}

/// How an output lies now. Not every compositor tells its place and size in the desktop.
#[derive(Clone, Copy, Debug, PartialEq, Eq, Structural)]
pub struct Placement {
    pub transform: u32,
    /// The place in pixels, and the one in the desktop.
    pub location: Point,
    pub logical_position: Option<Point>,
    pub logical_size: Option<Point>,
}

/// The picture of an output still fits it. `target` is the output that the selector is on, `None`
/// inside where it is gone; `captured` is how it lay when its picture was taken.
pub open spec fn layout_fits(target: Option<Option<Placement>>, captured: Option<Layout>) -> bool {
    match target {
        None => true,
        Some(None) => false,
        Some(Some(now)) => match captured {
            None => true,
            Some(then) => {
                let position = match now.logical_position {
                    Some(position) => position,
                    None => now.location,
                };
                &&& now.transform == then.transform
                &&& position == (Point { x: then.x as i64, y: then.y as i64 })
                &&& (now.logical_size matches Some(size) ==> size == (Point {
                    x: then.width as i64,
                    y: then.height as i64,
                }))
            },
        },
    }
}

/// Whether the picture of an output still fits it.
pub fn target_layout_valid(target: Option<Option<Placement>>, captured: Option<Layout>) -> (r: bool)
    ensures
        r == layout_fits(target, captured),
{
    match target {
        None => true,
        Some(None) => false,
        Some(Some(now)) => match captured {
            None => true,
            Some(then) => {
                let position = match now.logical_position {
                    Some(position) => position,
                    None => now.location,
                };
                let sized = match now.logical_size {
                    Some(size) => size.x == then.width as i64 && size.y == then.height as i64,
                    None => true,
                };
                now.transform == then.transform && position.x == then.x as i64 && position.y
                    == then.y as i64 && sized
            },
        },
    }
}

/// Whether the selector can open on an output whose picture was taken.
pub fn check_layout(target: Option<Option<Placement>>, captured: Option<Layout>) -> (r: Result<
    (),
    String,
>)
    ensures
        r is Ok <==> layout_fits(target, captured),
        r matches Err(message) ==> message@ == "capture monitor layout changed during capture"@,
{
    if target_layout_valid(target, captured) {
        Ok(())
    } else {
        Err("capture monitor layout changed during capture".to_owned())
    }
}

/// The place of the first output of the given name from `at` on.
pub open spec fn output_named(names: Seq<Seq<char>>, name: Seq<char>, at: int) -> int
    decreases names.len() - at,
{
    if at < 0 || at >= names.len() || names[at] == name {
        at
    } else {
        output_named(names, name, at + 1)
    }
}

/// The place of the first output of the given name.
fn place_of(names: &Vec<String>, name: &str) -> (r: usize)
    ensures
        r == output_named(crate::text::views(names@), name@, 0),
        r <= names.len(),
{
    let ghost all = crate::text::views(names@);
    let mut at: usize = 0;
    while at < names.len() && !same(names[at].as_str(), name)
        invariant
            all == crate::text::views(names@),
            at <= names.len(),
            output_named(all, name@, 0) == output_named(all, name@, at as int),
        decreases names.len() - at,
    {
        assert(all[at as int] == names@[at as int]@);
        at = at + 1;
    }
    proof {
        if at < names.len() {
            assert(all[at as int] == names@[at as int]@);
        }
    }
    at
}

/// The output that the selector opens on: the one whose picture was taken, or the focused one, or
/// the first. There is none where there are no outputs.
pub fn choose_output(names: &Vec<String>, target: Option<&str>, focused: Option<&str>) -> (r: Result<
    Option<usize>,
    String,
>)
    ensures
        ({
            let all = crate::text::views(names@);
            match target {
                Some(name) => if output_named(all, name@, 0) < all.len() {
                    r matches Ok(Some(place)) && place == output_named(all, name@, 0)
                } else {
                    r matches Err(message) && message@ == "capture monitor disconnected"@
                },
                None => if all.len() == 0 {
                    r matches Ok(None)
                } else {
                    r matches Ok(Some(place)) && place == (match focused {
                        Some(name) if all.len() > 1 && output_named(all, name@, 0) < all.len() => {
                            output_named(all, name@, 0)
                        },
                        _ => 0,
                    })
                },
            }
        }),
{
    match target {
        Some(name) => {
            let place: usize = place_of(names, name);
            if place < names.len() {
                Ok(Some(place))
            } else {
                Err("capture monitor disconnected".to_owned())
            }
        },
        None => {
            if names.len() == 0 {
                return Ok(None);
            }
            if names.len() > 1 {
                match focused {
                    Some(name) => {
                        let place: usize = place_of(names, name);
                        if place < names.len() {
                            return Ok(Some(place));
                        }
                    },
                    None => {},
                }
            }
            Ok(Some(0))
        },
    }
}

/// Whether the picture under the overlay has to be made anew: there is none, or it has another
/// size.
pub fn base_is_stale(base: Option<(u32, u32)>, size: (u32, u32)) -> (r: bool)
    ensures
        r == (base != Some(size)),
{
    match base {
        Some(base) => base.0 != size.0 || base.1 != size.1,
        None => true,
    }
}

/// The size of the overlay after the compositor has proposed one: a side that it leaves open stays
/// as it was, and is at least one pixel.
pub fn configured_size(proposed: (u32, u32), current: (u32, u32)) -> (r: (u32, u32))
    ensures
        r.0 == (if proposed.0 != 0 {
            proposed.0
        } else if current.0 > 0 {
            current.0
        } else {
            1
        }),
        r.1 == (if proposed.1 != 0 {
            proposed.1
        } else if current.1 > 0 {
            current.1
        } else {
            1
        }),
{
    let w: u32 = if proposed.0 != 0 {
        proposed.0
    } else if current.0 > 0 {
        current.0
    } else {
        1
    };
    let h: u32 = if proposed.1 != 0 {
        proposed.1
    } else if current.1 > 0 {
        current.1
    } else {
        1
    };
    (w, h)
}

/// A picture of the overlay that the compositor may hold.
pub struct FrameBuffer<B> {
    pub buffer: B,
    /// Which version of the overlay it shows.
    pub generation: Option<u64>,
    pub width: u32,
    pub height: u32,
    /// The compositor has let go of it.
    pub free: bool,
}

impl<B> FrameBuffer<B> {
    /// The picture has the given size.
    pub open spec fn sized(&self, width: u32, height: u32) -> bool {
        self.width == width && self.height == height
    }
}

/// The pictures that are kept: those of the right size, and those that the compositor holds.
pub open spec fn kept<B>(slots: Seq<FrameBuffer<B>>, width: u32, height: u32) -> Seq<FrameBuffer<B>>
    decreases slots.len(),
{
    if slots.len() == 0 {
        Seq::empty()
    } else if slots[0].sized(width, height) || !slots[0].free {
        seq![slots[0]] + kept(slots.skip(1), width, height)
    } else {
        kept(slots.skip(1), width, height)
    }
}

/// No pictures are added by that.
proof fn lemma_kept<B>(slots: Seq<FrameBuffer<B>>, width: u32, height: u32)
    ensures
        kept(slots, width, height).len() <= slots.len(),
    decreases slots.len(),
{
    if slots.len() > 0 {
        lemma_kept(slots.skip(1), width, height);
    }
}

/// The place of the first picture from `at` on that can be drawn into.
pub open spec fn drawable_from<B>(
    slots: Seq<FrameBuffer<B>>,
    width: u32,
    height: u32,
    at: int,
) -> int
    decreases slots.len() - at,
{
    if at < 0 || at >= slots.len() || (slots[at].sized(width, height) && slots[at].free) {
        at
    } else {
        drawable_from(slots, width, height, at + 1)
    }
}

/// Where the overlay is drawn.
#[derive(Clone, Copy, Debug, PartialEq, Eq, Structural)]
pub enum DrawPlan {
    /// Nothing changed since it was shown last.
    Unchanged,
    /// Into the picture at this place.
    Draw(usize),
    /// Into a new picture.
    Create,
    /// Nowhere, until the compositor lets go of one.
    Wait,
}

/// The pictures of the overlay.
pub struct Slots<B> {
    pub slots: Vec<FrameBuffer<B>>,
    /// Which version of the overlay the compositor shows.
    pub committed: Option<u64>,
}

impl<B> Slots<B> {
    /// No more pictures are kept than may be.
    pub open spec fn well_formed(&self) -> bool {
        self.slots@.len() <= MAX_SLOTS
    }

    /// No pictures yet.
    pub fn new() -> (r: Self)
        ensures
            r.slots@.len() == 0,
            r.committed is None,
            r.well_formed(),
    {
        Slots { slots: Vec::new(), committed: None }
    }

    /// Where the overlay's version `generation` is drawn in the given size.
    pub fn draw(&mut self, width: u32, height: u32, generation: u64) -> (r: DrawPlan)
        requires
            old(self).well_formed(),
        ensures
            final(self).well_formed(),
            final(self).committed == old(self).committed,
            if old(self).committed == Some(generation) {
                &&& r == DrawPlan::Unchanged
                &&& final(self).slots@ == old(self).slots@
            } else {
                let left = kept(old(self).slots@, width, height);
                let place = drawable_from(left, width, height, 0);
                &&& final(self).slots@ == left
                &&& r == (if place < left.len() {
                    DrawPlan::Draw(place as usize)
                } else if left.len() < MAX_SLOTS {
                    DrawPlan::Create
                } else {
                    DrawPlan::Wait
                })
            },
    {
        match self.committed {
            Some(committed) => {
                if committed == generation {
                    return DrawPlan::Unchanged;
                }
            },
            None => {},
        }
        let ghost all = self.slots@;
        proof {
            lemma_kept(all, width, height);
        }
        let mut left: Vec<FrameBuffer<B>> = Vec::new();
        let mut rest: Vec<FrameBuffer<B>> = Vec::new();
        std::mem::swap(&mut rest, &mut self.slots);
        proof {
            assert(left@ + kept(rest@, width, height) =~= kept(all, width, height));
        }
        while rest.len() > 0
            invariant
                left@ + kept(rest@, width, height) == kept(all, width, height),
            decreases rest.len(),
        {
            let ghost before = rest@;
            let ghost gathered = left@;
            let slot = rest.remove(0);
            proof {
                assert(rest@ =~= before.skip(1));
            }
            if (slot.width == width && slot.height == height) || !slot.free {
                left.push(slot);
                proof {
                    assert(left@ + kept(rest@, width, height) =~= gathered + kept(
                        before,
                        width,
                        height,
                    ));
                }
            }
        }
        proof {
            assert(left@ + Seq::<FrameBuffer<B>>::empty() =~= left@);
        }
        self.slots = left;
        let mut at: usize = 0;
        while at < self.slots.len() && !(self.slots[at].width == width && self.slots[at].height
            == height && self.slots[at].free)
            invariant
                at <= self.slots@.len(),
                drawable_from(self.slots@, width, height, 0) == drawable_from(
                    self.slots@,
                    width,
                    height,
                    at as int,
                ),
            decreases self.slots.len() - at,
        {
            at = at + 1;
        }
        if at < self.slots.len() {
            DrawPlan::Draw(at)
        } else if self.slots.len() < MAX_SLOTS {
            DrawPlan::Create
        } else {
            DrawPlan::Wait
        }
    }

    /// Adds a new picture, where there is room, and says where it stands.
    pub fn create(&mut self, buffer: B, width: u32, height: u32) -> (r: usize)
        requires
            old(self).slots@.len() < MAX_SLOTS,
        ensures
            final(self).well_formed(),
            final(self).committed == old(self).committed,
            r == old(self).slots@.len(),
            final(self).slots@ == old(self).slots@.push(
                FrameBuffer { buffer, generation: None, width, height, free: true },
            ),
    {
        let place: usize = self.slots.len();
        self.slots.push(FrameBuffer { buffer, generation: None, width, height, free: true });
        place
    }

    /// Takes note that the overlay's version `generation` was drawn into the picture at `place`
    /// and handed to the compositor.
    pub fn commit(&mut self, place: usize, generation: u64)
        requires
            old(self).well_formed(),
            place < old(self).slots@.len(),
        ensures
            final(self).well_formed(),
            final(self).committed == Some(generation),
            final(self).slots@ == old(self).slots@.update(
                place as int,
                (FrameBuffer {
                    generation: Some(generation),
                    free: false,
                    ..old(self).slots@[place as int]
                }),
            ),
    {
        let mut slot = self.slots.remove(place);
        slot.generation = Some(generation);
        slot.free = false;
        let ghost before = old(self).slots@;
        self.slots.insert(place, slot);
        self.committed = Some(generation);
        proof {
            assert(self.slots@ =~= before.update(place as int, slot));
        }
    }

    /// Takes note that nothing that was drawn shows the overlay any more.
    pub fn forget(&mut self)
        requires
            old(self).well_formed(),
        ensures
            final(self).well_formed(),
            final(self).committed is None,
            final(self).slots@.len() == old(self).slots@.len(),
            forall|i: int|
                0 <= i < old(self).slots@.len() ==> #[trigger] final(self).slots@[i] == (
                FrameBuffer { generation: None, ..old(self).slots@[i] }),
    {
        self.committed = None;
        let ghost before = self.slots@;
        let mut i: usize = 0;
        while i < self.slots.len()
            invariant
                self.committed is None,
                before.len() <= MAX_SLOTS,
                self.slots@.len() == before.len(),
                i <= self.slots@.len(),
                forall|j: int|
                    0 <= j < i ==> #[trigger] self.slots@[j] == (FrameBuffer {
                        generation: None,
                        ..before[j]
                    }),
                forall|j: int| i <= j < before.len() ==> #[trigger] self.slots@[j] == before[j],
            decreases self.slots.len() - i,
        {
            let ghost earlier = self.slots@;
            let mut slot = self.slots.remove(i);
            slot.generation = None;
            self.slots.insert(i, slot);
            proof {
                assert(self.slots@ =~= earlier.update(i as int, slot));
                assert(slot == (FrameBuffer { generation: None, ..before[i as int] }));
            }
            i = i + 1;
        }
    }
}

/// When the overlay is drawn: at most once for each frame of the compositor.
pub struct Pace {
    /// A frame was handed over and not yet taken.
    pub frame_pending: bool,
    pub needs_redraw: bool,
}

impl Pace {
    /// Nothing was drawn and nothing is to be.
    pub fn new() -> (r: Self)
        ensures
            !r.frame_pending,
            !r.needs_redraw,
    {
        Pace { frame_pending: false, needs_redraw: false }
    }

    /// Asks for the overlay to be drawn, and says whether that is done at once.
    pub fn request(&mut self) -> (r: bool)
        ensures
            r == !old(self).frame_pending,
            final(self).needs_redraw,
            final(self).frame_pending == old(self).frame_pending,
    {
        self.needs_redraw = true;
        !self.frame_pending
    }

    /// Takes note that the compositor is ready for another frame, and says whether one is drawn.
    pub fn frame(&mut self) -> (r: bool)
        ensures
            r == old(self).needs_redraw,
            !final(self).frame_pending,
            final(self).needs_redraw == old(self).needs_redraw,
    {
        self.frame_pending = false;
        self.needs_redraw
    }

    /// Whether the overlay is drawn after the events of a round were taken: a picture of it may have
    /// been given back meanwhile. Once the selector is done nothing is drawn.
    pub fn due(&self, done: bool) -> (r: bool)
        ensures
            r == (!done && self.needs_redraw && !self.frame_pending),
    {
        !done && self.needs_redraw && !self.frame_pending
    }

    /// Takes note of what came of drawing: whether a frame was handed over.
    pub fn drawn(&mut self, plan: DrawPlan)
        ensures
            final(self).frame_pending == (match plan {
                DrawPlan::Draw(_) | DrawPlan::Create => true,
                _ => old(self).frame_pending,
            }),
            final(self).needs_redraw == (plan is Wait),
    {
        match plan {
            DrawPlan::Unchanged => {
                self.needs_redraw = false;
            },
            DrawPlan::Wait => {
                self.needs_redraw = true;
            },
            _ => {
                self.frame_pending = true;
                self.needs_redraw = false;
            },
        }
    }
}

/// What the pointer confirms is the selection that is shown: the one that is being edited as it
/// stands, or, where parts are taken at once, the one that is drawn, when the button is let go.
pub proof fn lemma_confirmed_is_shown(
    selector: Selector,
    kind: PointerKind,
    at: Point,
    facts: Facts,
    redraw: bool,
)
    ensures
        selector.pointed(kind, at, facts, redraw).1 matches Outcome::Confirm(rect) ==> {
            &&& selector.shown() == Some(rect)
            &&& selector.mode matches Mode::Editing { rect: edited } ==> rect == edited
            &&& selector.mode is Drawing ==> selector.instant && kind == PointerKind::Release
                && !rect.tiny()
        },
{
}

/// A part that is drawn reaches from where the button was pressed to where the pointer is, and stays
/// so until the button is let go.
pub proof fn lemma_drawn_follows(
    selector: Selector,
    at: Point,
    facts: Facts,
    redraw: bool,
)
    ensures
        selector.mode matches Mode::Drawing { anchor, now } ==> {
            &&& selector.pointed(PointerKind::Motion, at, facts, redraw).0.shown() == Some(
                Rect::between(anchor, at),
            )
            &&& selector.pointed(PointerKind::Motion, at, facts, redraw).0.mode == Mode::Drawing {
                anchor,
                now: at,
            }
            &&& selector.pointed(PointerKind::Other, at, facts, redraw).0.mode == selector.mode
            &&& !selector.instant && !Rect::between(anchor, now).tiny() ==> selector.pointed(
                PointerKind::Release,
                at,
                facts,
                redraw,
            ).0.shown() == selector.shown()
        },
        !(selector.mode is Editing) || (facts.region is Outside && !(selector.record_mode
            && facts.hit is Some)) ==> selector.pointed(
            PointerKind::Press,
            at,
            facts,
            redraw,
        ).0.mode == (Mode::Drawing { anchor: at, now: at }),
{
}

/// The selection that is edited changes only while a handle or its inside is held and the pointer
/// moves, or where another is begun outside of it; it goes where the handle or the inside is
/// brought to.
pub proof fn lemma_edited_follows(
    selector: Selector,
    kind: PointerKind,
    at: Point,
    facts: Facts,
    redraw: bool,
)
    requires
        selector.mode is Editing,
    ensures
        ({
            let after = selector.pointed(kind, at, facts, redraw).0;
            let toolbar = selector.record_mode && facts.hit is Some;
            &&& kind == PointerKind::Motion && (selector.interaction matches Some(
                Interaction::Resize { .. },
            )) ==> after.shown() == Some(facts.resized)
            &&& kind == PointerKind::Motion && (selector.interaction matches Some(
                Interaction::Move { .. },
            )) ==> after.shown() == Some(facts.moved)
            &&& kind == PointerKind::Motion && !(selector.interaction matches Some(
                Interaction::Resize { .. },
            )) && !(selector.interaction matches Some(Interaction::Move { .. })) ==> after.mode
                == selector.mode
            &&& kind == PointerKind::Release || kind == PointerKind::Other ==> after.mode
                == selector.mode
            &&& kind == PointerKind::Press && (toolbar || !(facts.region is Outside))
                ==> after.mode == selector.mode
            &&& kind == PointerKind::Press && !toolbar ==> (facts.region matches Region::Handle(
                handle,
            ) ==> after.interaction == Some(Interaction::Resize { handle }))
            &&& kind == PointerKind::Press && !toolbar && facts.region is Inside
                ==> after.interaction == Some(Interaction::ClickInside { press: at })
        }),
{
}

/// Sound, frame and clip are switched by their own controls alone, and a press switches back. What
/// the selector was opened for does not change, and the pointer is where it was seen last.
pub proof fn lemma_switches(
    selector: Selector,
    kind: PointerKind,
    at: Point,
    facts: Facts,
    redraw: bool,
)
    ensures
        ({
            let after = selector.pointed(kind, at, facts, redraw).0;
            let pressed = kind == PointerKind::Press && selector.mode is Editing
                && selector.record_mode;
            &&& after.audio_enabled != selector.audio_enabled <==> pressed && facts.hit == Some(
                RecordControlHit::Audio,
            )
            &&& after.show_frame != selector.show_frame <==> pressed && facts.hit == Some(
                RecordControlHit::Frame,
            )
            &&& after.result_clip == (selector.result_clip || (pressed && facts.hit == Some(
                RecordControlHit::Clip,
            ) && selector.frozen))
            &&& after.cursor == at
            &&& after.instant == selector.instant
            &&& after.record_mode == selector.record_mode
            &&& after.frozen == selector.frozen
            &&& after.replay == selector.replay
            &&& after.has_image == selector.has_image
            &&& after.done == selector.done
            &&& after.result_rect == selector.result_rect
            &&& after.alt_held == selector.alt_held
        }),
{
}

/// A part that is large enough is recorded as it was confirmed, and ends the selector; a smaller one
/// is dropped, and the selector goes on.
pub proof fn lemma_recorded_part(selector: Selector, rect: Rect)
    requires
        selector.record_mode,
    ensures
        rect.w >= 1024 && rect.h >= 1024 ==> selector.confirmed(rect).0.result_rect == Some(rect)
            && selector.confirmed(rect).0.done && selector.confirmed(rect).1 == Confirmed::Done,
        rect.w < 1024 || rect.h < 1024 ==> selector.confirmed(rect).0.result_rect
            == selector.result_rect && selector.confirmed(rect).0.done == selector.done
            && selector.confirmed(rect).0.mode == Mode::Idle && selector.confirmed(rect).1
            == Confirmed::Redraw,
{
}

/// For a picture the selection is cut out of the picture of the output, where there is one; without
/// it the selector ends.
pub proof fn lemma_pictured_part(selector: Selector, rect: Rect)
    requires
        !selector.record_mode,
    ensures
        selector.has_image ==> selector.confirmed(rect) == (selector, Confirmed::Crop),
        !selector.has_image ==> selector.confirmed(rect).0.done && selector.confirmed(rect).1
            == Confirmed::Done,
        selector.confirmed(rect).0.result_rect == selector.result_rect,
        selector.confirmed(rect).0.mode == selector.mode,
{
}

/// The overlay shows the selection and the switches as they are.
pub proof fn lemma_overlay(selector: Selector, hovered: Option<usize>)
    ensures
        ({
            let scene = selector.pictured(hovered);
            &&& scene.selection is None <==> selector.mode is Idle
            &&& selector.mode matches Mode::Editing { rect } ==> scene.selection == Some(rect)
            &&& scene.editing <==> selector.mode is Editing
            &&& scene.record == selector.record_mode
            &&& scene.record ==> scene.hovered == hovered && scene.toggles.0 == selector.frozen
                && scene.toggles.1 == selector.show_frame && scene.toggles.2
                == selector.audio_enabled
            &&& !selector.record_mode ==> (scene.magnifier == Some(selector.cursor)
                <==> selector.alt_held)
        }),
{
}

/// The picture of an output fits it only where the output lies as it lay then, as far as it tells.
pub proof fn lemma_layout(now: Placement, then: Layout)
    ensures
        layout_fits(Some(Some(now)), Some(then)) <==> {
            let place = match now.logical_position {
                Some(place) => place,
                None => now.location,
            };
            &&& now.transform == then.transform
            &&& place.x == then.x && place.y == then.y
            &&& now.logical_size is None || (now.logical_size->Some_0.x == then.width
                && now.logical_size->Some_0.y == then.height)
        },
        !layout_fits(Some(None), Some(then)),
        layout_fits(None, Some(then)),
{
}

/// The output of a name is the first one that has it.
pub proof fn lemma_output_named(names: Seq<Seq<char>>, name: Seq<char>, at: int)
    requires
        0 <= at <= names.len(),
    ensures
        at <= output_named(names, name, at) <= names.len(),
        output_named(names, name, at) < names.len() ==> names[output_named(names, name, at)] == name,
        forall|i: int| at <= i < output_named(names, name, at) ==> #[trigger] names[i] != name,
    decreases names.len() - at,
{
    if at < names.len() && names[at] != name {
        lemma_output_named(names, name, at + 1);
    }
}

/// The selector opens on the output whose picture was taken, or else on the focused one where there
/// are several, or else on the first.
pub proof fn lemma_opened_output(
    names: &Vec<String>,
    target: Option<&str>,
    focused: Option<&str>,
    opened: Result<Option<usize>, String>,
)
    requires
        call_ensures(choose_output, (names, target, focused), opened),
    ensures
        opened matches Ok(Some(place)) ==> place < names@.len(),
        target matches Some(name) ==> {
            &&& opened is Ok <==> crate::text::is_among(crate::text::views(names@), name@)
            &&& opened matches Ok(found) ==> found matches Some(place) && names@[place as int]@
                == name@
        },
        target is None ==> {
            &&& opened is Ok
            &&& opened == Ok::<Option<usize>, String>(None) <==> names@.len() == 0
            &&& focused matches Some(name) ==> (names@.len() > 1 && crate::text::is_among(
                crate::text::views(names@),
                name@,
            ) ==> (opened matches Ok(Some(place)) && names@[place as int]@ == name@))
        },
{
    let all = crate::text::views(names@);
    assert forall|i: int| 0 <= i < all.len() implies #[trigger] all[i] == names@[i]@ by {}
    if let Some(name) = target {
        lemma_output_named(all, name@, 0);
        let place = output_named(all, name@, 0);
        if crate::text::is_among(all, name@) {
            let i = choose|i: int| 0 <= i < all.len() && all[i] == name@;
            assert(place <= i);
        }
    }
    if let Some(name) = focused {
        lemma_output_named(all, name@, 0);
        let place = output_named(all, name@, 0);
        if crate::text::is_among(all, name@) {
            let i = choose|i: int| 0 <= i < all.len() && all[i] == name@;
            assert(place <= i);
        }
    }
}

/// A key confirms the selection that is being edited, and nothing else.
pub proof fn lemma_key_confirms(selector: &Selector, confirmed: Option<Rect>)
    requires
        call_ensures(Selector::key_confirms, (selector,), confirmed),
    ensures
        confirmed is Some <==> selector.mode is Editing,
        confirmed is Some ==> confirmed == selector.shown(),
{
}

/// The control under the pointer is one that it lies in: a button before the bar behind it, and none
/// where it lies in none.
pub proof fn lemma_control_hit(
    record: bool,
    clip: bool,
    frame: bool,
    audio: bool,
    toolbar: bool,
    hit: Option<RecordControlHit>,
)
    requires
        call_ensures(record_control_hit, (record, clip, frame, audio, toolbar), hit),
    ensures
        hit == Some(RecordControlHit::Record) <==> record,
        hit == Some(RecordControlHit::Clip) ==> clip,
        hit == Some(RecordControlHit::Frame) ==> frame,
        hit == Some(RecordControlHit::Audio) ==> audio,
        hit == Some(RecordControlHit::Background) ==> toolbar,
        clip && !record ==> hit == Some(RecordControlHit::Clip),
        frame && !record && !clip ==> hit == Some(RecordControlHit::Frame),
        audio && !record && !clip && !frame ==> hit == Some(RecordControlHit::Audio),
        hit is None <==> !record && !clip && !frame && !audio && !toolbar,
{
}

/// A size that the compositor proposes is taken, each side by itself; a side that it leaves open
/// stays, and is one at least.
pub proof fn lemma_configured(
    proposed: (u32, u32),
    current: (u32, u32),
    size: (u32, u32),
    base: Option<(u32, u32)>,
    stale: bool,
)
    requires
        call_ensures(configured_size, (proposed, current), size),
        call_ensures(base_is_stale, (base, size), stale),
    ensures
        size.0 >= 1 && size.1 >= 1,
        proposed.0 > 0 ==> size.0 == proposed.0,
        proposed.1 > 0 ==> size.1 == proposed.1,
        proposed.0 == 0 && current.0 > 0 ==> size.0 == current.0,
        proposed.1 == 0 && current.1 > 0 ==> size.1 == current.1,
        !stale <==> base == Some(size),
{
}

/// A point lies in a part that begins at its upper left edges and ends before the others.
pub proof fn lemma_contains(rect: Rect, point: Point, inside: bool)
    requires
        i64::MIN <= rect.x + rect.w <= i64::MAX,
        i64::MIN <= rect.y + rect.h <= i64::MAX,
        call_ensures(contains, (rect, point), inside),
    ensures
        inside <==> 0 <= point.x - rect.x < rect.w && 0 <= point.y - rect.y < rect.h,
{
}

/// The pictures that are kept are those of the right size and those that are held, in their order.
pub proof fn lemma_kept_slots<B>(
    first: Seq<FrameBuffer<B>>,
    second: Seq<FrameBuffer<B>>,
    width: u32,
    height: u32,
)
    ensures
        kept(first + second, width, height) == kept(first, width, height) + kept(
            second,
            width,
            height,
        ),
        first.len() == 1 ==> kept(first, width, height) == (if (first[0].width == width
            && first[0].height == height) || !first[0].free {
            first
        } else {
            Seq::empty()
        }),
    decreases first.len(),
{
    reveal_with_fuel(kept, 2);
    if first.len() == 0 {
        assert(first + second =~= second);
        assert(kept(first, width, height) + kept(second, width, height) =~= kept(
            second,
            width,
            height,
        ));
    } else {
        assert((first + second).skip(1) =~= first.skip(1) + second);
        lemma_kept_slots(first.skip(1), second, width, height);
        assert(kept(first + second, width, height) =~= kept(first, width, height) + kept(
            second,
            width,
            height,
        ));
    }
    if first.len() == 1 {
        assert(first.skip(1) =~= Seq::empty());
        assert(kept(first, width, height) =~= (if (first[0].width == width && first[0].height
            == height) || !first[0].free {
            first
        } else {
            Seq::empty()
        }));
    }
}

/// The picture that is drawn into is the first one of the right size that is free.
pub proof fn lemma_drawable<B>(slots: Seq<FrameBuffer<B>>, width: u32, height: u32, at: int)
    requires
        0 <= at <= slots.len(),
    ensures
        at <= drawable_from(slots, width, height, at) <= slots.len(),
        drawable_from(slots, width, height, at) < slots.len() ==> {
            let slot = slots[drawable_from(slots, width, height, at)];
            slot.free && slot.width == width && slot.height == height
        },
        forall|i: int|
            at <= i < drawable_from(slots, width, height, at) ==> !((#[trigger] slots[i]).free
                && slots[i].width == width && slots[i].height == height),
    decreases slots.len() - at,
{
    if at < slots.len() {
        lemma_drawable(slots, width, height, at + 1);
    }
}

} // verus!
