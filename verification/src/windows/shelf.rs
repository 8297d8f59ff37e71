//! The shelf on Windows.
use vstd::prelude::*;
use vstd::string::StringExecFns;

use crate::picture::read_picture;
use crate::pixels::{Image, Rgba};
use crate::protocol::{
    PublicRecordingState, RecordingAction, RecordingSnapshot, Request, RequestView, Response,
    ResponseView, SnapshotView,
};
use crate::text::{joined, push_word, rsplit_once, same};
use crate::windows::capture::Rect;
use crate::windows::recording::{WindowsRecording, WindowsRecordingView};
use crate::windows::tray::TrayAction;

verus! {

/// How far the shelf stands from the edge of the screen.
pub const SHELF_MARGIN: i32 = 12;

/// How far the corners of the cards are rounded.
pub const SHELF_CORNER_RADIUS: u32 = 18;

/// How far the controls of a recording stand from the upper edge of the screen.
pub const CONTROLS_MARGIN: i32 = 24;

/// What is behind the shelf shines through with this brightness.
pub const BACKGROUND: u32 = 20;

/// A place that stays within what can be counted.
pub open spec fn within(value: int) -> int {
    if value > i32::MAX {
        i32::MAX as int
    } else if value < i32::MIN {
        i32::MIN as int
    } else {
        value
    }
}

/// Where a shelf of a height stands: at the lower left of the screen, but not above it.
pub open spec fn shelf_place(work_area: Rect, height: u32) -> (int, int) {
    let high = if height > i32::MAX {
        i32::MAX as int
    } else {
        height as int
    };
    let above = within(within(work_area.bottom - high) - SHELF_MARGIN);
    let highest = within(work_area.top + SHELF_MARGIN);
    (
        within(work_area.left + SHELF_MARGIN),
        if above >= highest {
            above
        } else {
            highest
        },
    )
}

/// A place that stays within what can be counted.
fn clamp(value: i64) -> (r: i32)
    ensures
        r == within(value as int),
{
    if value > i32::MAX as i64 {
        i32::MAX
    } else if value < i32::MIN as i64 {
        i32::MIN
    } else {
        value as i32
    }
}

/// Where a shelf of a height stands.
pub fn shelf_position(work_area: Rect, height: u32) -> (r: (i32, i32))
    ensures
        (r.0 as int, r.1 as int) == shelf_place(work_area, height),
{
    let high: i64 = if height > i32::MAX as u32 {
        i32::MAX as i64
    } else {
        height as i64
    };
    let bottom: i32 = clamp(work_area.bottom as i64 - high);
    let above: i32 = clamp(bottom as i64 - SHELF_MARGIN as i64);
    let highest: i32 = clamp(work_area.top as i64 + SHELF_MARGIN as i64);
    let y: i32 = if above >= highest {
        above
    } else {
        highest
    };
    (clamp(work_area.left as i64 + SHELF_MARGIN as i64), y)
}

/// A shelf for which there is room stands within the screen, at a distance from its edges.
pub proof fn lemma_shelf_fits(work_area: Rect, height: u32)
    requires
        height <= i32::MAX,
        height + 2 * SHELF_MARGIN <= work_area.height(),
        work_area.left + SHELF_MARGIN <= i32::MAX,
    ensures
        ({
            let place = shelf_place(work_area, height);
            &&& place.0 == work_area.left + SHELF_MARGIN
            &&& work_area.top + SHELF_MARGIN <= place.1
            &&& place.1 + height + SHELF_MARGIN == work_area.bottom
        }),
{
}

/// The half of a number, rounded towards zero.
pub open spec fn half(value: int) -> int {
    if value >= 0 {
        value / 2
    } else {
        -((-value) / 2)
    }
}

/// Where the controls of a recording stand: in the middle of the screen's upper edge.
pub fn controls_position(monitor: Rect, width: u32) -> (r: (i32, i32))
    requires
        monitor.measurable(),
        width <= i32::MAX,
        i32::MIN <= monitor.width() - width,
        i32::MIN <= monitor.left + half(monitor.width() - width) <= i32::MAX,
        monitor.top + CONTROLS_MARGIN <= i32::MAX,
    ensures
        r.0 == monitor.left + half(monitor.width() - width),
        r.1 == monitor.top + CONTROLS_MARGIN,
{
    let room: i32 = monitor.right - monitor.left - width as i32;
    (monitor.left + room / 2, monitor.top + CONTROLS_MARGIN)
}

/// The name by which a second shelf of a user knows of the first.
pub fn instance_name(user: Option<&str>) -> (r: String)
    ensures
        r@ == "Local\\BoltsnapShelf-"@ + (match user {
            Some(user) => user@,
            None => "user"@,
        }),
{
    match user {
        Some(user) => joined("Local\\BoltsnapShelf-", user),
        None => joined("Local\\BoltsnapShelf-", "user"),
    }
}

/// A video that goes on the shelf holds something. `length` is that of the file, where it is one.
pub fn check_video(length: Option<u64>) -> (r: Result<(), String>)
    ensures
        match length {
            Some(length) if length > 0 => r is Ok,
            _ => r matches Err(message) && message@ == "shelf video is empty"@,
        },
{
    match length {
        Some(length) => if length > 0 {
            return Ok(());
        },
        None => {},
    }
    Err("shelf video is empty".to_owned())
}

/// The picture of a card, or what is said of the bytes.
pub fn card_picture(png: &[u8]) -> (r: Result<Image<Rgba>, String>)
    ensures
        match crate::picture::file_picture(png@) {
            crate::picture::Loaded::Picture(picture) => r matches Ok(image)
                && crate::picture::shows(picture, image) && image.well_formed(),
            crate::picture::Loaded::Refused(text) => r matches Err(message) && message@ == text,
        },
{
    read_picture(png)
}

/// A pixel of the picture of a video that has no other.
pub open spec fn stripe(x: int, y: int) -> Rgba {
    let shade = 24 + (x + y) % 24;
    Rgba { r: shade as u8, g: shade as u8, b: (shade + 8) as u8, a: 255 }
}

/// The picture of a video that has no other.
pub fn placeholder(width: u32, height: u32) -> (r: Image<Rgba>)
    requires
        width + height <= u32::MAX,
        width * height <= usize::MAX,
    ensures
        r.width == width,
        r.height == height,
        r.well_formed(),
        forall|x: int, y: int|
            0 <= x < width && 0 <= y < height ==> #[trigger] r.at(x, y) == stripe(x, y),
{
    let mut pixels: Vec<Rgba> = Vec::new();
    let mut y: u32 = 0;
    proof {
        assert(0 * width == 0) by (nonlinear_arith);
    }
    while y < height
        invariant
            width + height <= u32::MAX,
            y <= height,
            pixels@.len() == y * width,
            forall|a: int, b: int|
                0 <= a < width && 0 <= b < y ==> #[trigger] pixels@[crate::pixels::position(
                    width as int,
                    a,
                    b,
                )] == stripe(a, b),
        decreases height - y,
    {
        let mut x: u32 = 0;
        let ghost above = pixels@;
        while x < width
            invariant
                width + height <= u32::MAX,
                y < height,
                x <= width,
                above.len() == y * width,
                pixels@.len() == y * width + x,
                forall|i: int| 0 <= i < above.len() ==> #[trigger] pixels@[i] == above[i],
                forall|a: int|
                    0 <= a < x ==> #[trigger] pixels@[crate::pixels::position(
                        width as int,
                        a,
                        y as int,
                    )] == stripe(a, y as int),
            decreases width - x,
        {
            let shade: u8 = 24 + ((x + y) % 24) as u8;
            pixels.push(Rgba { r: shade, g: shade, b: shade + 8, a: 255 });
            x = x + 1;
        }
        proof {
            assert((y + 1) * width == y * width + width) by (nonlinear_arith);
            assert forall|a: int, b: int| 0 <= a < width && 0 <= b < y + 1 implies
                #[trigger] pixels@[crate::pixels::position(width as int, a, b)] == stripe(
                a,
                b,
            ) by {
                if b < y {
                    crate::pixels::lemma_position(width as int, y as int, a, b);
                    assert(width * y == y * width) by (nonlinear_arith);
                    assert(above[crate::pixels::position(width as int, a, b)] == stripe(a, b));
                } else {
                    assert(pixels@[crate::pixels::position(width as int, a, y as int)] == stripe(
                        a,
                        y as int,
                    ));
                }
            }
        }
        y = y + 1;
    }
    proof {
        assert(width * height == height * width) by (nonlinear_arith);
    }
    Image { width, height, pixels }
}

/// What a colour looks like before the background, given its opacity.
pub open spec fn blended(colour: u8, alpha: u8) -> int {
    let value = colour + BACKGROUND * (255 - alpha) / 255;
    if value > 255 {
        255
    } else {
        value
    }
}

/// The pixel that is shown for four bytes of the drawing, the third of which is the highest.
pub open spec fn shown_pixel(canvas: Seq<u8>, i: int) -> int {
    let alpha = canvas[4 * i + 3];
    blended(canvas[4 * i + 2], alpha) * 65536 + blended(canvas[4 * i + 1], alpha) * 256 + blended(
        canvas[4 * i],
        alpha,
    )
}

/// What a colour looks like before the background, given its opacity.
fn blend(colour: u8, alpha: u8) -> (r: u32)
    ensures
        r == blended(colour, alpha),
{
    let value: u32 = colour as u32 + BACKGROUND * (255 - alpha as u32) / 255;
    if value > 255 {
        255
    } else {
        value
    }
}

/// The pixels that are shown for a drawing.
pub fn present(canvas: &Vec<u8>) -> (r: Vec<u32>)
    ensures
        r@.len() == canvas@.len() / 4,
        forall|i: int| 0 <= i < r@.len() ==> #[trigger] r@[i] == shown_pixel(canvas@, i),
{
    let count: usize = canvas.len() / 4;
    let mut out: Vec<u32> = Vec::new();
    let mut i: usize = 0;
    while i < count
        invariant
            count == canvas.len() / 4,
            i <= count,
            out@.len() == i,
            forall|j: int| 0 <= j < i ==> #[trigger] out@[j] == shown_pixel(canvas@, j),
        decreases count - i,
    {
        assert(4 * i + 3 < canvas.len());
        let at: usize = 4 * i;
        let alpha: u8 = canvas[at + 3];
        let red: u32 = blend(canvas[at + 2], alpha);
        let green: u32 = blend(canvas[at + 1], alpha);
        let blue: u32 = blend(canvas[at], alpha);
        out.push(red * 65536 + green * 256 + blue);
        i = i + 1;
    }
    out
}

/// What the daemon knows of itself and of its recording.
pub struct Shelf {
    /// Its window was made.
    pub window: bool,
    pub recording: Option<WindowsRecording>,
    /// The controls of the recording are shown.
    pub controls: bool,
}

/// What a [`Shelf`] holds.
pub struct ShelfView {
    pub window: bool,
    pub recording: Option<WindowsRecordingView>,
    pub controls: bool,
}

/// What has to be done about a request.
pub enum Task {
    /// It is answered.
    Answer(Response),
    /// A picture goes on the shelf.
    AddImage { source: String, png: Vec<u8> },
    /// A part of the desktop is recorded.
    StartArea { x: i32, y: i32, w: u32, h: u32, audio_enabled: bool },
    /// A monitor is recorded as the settings say.
    StartFocused,
    /// The recording is ended.
    Finish { recording: WindowsRecording, action: RecordingAction },
}

/// What a [`Task`] says.
pub enum TaskView {
    Answer(ResponseView),
    AddImage { source: Seq<char>, png: Seq<u8> },
    StartArea { x: i32, y: i32, w: u32, h: u32, audio_enabled: bool },
    StartFocused,
    Finish { recording: WindowsRecordingView, action: RecordingAction },
}

impl Task {
    /// What it says.
    pub open spec fn view(&self) -> TaskView {
        match self {
            Task::Answer(response) => TaskView::Answer(response@),
            Task::AddImage { source, png } => TaskView::AddImage { source: source@, png: png@ },
            Task::StartArea { x, y, w, h, audio_enabled } => TaskView::StartArea {
                x: *x,
                y: *y,
                w: *w,
                h: *h,
                audio_enabled: *audio_enabled,
            },
            Task::StartFocused => TaskView::StartFocused,
            Task::Finish { recording, action } => TaskView::Finish {
                recording: recording@,
                action: *action,
            },
        }
    }
}

/// What has to be done with a recording that ended.
pub enum Ended {
    /// The request is answered.
    Answer(Response),
    /// It goes on the shelf, which keeps it.
    AddVideo(String),
    /// It is moved to the directory of recordings.
    Move(String),
    /// It is removed.
    Remove(String),
}

/// What an [`Ended`] says.
pub enum EndedView {
    Answer(ResponseView),
    AddVideo(Seq<char>),
    Move(Seq<char>),
    Remove(Seq<char>),
}

impl Ended {
    /// What it says.
    pub open spec fn view(&self) -> EndedView {
        match self {
            Ended::Answer(response) => EndedView::Answer(response@),
            Ended::AddVideo(path) => EndedView::AddVideo(path@),
            Ended::Move(path) => EndedView::Move(path@),
            Ended::Remove(path) => EndedView::Remove(path@),
        }
    }
}

/// What is told where nothing is recorded.
pub open spec fn idle() -> SnapshotView {
    SnapshotView {
        state: PublicRecordingState::Idle,
        elapsed_ms: 0,
        scope: "none"@,
        outputs: Seq::empty(),
        actions_enabled: false,
        error: None,
    }
}

/// Success.
pub open spec fn success(snapshot: Option<SnapshotView>) -> ResponseView {
    ResponseView { ok: true, error: None, snapshot, path: None }
}

/// Failure.
pub open spec fn failure(error: Seq<char>) -> ResponseView {
    ResponseView { ok: false, error: Some(error), snapshot: None, path: None }
}

impl ShelfView {
    /// What is told of the recording.
    pub open spec fn told(self, now: u128) -> SnapshotView {
        match self.recording {
            Some(recording) => recording.told(now),
            None => idle(),
        }
    }

    /// The controls of the recording are asked for.
    pub open spec fn showing(self) -> ShelfView {
        if self.window {
            ShelfView { controls: self.recording is Some, ..self }
        } else {
            self
        }
    }

    /// The recording is what it became, and its controls are asked for.
    pub open spec fn recorded(self, recording: WindowsRecordingView) -> ShelfView {
        (ShelfView { recording: Some(recording), ..self }).showing()
    }

    /// What is done to the recording.
    pub open spec fn controlled(self, action: RecordingAction, now: u128) -> (ShelfView, TaskView) {
        match self.recording {
            None => (self, TaskView::Answer(failure("no recording is active"@))),
            Some(recording) => match action {
                RecordingAction::Pause => if recording.state == PublicRecordingState::Recording {
                    let paused = recording.paused(now);
                    (self.recorded(paused), TaskView::Answer(success(Some(paused.told(now)))))
                } else {
                    (self, TaskView::Answer(failure("recording is not active"@)))
                },
                RecordingAction::Resume => if recording.state == PublicRecordingState::Paused {
                    let resumed = recording.resumed(now);
                    (self.recorded(resumed), TaskView::Answer(success(Some(resumed.told(now)))))
                } else {
                    (self, TaskView::Answer(failure("recording is not paused"@)))
                },
                _ => (
                    ShelfView { recording: None, ..self },
                    TaskView::Finish { recording, action },
                ),
            },
        }
    }

    /// What is done about a request.
    pub open spec fn asked(self, request: RequestView, now: u128) -> (ShelfView, TaskView) {
        match request {
            RequestView::Ping => (self, TaskView::Answer(success(None))),
            RequestView::Add { source, png, .. } => (self, TaskView::AddImage { source, png }),
            RequestView::RecordingStatus => (
                self,
                TaskView::Answer(success(Some(self.told(now)))),
            ),
            RequestView::RecordingWatch => (
                self,
                TaskView::Answer(
                    failure("recording watch streaming is not connected on Windows yet"@),
                ),
            ),
            RequestView::StartRecording { x, y, w, h, audio_enabled, .. } => (
                self,
                if self.recording is Some {
                    TaskView::Answer(failure("a recording is already in progress"@))
                } else {
                    TaskView::StartArea { x, y, w, h, audio_enabled }
                },
            ),
            RequestView::StartDefaultRecording => (
                self,
                if self.recording is Some {
                    TaskView::Answer(failure("a recording is already in progress"@))
                } else {
                    TaskView::StartFocused
                },
            ),
            RequestView::RecordingControl { action } => self.controlled(action, now),
            RequestView::StopRecording => self.controlled(RecordingAction::SaveShelf, now),
            RequestView::ShowRecordingControls => if self.recording is Some {
                (self.showing(), TaskView::Answer(success(Some(self.told(now)))))
            } else {
                (self, TaskView::Answer(failure("no recording is active"@)))
            },
            RequestView::StartRecordingOutput { .. } | RequestView::StartRecordingOutputs {
                ..
            } => (
                self,
                TaskView::Answer(
                    failure("named multi-monitor recording is not connected on Windows yet"@),
                ),
            ),
            _ => (self, TaskView::Answer(success(None))),
        }
    }

    /// What is done with a recording that ended.
    pub open spec fn ended(self, action: RecordingAction, file: Result<Seq<char>, Seq<char>>) -> (
        ShelfView,
        EndedView,
    ) {
        match file {
            Err(error) => (self, EndedView::Answer(failure(error))),
            Ok(path) => (
                ShelfView { controls: false, ..self },
                match action {
                    RecordingAction::SaveShelf => EndedView::AddVideo(path),
                    RecordingAction::SaveDisk => EndedView::Move(path),
                    _ => EndedView::Remove(path),
                },
            ),
        }
    }
}

/// The shelf on Windows takes no videos from other programs and does not change its cards.
pub open spec fn is_understood(request: RequestView) -> bool {
    !(request is AddVideo) && !(request is Replace) && !(request is Reload)
}

/// Failure, as it is answered.
fn refused(error: &str) -> (r: Response)
    ensures
        r@ == failure(error@),
{
    Response::error(error)
}

/// Success, as it is answered.
fn granted(snapshot: Option<RecordingSnapshot>) -> (r: Response)
    ensures
        r@ == success(
            match snapshot {
                Some(snapshot) => Some(snapshot@),
                None => None,
            },
        ),
{
    Response::ok(snapshot)
}

impl Shelf {
    /// What it holds.
    pub open spec fn view(&self) -> ShelfView {
        ShelfView {
            window: self.window,
            recording: match self.recording {
                Some(recording) => Some(recording@),
                None => None,
            },
            controls: self.controls,
        }
    }

    /// A recording that goes on was not paused for longer than can be counted.
    pub open spec fn can_resume(&self, now: u128) -> bool {
        self.recording matches Some(recording) ==> recording.paused_at matches Some(at)
            ==> recording.paused_total + crate::windows::recording::between(at, now)
            <= crate::windows::recording::LONGEST
    }

    /// Nothing is recorded, and there is no window yet.
    pub fn new() -> (r: Self)
        ensures
            r@ == (ShelfView { window: false, recording: None, controls: false }),
    {
        Shelf { window: false, recording: None, controls: false }
    }

    /// What is told of the recording.
    pub fn recording_snapshot(&self, now: u128) -> (r: RecordingSnapshot)
        ensures
            r@ == self@.told(now),
    {
        match &self.recording {
            Some(recording) => recording.snapshot(now),
            None => {
                let snapshot = RecordingSnapshot::idle();
                proof {
                    assert(snapshot@.outputs =~= Seq::empty());
                }
                snapshot
            },
        }
    }

    /// Asks for the controls of the recording.
    pub fn show_recording_controls(&mut self)
        ensures
            final(self)@ == old(self)@.showing(),
    {
        if self.window {
            self.controls = self.recording.is_some();
        }
    }

    /// Whether the controls of a recording are shown in place of the cards.
    pub fn shows_recording(&self) -> (r: bool)
        ensures
            r == (self.controls && self.recording is Some),
    {
        self.controls && self.recording.is_some()
    }

    /// Does something to the recording.
    pub fn recording_control(&mut self, action: RecordingAction, now: u128) -> (r: Task)
        requires
            old(self).can_resume(now),
        ensures
            (final(self)@, r@) == old(self)@.controlled(action, now),
    {
        let mut taken: Option<WindowsRecording> = None;
        std::mem::swap(&mut taken, &mut self.recording);
        let mut recording: WindowsRecording = match taken {
            None => {
                return Task::Answer(refused("no recording is active"));
            },
            Some(recording) => recording,
        };
        match action {
            RecordingAction::Pause => {
                let done = recording.pause(now);
                let snapshot = recording.snapshot(now);
                self.recording = Some(recording);
                match done {
                    Ok(_) => {
                        self.show_recording_controls();
                        Task::Answer(granted(Some(snapshot)))
                    },
                    Err(error) => Task::Answer(refused(error.as_str())),
                }
            },
            RecordingAction::Resume => {
                let done = recording.resume(now);
                let snapshot = recording.snapshot(now);
                self.recording = Some(recording);
                match done {
                    Ok(_) => {
                        self.show_recording_controls();
                        Task::Answer(granted(Some(snapshot)))
                    },
                    Err(error) => Task::Answer(refused(error.as_str())),
                }
            },
            _ => Task::Finish { recording, action },
        }
    }

    /// Takes a request.
    pub fn handle_request(&mut self, request: Request, now: u128) -> (r: Task)
        requires
            old(self).can_resume(now),
            is_understood(request@),
        ensures
            (final(self)@, r@) == old(self)@.asked(request@, now),
    {
        match request {
            Request::Ping => Task::Answer(granted(None)),
            Request::Add { source, png, .. } => Task::AddImage { source, png },
            Request::RecordingStatus => Task::Answer(granted(Some(self.recording_snapshot(now)))),
            Request::RecordingWatch => Task::Answer(
                refused("recording watch streaming is not connected on Windows yet"),
            ),
            Request::StartRecording { x, y, w, h, audio_enabled, .. } => {
                if self.recording.is_some() {
                    return Task::Answer(refused("a recording is already in progress"));
                }
                Task::StartArea { x, y, w, h, audio_enabled }
            },
            Request::StartDefaultRecording => {
                if self.recording.is_some() {
                    return Task::Answer(refused("a recording is already in progress"));
                }
                Task::StartFocused
            },
            Request::RecordingControl { action } => self.recording_control(action, now),
            Request::StopRecording => self.recording_control(RecordingAction::SaveShelf, now),
            Request::ShowRecordingControls => {
                if self.recording.is_some() {
                    self.show_recording_controls();
                    Task::Answer(granted(Some(self.recording_snapshot(now))))
                } else {
                    Task::Answer(refused("no recording is active"))
                }
            },
            Request::StartRecordingOutput { .. } | Request::StartRecordingOutputs { .. } =>
                Task::Answer(
                refused("named multi-monitor recording is not connected on Windows yet"),
            ),
            _ => Task::Answer(granted(None)),
        }
    }

    /// Takes what came of starting a recording, and answers.
    pub fn started(&mut self, started: Result<WindowsRecording, String>, now: u128) -> (r: Response)
        ensures
            match started {
                Ok(recording) => final(self)@ == old(self)@.recorded(recording@) && r@ == success(
                    Some(recording@.told(now)),
                ),
                Err(error) => final(self)@ == old(self)@ && r@ == failure(error@),
            },
    {
        match started {
            Ok(recording) => {
                self.recording = Some(recording);
                self.show_recording_controls();
                granted(Some(self.recording_snapshot(now)))
            },
            Err(error) => refused(error.as_str()),
        }
    }

    /// Takes what came of ending a recording.
    pub fn finished(&mut self, action: RecordingAction, file: Result<String, String>) -> (r: Ended)
        ensures
            (final(self)@, r@) == old(self)@.ended(
                action,
                match file {
                    Ok(path) => Ok(path@),
                    Err(error) => Err(error@),
                },
            ),
    {
        match file {
            Err(error) => Ended::Answer(refused(error.as_str())),
            Ok(path) => {
                self.controls = false;
                match action {
                    RecordingAction::SaveShelf => Ended::AddVideo(path),
                    RecordingAction::SaveDisk => Ended::Move(path),
                    _ => Ended::Remove(path),
                }
            },
        }
    }

    /// The answer once a recording that ended was put on the shelf.
    pub fn stored(&self, done: Result<(), String>, now: u128) -> (r: Response)
        ensures
            r@ == (match done {
                Ok(_) => success(Some(self@.told(now))),
                Err(error) => failure(error@),
            }),
    {
        match done {
            Ok(_) => granted(Some(self.recording_snapshot(now))),
            Err(error) => refused(error.as_str()),
        }
    }

    /// The answer once a recording that ended was removed, whether or not its file could be.
    pub fn removed(&self, now: u128) -> (r: Response)
        ensures
            r@ == success(Some(self@.told(now))),
    {
        granted(Some(self.recording_snapshot(now)))
    }

    /// How large the drawing is: as the controls of the recording, or as the cards, but never empty.
    pub fn canvas_size(&self, controls: (u32, u32), cards: (u32, u32)) -> (r: (u32, u32))
        ensures
            r == (if self.controls && self.recording is Some {
                controls
            } else {
                (
                    if cards.0 > 1 {
                        cards.0
                    } else {
                        1
                    },
                    if cards.1 > 1 {
                        cards.1
                    } else {
                        1
                    },
                )
            }),
    {
        if self.shows_recording() {
            return controls;
        }
        let width: u32 = if cards.0 > 1 {
            cards.0
        } else {
            1
        };
        let height: u32 = if cards.1 > 1 {
            cards.1
        } else {
            1
        };
        (width, height)
    }

    /// How long the daemon waits before it looks at its window again, in milliseconds: for the next
    /// event where nothing is shown.
    pub fn wait(&self, content: bool) -> (r: Option<u64>)
        ensures
            r == (if !content {
                None
            } else if self.controls && self.recording is Some {
                Some(250u64)
            } else {
                Some(500u64)
            }),
    {
        if !content {
            None
        } else if self.shows_recording() {
            Some(250)
        } else {
            Some(500)
        }
    }

    /// The parts of the window that are shown: the controls of the recording, or the cards.
    pub fn native_regions(&self, controls: (u32, u32), cards: &Vec<(u32, u32, u32, u32)>) -> (r: Vec<
        (u32, u32, u32, u32),
    >)
        ensures
            r@ == (if self.controls && self.recording is Some {
                seq![(0u32, 0u32, controls.0, controls.1)]
            } else {
                cards@
            }),
    {
        let mut regions: Vec<(u32, u32, u32, u32)> = Vec::new();
        if self.shows_recording() {
            regions.push((0, 0, controls.0, controls.1));
            proof {
                assert(regions@ =~= seq![(0u32, 0u32, controls.0, controls.1)]);
            }
            return regions;
        }
        let mut i: usize = 0;
        while i < cards.len()
            invariant
                i <= cards.len(),
                regions@ == cards@.take(i as int),
            decreases cards.len() - i,
        {
            regions.push(cards[i]);
            proof {
                assert(regions@ =~= cards@.take(i + 1));
            }
            i = i + 1;
        }
        proof {
            assert(cards@.take(i as int) =~= cards@);
        }
        regions
    }
}

/// The answer once a recording was moved, and the path of the video that is put on the shelf, where
/// the preferences say that a recording on the disk is put there, too.
pub fn moved(file: Result<String, String>, disk_add_to_shelf: bool) -> (r: (Response, Option<String>))
    ensures
        match file {
            Ok(path) => {
                &&& r.0@ == (ResponseView {
                    ok: true,
                    error: None,
                    snapshot: None,
                    path: Some(path@),
                })
                &&& crate::text::view_of(r.1) == (if disk_add_to_shelf {
                    Some(path@)
                } else {
                    None
                })
            },
            Err(error) => r.0@ == failure(error@) && r.1 is None,
        },
{
    match file {
        Ok(path) => {
            let shown = if disk_add_to_shelf {
                Some(path.as_str().to_owned())
            } else {
                None
            };
            (Response::ok_path(path), shown)
        },
        Err(error) => (refused(error.as_str()), None),
    }
}

/// The answer once a picture was put on the shelf.
pub fn added(done: Result<(), String>) -> (r: Response)
    ensures
        r@ == (match done {
            Ok(_) => success(None),
            Err(error) => failure(error@),
        }),
{
    match done {
        Ok(_) => granted(None),
        Err(error) => refused(error.as_str()),
    }
}

/// While something is recorded, nothing else can be: the request is refused, and the recording goes
/// on.
pub proof fn lemma_one_recording(shelf: ShelfView, request: RequestView, now: u128)
    requires
        shelf.recording is Some,
        request is StartRecording || request is StartDefaultRecording,
    ensures
        shelf.asked(request, now) == (
            shelf,
            TaskView::Answer(failure("a recording is already in progress"@)),
        ),
{
}

/// A recording is given up only to be ended: every other request leaves it there.
pub proof fn lemma_recording_stays(shelf: ShelfView, request: RequestView, now: u128)
    requires
        shelf.recording is Some,
    ensures
        shelf.asked(request, now).0.recording is None <==> shelf.asked(request, now).1 is Finish,
        shelf.asked(request, now).1 matches TaskView::Finish { recording, action } ==> Some(
            recording,
        ) == shelf.recording,
{
}

/// Pausing and going on leaves a recording as it was, but for the time that passed meanwhile.
pub proof fn lemma_pause_and_resume(shelf: ShelfView, at: u128, again: u128)
    requires
        shelf.recording matches Some(recording) && recording.well_formed() && recording.state
            == PublicRecordingState::Recording && recording.paused_total + (again - at)
            <= crate::windows::recording::LONGEST,
        at <= again,
    ensures
        ({
            let paused = shelf.controlled(RecordingAction::Pause, at).0;
            let resumed = paused.controlled(RecordingAction::Resume, again).0;
            &&& resumed.recording matches Some(after)
            &&& shelf.recording matches Some(before)
            &&& after == (WindowsRecordingView {
                paused_total: (before.paused_total + (again - at)) as u128,
                ..before
            })
        }),
{
}

/// A button of the controls of a recording.
#[derive(Clone, Copy, Debug, PartialEq, Eq, Structural)]
pub enum PopupButton {
    PauseResume,
    SaveShelf,
    SaveDisk,
    Discard,
}

/// What a button does to a recording in a state.
pub fn popup_action(button: PopupButton, state: PublicRecordingState) -> (r: RecordingAction)
    ensures
        r == (match button {
            PopupButton::PauseResume => if state == PublicRecordingState::Paused {
                RecordingAction::Resume
            } else {
                RecordingAction::Pause
            },
            PopupButton::SaveShelf => RecordingAction::SaveShelf,
            PopupButton::SaveDisk => RecordingAction::SaveDisk,
            PopupButton::Discard => RecordingAction::Discard,
        }),
{
    match button {
        PopupButton::PauseResume => if state == PublicRecordingState::Paused {
            RecordingAction::Resume
        } else {
            RecordingAction::Pause
        },
        PopupButton::SaveShelf => RecordingAction::SaveShelf,
        PopupButton::SaveDisk => RecordingAction::SaveDisk,
        PopupButton::Discard => RecordingAction::Discard,
    }
}

/// A part of a card.
#[derive(Clone, Copy, Debug, PartialEq, Eq, Structural)]
pub enum Hit {
    Body(u64),
    Save(u64),
    Close(u64),
}

/// What the left button is about to do.
#[derive(Clone, Copy, Debug, PartialEq, Eq, Structural)]
pub struct Press {
    /// The card whose body was pressed.
    pub body: Option<u64>,
    /// A card is dragged away.
    pub dragging: bool,
}

/// What comes of moving the pointer while a card is pressed.
#[derive(Clone, Copy, Debug, PartialEq, Eq, Structural)]
pub enum Drag {
    /// It did not move far enough, or there is no window.
    Wait,
    /// The card cannot be dragged: it is gone, its file is gone, or it has no picture.
    Refused,
    Begin,
}

impl Press {
    /// Nothing is pressed.
    pub fn new() -> (r: Self)
        ensures
            r == (Press { body: None, dragging: false }),
    {
        Press { body: None, dragging: false }
    }

    /// The button is pressed.
    pub fn pressed(&mut self, hit: Option<Hit>, controls: bool)
        ensures
            *final(self) == (Press {
                body: match hit {
                    Some(Hit::Body(id)) if !controls => Some(id),
                    _ => None,
                },
                dragging: false,
            }),
    {
        self.dragging = false;
        self.body = match hit {
            Some(Hit::Body(id)) => if controls {
                None
            } else {
                Some(id)
            },
            _ => None,
        };
    }

    /// The pointer moves; the card that is dragged away then is given back.
    pub fn moved(&mut self, drag: Drag) -> (r: Option<u64>)
        ensures
            match (old(self).body, drag) {
                (None, _) | (_, Drag::Wait) => *final(self) == *old(self) && r is None,
                (Some(_), Drag::Refused) => *final(self) == (Press { body: None, ..*old(self) })
                    && r is None,
                (Some(id), Drag::Begin) => *final(self) == (Press { body: None, dragging: true })
                    && r == Some(id),
            },
    {
        match self.body {
            None => None,
            Some(id) => match drag {
                Drag::Wait => None,
                Drag::Refused => {
                    self.body = None;
                    None
                },
                Drag::Begin => {
                    self.body = None;
                    self.dragging = true;
                    Some(id)
                },
            },
        }
    }

    /// The button is let go: says whether that was a click.
    pub fn released(&mut self) -> (r: bool)
        ensures
            r == !old(self).dragging,
            *final(self) == (Press { body: None, dragging: false }),
    {
        let click = !self.dragging;
        self.body = None;
        self.dragging = false;
        click
    }
}

/// The card under the pointer, which is shown as such unless the controls of a recording are
/// there: then `before` stays.
pub fn hovered(hit: Option<Hit>, controls: bool, before: Option<u64>) -> (r: Option<u64>)
    ensures
        r == (if controls {
            before
        } else {
            match hit {
                Some(Hit::Body(id)) | Some(Hit::Save(id)) | Some(Hit::Close(id)) => Some(id),
                None => None,
            }
        }),
{
    if controls {
        return before;
    }
    match hit {
        Some(Hit::Body(id)) => Some(id),
        Some(Hit::Save(id)) => Some(id),
        Some(Hit::Close(id)) => Some(id),
        None => None,
    }
}

/// What a click on a card does.
#[derive(Clone, Copy, Debug, PartialEq, Eq, Structural)]
pub enum Click {
    /// The card is taken off the shelf.
    Remove(u64),
    Save(u64),
    Copy(u64),
}

/// What a click on the shelf does. A click of the right button copies the card whose body it hits,
/// and does nothing else. Where the controls of a recording are shown, no card is clicked.
pub fn clicked(hit: Option<Hit>, right: bool, controls: bool) -> (r: Option<Click>)
    ensures
        r == (match hit {
            Some(Hit::Body(id)) if !controls => Some(Click::Copy(id)),
            Some(Hit::Save(id)) if !controls && !right => Some(Click::Save(id)),
            Some(Hit::Close(id)) if !controls && !right => Some(Click::Remove(id)),
            _ => None,
        }),
{
    if controls {
        return None;
    }
    match hit {
        Some(Hit::Body(id)) => Some(Click::Copy(id)),
        Some(Hit::Save(id)) => if right {
            None
        } else {
            Some(Click::Save(id))
        },
        Some(Hit::Close(id)) => if right {
            None
        } else {
            Some(Click::Remove(id))
        },
        None => None,
    }
}

/// The extension of a file, given the file's name: what stands behind its last dot, unless the name
/// begins with that dot, or else `other`. Two dots name no file.
pub open spec fn extension_or(name: Seq<char>, other: Seq<char>) -> Seq<char> {
    match crate::text::split_last(name, '.') {
        Some((before, behind)) if before.len() > 0 && name != ".."@ => behind,
        _ => other,
    }
}

/// The extension of a file, given the file's name, or else `other`.
fn extension(name: &str, other: &str) -> (r: String)
    ensures
        r@ == extension_or(name@, other@),
{
    match rsplit_once(name, '.') {
        Some((before, behind)) => if before.as_str().unicode_len() > 0 && !same(name, "..") {
            behind
        } else {
            other.to_owned()
        },
        None => other.to_owned(),
    }
}

/// The extension under which a card's file is saved, given the file's name: that of a picture where
/// it has none.
pub fn card_extension(name: &str) -> (r: String)
    ensures
        r@ == extension_or(name@, "png"@),
{
    extension(name, "png")
}

/// The extension under which a video is kept for the shelf, given the file's name: that of a
/// recording where it has none.
pub fn video_extension(name: &str) -> (r: String)
    ensures
        r@ == extension_or(name@, "mp4"@),
{
    extension(name, "mp4")
}

/// What an entry of the tray's menu does.
pub enum TrayTask {
    /// The program is started with words.
    Spawn(Vec<String>),
    ShowControls,
    Quit,
}

/// The words that the program is started with for an entry of the tray's menu.
pub open spec fn tray_words(action: TrayAction) -> Option<Seq<Seq<char>>> {
    match action {
        TrayAction::CaptureArea => Some(seq!["area"@]),
        TrayAction::CaptureFull => Some(seq!["full"@]),
        TrayAction::RecordArea => Some(seq!["record"@]),
        TrayAction::RecordFull => Some(seq!["record"@, "full"@]),
        _ => None,
    }
}

/// What an entry of the tray's menu does.
pub fn tray_task(action: TrayAction) -> (r: TrayTask)
    ensures
        match tray_words(action) {
            Some(expected) => r matches TrayTask::Spawn(words) && crate::text::views(words@)
                == expected,
            None => if action == TrayAction::Quit {
                r is Quit
            } else {
                r is ShowControls
            },
        },
{
    let mut words: Vec<String> = Vec::new();
    match action {
        TrayAction::CaptureArea => {
            push_word(&mut words, "area");
        },
        TrayAction::CaptureFull => {
            push_word(&mut words, "full");
        },
        TrayAction::RecordArea => {
            push_word(&mut words, "record");
        },
        TrayAction::RecordFull => {
            push_word(&mut words, "record");
            push_word(&mut words, "full");
        },
        TrayAction::ShowRecordingControls => {
            return TrayTask::ShowControls;
        },
        TrayAction::Quit => {
            return TrayTask::Quit;
        },
    }
    proof {
        assert(crate::text::views(words@) =~= tray_words(action).unwrap());
    }
    TrayTask::Spawn(words)
}

/// The controls stand in the middle of the monitor, below its upper edge.
pub proof fn lemma_controls_place(monitor: Rect, width: u32, place: (i32, i32))
    requires
        monitor.measurable(),
        width <= monitor.width(),
        width <= i32::MAX,
        monitor.left + half(monitor.width() - width) <= i32::MAX,
        monitor.top + CONTROLS_MARGIN <= i32::MAX,
        call_ensures(controls_position, (monitor, width), place),
    ensures
        place.1 == monitor.top + 24,
        ({
            let before = place.0 - monitor.left;
            let behind = monitor.right - (place.0 + width);
            0 <= behind - before <= 1
        }),
{
}

/// A colour is shown over the dark background as far as it is not covered.
pub proof fn lemma_blended(colour: u8, alpha: u8)
    ensures
        alpha == 255 ==> blended(colour, alpha) == colour,
        colour == 0 && alpha == 0 ==> blended(colour, alpha) == 20,
        colour <= blended(colour, alpha) <= colour + 20,
        blended(colour, alpha) <= 255,
{
}

/// A pixel that is shown has its red, its green and its blue in that order, the blue lowest; they are
/// stored the other way round.
pub proof fn lemma_shown_pixel(canvas: Seq<u8>, i: int)
    requires
        0 <= i,
        4 * i + 3 < canvas.len(),
    ensures
        shown_pixel(canvas, i) % 256 == blended(canvas[4 * i], canvas[4 * i + 3]),
        (shown_pixel(canvas, i) / 256) % 256 == blended(canvas[4 * i + 1], canvas[4 * i + 3]),
        shown_pixel(canvas, i) / 65536 == blended(canvas[4 * i + 2], canvas[4 * i + 3]),
{
    lemma_blended(canvas[4 * i], canvas[4 * i + 3]);
    lemma_blended(canvas[4 * i + 1], canvas[4 * i + 3]);
    lemma_blended(canvas[4 * i + 2], canvas[4 * i + 3]);
}

/// Stripes run down to the left, are gray with some blue, and repeat.
pub proof fn lemma_stripe(x: int, y: int)
    requires
        0 <= x,
        0 <= y,
    ensures
        stripe(x, y).r == stripe(x, y).g,
        stripe(x, y).b == stripe(x, y).r + 8,
        24 <= stripe(x, y).r < 48,
        stripe(x, y).a == 255,
        stripe(x + 1, y) == stripe(x, y + 1),
        stripe(x + 24, y) == stripe(x, y),
{
}

/// What a control does to a recording: a pause and its end keep it, and anything else ends it with
/// that action; without a recording nothing is done.
pub proof fn lemma_controlled(shelf: ShelfView, action: RecordingAction, now: u128)
    ensures
        shelf.recording is None ==> {
            &&& shelf.controlled(action, now).0 == shelf
            &&& shelf.controlled(action, now).1 matches TaskView::Answer(answer) && !answer.ok
        },
        shelf.recording matches Some(recording) ==> {
            &&& action == RecordingAction::SaveShelf || action == RecordingAction::SaveDisk || action
                == RecordingAction::Discard ==> shelf.controlled(action, now).1
                == (TaskView::Finish { recording, action })
            &&& action == RecordingAction::Pause ==> (shelf.controlled(action, now).1
                matches TaskView::Answer(answer) && (answer.ok <==> recording.state
                == PublicRecordingState::Recording))
            &&& action == RecordingAction::Resume ==> (shelf.controlled(action, now).1
                matches TaskView::Answer(answer) && (answer.ok <==> recording.state
                == PublicRecordingState::Paused))
            &&& action == RecordingAction::Pause && recording.state
                == PublicRecordingState::Recording ==> (shelf.controlled(action, now).0.recording
                matches Some(after) && after.state == PublicRecordingState::Paused
                && after.paused_at == Some(now) && after.output == recording.output)
            &&& action == RecordingAction::Resume && recording.state == PublicRecordingState::Paused
                ==> (shelf.controlled(action, now).0.recording matches Some(after) && after.state
                == PublicRecordingState::Recording && after.paused_at is None && after.output
                == recording.output)
        },
        shelf.controlled(action, now).1 matches TaskView::Answer(answer) ==> (answer.ok ==> (
        answer.snapshot matches Some(snapshot) && snapshot == shelf.controlled(action, now).0.told(
            now,
        ))),
{
}

/// What is asked of the shelf is done as it is asked: a picture is added with its source and its
/// bytes, and a recording begins where and how big it was asked for.
pub proof fn lemma_asked(shelf: ShelfView, request: RequestView, now: u128)
    ensures
        request matches RequestView::Add { source, png, .. } ==> shelf.asked(request, now)
            == (shelf, TaskView::AddImage { source, png }),
        request matches RequestView::StartRecording { x, y, w, h, audio_enabled, .. } ==> (
        shelf.recording is None ==> shelf.asked(request, now) == (
            shelf,
            TaskView::StartArea { x, y, w, h, audio_enabled },
        )),
        request is StartDefaultRecording && shelf.recording is None ==> shelf.asked(request, now)
            == (shelf, TaskView::StartFocused),
        request is StopRecording ==> (shelf.recording matches Some(recording) ==> shelf.asked(
            request,
            now,
        ).1 == (TaskView::Finish { recording, action: RecordingAction::SaveShelf })),
        request is RecordingStatus ==> shelf.asked(request, now) == (
            shelf,
            TaskView::Answer(
                ResponseView {
                    ok: true,
                    error: None,
                    snapshot: Some(shelf.told(now)),
                    path: None,
                },
            ),
        ),
        request is Ping ==> (shelf.asked(request, now).1 matches TaskView::Answer(answer)
            && answer.ok && answer.error is None),
        request is RecordingWatch || request is StartRecordingOutput || request
            is StartRecordingOutputs ==> (shelf.asked(request, now).1 matches TaskView::Answer(answer)
            && !answer.ok && answer.error is Some),
        request matches RequestView::RecordingControl { action } ==> shelf.asked(request, now)
            == shelf.controlled(action, now),
        request is ShowRecordingControls ==> (shelf.asked(request, now).1 matches TaskView::Answer(
            answer,
        ) && (answer.ok <==> shelf.recording is Some)),
{
}

/// The controls are shown where there is a window and a recording, and what is told without a
/// recording is that there is none.
pub proof fn lemma_showing(shelf: ShelfView, now: u128)
    ensures
        shelf.window ==> (shelf.showing().controls <==> shelf.recording is Some),
        !shelf.window ==> shelf.showing() == shelf,
        shelf.showing().recording == shelf.recording,
        shelf.showing().window == shelf.window,
        shelf.recording is None ==> shelf.told(now).state == PublicRecordingState::Idle
            && !shelf.told(now).actions_enabled && shelf.told(now).elapsed_ms == 0,
{
}

/// Where the file of a recording goes: to the shelf, to the disk, or away, as was asked.
pub proof fn lemma_ended(shelf: ShelfView, action: RecordingAction, path: Seq<char>)
    ensures
        action == RecordingAction::SaveShelf ==> shelf.ended(action, Ok(path)).1
            == EndedView::AddVideo(path),
        action == RecordingAction::SaveDisk ==> shelf.ended(action, Ok(path)).1 == EndedView::Move(
            path,
        ),
        action == RecordingAction::Discard ==> shelf.ended(action, Ok(path)).1 == EndedView::Remove(
            path,
        ),
        !shelf.ended(action, Ok(path)).0.controls,
        shelf.ended(action, Err(path)).0 == shelf,
        shelf.ended(action, Err(path)).1 matches EndedView::Answer(answer) && !answer.ok
            && answer.error == Some(path),
{
}

/// A recording on disk is answered with its path, and put on the shelf as well where that is wanted.
pub proof fn lemma_moved(
    file: Result<String, String>,
    disk_add_to_shelf: bool,
    r: (Response, Option<String>),
)
    requires
        call_ensures(moved, (file, disk_add_to_shelf), r),
    ensures
        r.0.ok <==> file is Ok,
        file matches Ok(path) ==> crate::text::view_of(r.0.path) == Some(path@),
        r.1 is Some <==> file is Ok && disk_add_to_shelf,
        r.1 matches Some(shown) ==> shown@ == file->Ok_0@,
        file matches Err(error) ==> crate::text::view_of(r.0.error) == Some(error@),
{
}

/// Each button of the controls has its action; one button pauses and goes on.
pub proof fn lemma_popup(button: PopupButton, state: PublicRecordingState, action: RecordingAction)
    requires
        call_ensures(popup_action, (button, state), action),
    ensures
        action == RecordingAction::SaveShelf <==> button == PopupButton::SaveShelf,
        action == RecordingAction::SaveDisk <==> button == PopupButton::SaveDisk,
        action == RecordingAction::Discard <==> button == PopupButton::Discard,
        action == RecordingAction::Resume <==> button == PopupButton::PauseResume && state
            == PublicRecordingState::Paused,
{
}

/// A click on a card copies it, on its buttons saves or removes it; the right button only copies, and
/// while the controls are shown there are no cards.
pub proof fn lemma_clicked(hit: Option<Hit>, right: bool, controls: bool, click: Option<Click>)
    requires
        call_ensures(clicked, (hit, right, controls), click),
    ensures
        controls || hit is None ==> click is None,
        click matches Some(Click::Copy(id)) ==> hit == Some(Hit::Body(id)),
        click matches Some(Click::Save(id)) ==> hit == Some(Hit::Save(id)) && !right,
        click matches Some(Click::Remove(id)) ==> hit == Some(Hit::Close(id)) && !right,
        !controls && hit is Some && (hit->Some_0 is Body || !right) ==> click is Some,
{
}

/// The card under the pointer is the one that it lies on.
pub proof fn lemma_hovered(
    hit: Option<Hit>,
    controls: bool,
    before: Option<u64>,
    card: Option<u64>,
)
    requires
        call_ensures(hovered, (hit, controls, before), card),
    ensures
        controls ==> card == before,
        !controls && hit is None ==> card is None,
        !controls ==> (hit matches Some(Hit::Body(id)) ==> card == Some(id)) && (hit matches Some(
            Hit::Save(id),
        ) ==> card == Some(id)) && (hit matches Some(Hit::Close(id)) ==> card == Some(id)),
{
}

/// An entry of the tray is a command, or shows the controls, or ends the program.
pub proof fn lemma_tray_task(action: TrayAction, task: TrayTask)
    requires
        call_ensures(tray_task, (action,), task),
    ensures
        task is Quit <==> action == TrayAction::Quit,
        task is ShowControls <==> action == TrayAction::ShowRecordingControls,
        action == TrayAction::CaptureArea ==> (task matches TrayTask::Spawn(words) && words@.len()
            == 1 && words@[0]@ == "area"@),
        action == TrayAction::CaptureFull ==> (task matches TrayTask::Spawn(words) && words@.len()
            == 1 && words@[0]@ == "full"@),
        action == TrayAction::RecordArea ==> (task matches TrayTask::Spawn(words) && words@.len()
            == 1 && words@[0]@ == "record"@),
        action == TrayAction::RecordFull ==> (task matches TrayTask::Spawn(words) && words@.len()
            == 2 && words@[0]@ == "record"@ && words@[1]@ == "full"@),
{
    if let TrayTask::Spawn(words) = task {
        let told = crate::text::views(words@);
        assert(told.len() == words@.len());
        assert(told[0] == words@[0]@);
        if action == TrayAction::RecordFull {
            assert(told[1] == words@[1]@);
        }
    }
}

/// How long the window waits, how large it is and where it takes clicks: for the controls where they
/// are shown, and for the cards otherwise.
pub proof fn lemma_window(
    shelf: &Shelf,
    content: bool,
    controls: (u32, u32),
    cards: (u32, u32),
    wait: Option<u64>,
    size: (u32, u32),
    shows: bool,
)
    requires
        call_ensures(Shelf::wait, (shelf, content), wait),
        call_ensures(Shelf::canvas_size, (shelf, controls, cards), size),
        call_ensures(Shelf::shows_recording, (shelf,), shows),
    ensures
        shows <==> shelf.controls && shelf.recording is Some,
        wait is None <==> !content,
        content ==> (wait == Some(250u64) <==> shows),
        content && !shows ==> wait == Some(500u64),
        shows ==> size == controls,
        !shows ==> size.0 >= 1 && size.1 >= 1 && (cards.0 >= 1 ==> size.0 == cards.0) && (cards.1
            >= 1 ==> size.1 == cards.1),
{
}

/// The extension of a card is its own, or else that of its kind; the window is one for each user.
pub proof fn lemma_extensions(
    name: &str,
    card: String,
    video: String,
    before: Seq<char>,
    behind: Seq<char>,
    user: Option<&str>,
    instance: String,
    length: Option<u64>,
    checked: Result<(), String>,
)
    requires
        call_ensures(card_extension, (name,), card),
        call_ensures(video_extension, (name,), video),
        call_ensures(instance_name, (user,), instance),
        call_ensures(check_video, (length,), checked),
        !behind.contains('.'),
    ensures
        !name@.contains('.') ==> card@ == "png"@ && video@ == "mp4"@,
        name@ == before.push('.') + behind && before.len() > 0 && name@ != ".."@ ==> card@ == behind
            && video@ == behind,
        name@ == before.push('.') + behind && before.len() == 0 ==> card@ == "png"@ && video@
            == "mp4"@,
        user matches Some(user) ==> crate::text::has_suffix(instance@, user@),
        checked is Ok <==> length is Some && length->Some_0 > 0,
{
    crate::text::lemma_split_at_last(before, '.', behind);
    if !name@.contains('.') {
        crate::text::lemma_split_at_last(before, '.', name@);
    }
    if let Some(user) = user {
        assert(instance@.skip(instance@.len() - user@.len()) =~= user@);
    }
}

/// Clicks are taken on the cards, or on all of the controls where they are shown.
pub proof fn lemma_regions(
    shelf: &Shelf,
    controls: (u32, u32),
    cards: &Vec<(u32, u32, u32, u32)>,
    regions: Vec<(u32, u32, u32, u32)>,
)
    requires
        call_ensures(Shelf::native_regions, (shelf, controls, cards), regions),
    ensures
        !(shelf.controls && shelf.recording is Some) ==> regions@ == cards@,
        shelf.controls && shelf.recording is Some ==> regions@.len() == 1 && regions@[0].0 == 0
            && regions@[0].1 == 0 && regions@[0].2 == controls.0 && regions@[0].3 == controls.1,
{
}

} // verus!
