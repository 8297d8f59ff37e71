//! Recordings on Windows.
use vstd::prelude::*;
use vstd::string::StringExecFns;

use crate::protocol::{PublicRecordingState, RecordingSnapshot, SnapshotView};
use crate::text::{joined, signed_decimal_string};
use crate::windows::capture::Rect;

verus! {

/// The longest time that can be counted, in nanoseconds.
pub const LONGEST: u128 = 18_446_744_073_709_551_615_999_999_999;

/// The largest even number that is not larger.
pub open spec fn even_part(value: int) -> int {
    value - value % 2
}

/// The largest even number that is not larger.
pub fn even(value: u32) -> (r: u32)
    ensures
        r == even_part(value as int),
{
    value - value % 2
}

/// A time in ticks of a hundred nanoseconds, as far as they can be counted.
pub fn duration_ticks(nanoseconds: u128) -> (r: i64)
    ensures
        r == (nanoseconds / 100) as i64,
{
    #[verifier::truncate]
    let ticks: i64 = (nanoseconds / 100) as i64;
    ticks
}

/// The first monitor from `at` on that holds a place.
pub open spec fn holder_from(monitors: Seq<Rect>, x: int, y: int, at: int) -> int
    decreases monitors.len() - at,
{
    if at < 0 || at >= monitors.len() || monitors[at].has(x, y) {
        at
    } else {
        holder_from(monitors, x, y, at + 1)
    }
}

/// The monitor that holds a place, or what is said where none does.
pub fn monitor_for_point(monitors: &Vec<Rect>, x: i32, y: i32) -> (r: Result<usize, String>)
    ensures
        ({
            let place = holder_from(monitors@, x as int, y as int, 0);
            if place < monitors@.len() {
                r matches Ok(found) && found == place && monitors@[place].has(x as int, y as int)
            } else {
                r matches Err(message) && message@ == "no monitor contains recording origin "@
                    + crate::text::signed_decimal(x as int) + ","@ + crate::text::signed_decimal(
                    y as int,
                )
            }
        }),
{
    let mut i: usize = 0;
    while i < monitors.len()
        invariant
            i <= monitors.len(),
            holder_from(monitors@, x as int, y as int, 0) == holder_from(
                monitors@,
                x as int,
                y as int,
                i as int,
            ),
        decreases monitors.len() - i,
    {
        let rect = monitors[i];
        if x >= rect.left && x < rect.right && y >= rect.top && y < rect.bottom {
            return Ok(i);
        }
        i = i + 1;
    }
    let mut message: String = joined(
        "no monitor contains recording origin ",
        signed_decimal_string(x as i64).as_str(),
    );
    message.append(",");
    message.append(signed_decimal_string(y as i64).as_str());
    Err(message)
}

/// The part of a monitor's picture that is recorded.
#[derive(Clone, Copy, Debug, PartialEq, Eq, Structural)]
pub struct Crop {
    pub left: u32,
    pub top: u32,
    pub right: u32,
    pub bottom: u32,
}

/// The smaller of two numbers.
pub open spec fn smaller(a: int, b: int) -> int {
    if a <= b {
        a
    } else {
        b
    }
}

/// The part of a monitor's picture for a part of the desktop, which ends with the monitor, and
/// whose sides are even. It begins no further from the monitor's corner than can be counted.
pub open spec fn cropped(monitor: Rect, x: int, y: int, width: int, height: int) -> Option<Crop> {
    let wide = even_part(smaller(width, monitor.right - x));
    let high = even_part(smaller(height, monitor.bottom - y));
    let left = smaller(x - monitor.left, i32::MAX as int);
    let top = smaller(y - monitor.top, i32::MAX as int);
    if wide < 2 || high < 2 {
        None
    } else {
        Some(
            Crop {
                left: left as u32,
                top: top as u32,
                right: (left + wide) as u32,
                bottom: (top + high) as u32,
            },
        )
    }
}

/// How far a place is from an edge before it, as far as can be counted.
fn distance(edge: i32, place: i32) -> (r: u32)
    requires
        edge <= place,
    ensures
        r == smaller(place - edge, i32::MAX as int),
{
    let far: i64 = place as i64 - edge as i64;
    if far <= i32::MAX as i64 {
        far as u32
    } else {
        i32::MAX as u32
    }
}

/// The monitor and the part of its picture that are recorded for a part of the desktop.
pub fn start_area(monitors: &Vec<Rect>, x: i32, y: i32, width: u32, height: u32) -> (r: Result<
    (usize, Crop),
    String,
>)
    requires
        ({
            let place = holder_from(monitors@, x as int, y as int, 0);
            place < monitors@.len() ==> monitors@[place].right - x <= i32::MAX
                && monitors@[place].bottom - y <= i32::MAX
        }),
    ensures
        ({
            let place = holder_from(monitors@, x as int, y as int, 0);
            if place < monitors@.len() {
                match cropped(
                    monitors@[place],
                    x as int,
                    y as int,
                    width as int,
                    height as int,
                ) {
                    Some(crop) => r matches Ok(found) && found.0 == place && found.1 == crop,
                    None => r matches Err(message) && message@
                        == "recording selection is outside the selected monitor"@,
                }
            } else {
                r matches Err(message) && message@ == "no monitor contains recording origin "@
                    + crate::text::signed_decimal(x as int) + ","@ + crate::text::signed_decimal(
                    y as int,
                )
            }
        }),
{
    match monitor_for_point(monitors, x, y) {
        Err(message) => Err(message),
        Ok(place) => {
            let monitor: Rect = monitors[place];
            let left: u32 = distance(monitor.left, x);
            let top: u32 = distance(monitor.top, y);
            let room_x: u32 = (monitor.right - x) as u32;
            let room_y: u32 = (monitor.bottom - y) as u32;
            let wide: u32 = even(
                if width <= room_x {
                    width
                } else {
                    room_x
                },
            );
            let high: u32 = even(
                if height <= room_y {
                    height
                } else {
                    room_y
                },
            );
            if wide < 2 || high < 2 {
                return Err("recording selection is outside the selected monitor".to_owned());
            }
            Ok((place, Crop { left, top, right: left + wide, bottom: top + high }))
        },
    }
}

/// What is recorded lies within the monitor and has even sides.
pub proof fn lemma_crop_fits(monitor: Rect, x: int, y: int, width: int, height: int)
    requires
        monitor.measurable(),
        monitor.has(x, y),
        0 <= width,
        0 <= height,
    ensures
        cropped(monitor, x, y, width, height) matches Some(crop) ==> {
            &&& crop.left < crop.right <= monitor.width()
            &&& crop.top < crop.bottom <= monitor.height()
            &&& (crop.right - crop.left) % 2 == 0 && crop.right - crop.left <= width
            &&& (crop.bottom - crop.top) % 2 == 0 && crop.bottom - crop.top <= height
        },
{
}

/// The monitor and the sides of the picture that are recorded for a whole monitor.
pub fn start_focused(monitors: &Vec<Rect>, focused: Rect) -> (r: Result<(usize, u32, u32), String>)
    requires
        focused.measurable(),
    ensures
        ({
            let place = holder_from(monitors@, focused.left as int, focused.top as int, 0);
            if place < monitors@.len() {
                r matches Ok(found) && found.0 == place && found.1 == even_part(
                    focused.width() as u32 as int,
                ) && found.2 == even_part(focused.height() as u32 as int)
            } else {
                r matches Err(message) && message@ == "no monitor contains recording origin "@
                    + crate::text::signed_decimal(focused.left as int) + ","@
                    + crate::text::signed_decimal(focused.top as int)
            }
        }),
{
    match monitor_for_point(monitors, focused.left, focused.top) {
        Err(message) => Err(message),
        Ok(place) => Ok(
            (
                place,
                even(
                    #[verifier::truncate]
                    ((focused.right - focused.left) as u32),
                ),
                even(
                    #[verifier::truncate]
                    ((focused.bottom - focused.top) as u32),
                ),
            ),
        ),
    }
}

/// The time between two moments: none where the second is not later.
pub open spec fn between(from: u128, to: u128) -> int {
    if to >= from {
        to - from
    } else {
        0
    }
}

/// The time between two moments: none where the second is not later.
fn passed(from: u128, to: u128) -> (r: u128)
    ensures
        r == between(from, to),
{
    if to >= from {
        to - from
    } else {
        0
    }
}

/// A number of ticks that stays within what can be counted.
pub open spec fn within_ticks(value: int) -> int {
    if value > i64::MAX {
        i64::MAX as int
    } else if value < i64::MIN {
        i64::MIN as int
    } else {
        value
    }
}

/// What is done about a frame that arrives.
#[derive(Clone, Copy, Debug, PartialEq, Eq, Structural)]
pub enum FrameStep {
    /// The sound that came is thrown away.
    DropSound,
    Nothing,
    /// The sound that came and the frame are encoded; the frame has the given time.
    Encode { timestamp: i64 },
}

/// The side of a recording that takes the frames. Moments are in nanoseconds.
#[derive(Clone, Copy, Debug, PartialEq, Eq, Structural)]
pub struct RecordingHandler {
    /// There is an encoder: the recording was not finished.
    pub encoder: bool,
    pub paused: bool,
    pub paused_at: Option<u128>,
    /// How long the recording was paused so far.
    pub paused_ticks: i64,
}

impl RecordingHandler {
    /// The handler once the recording is paused or goes on.
    pub open spec fn turned(self, paused: bool, now: u128) -> RecordingHandler {
        if paused == self.paused {
            self
        } else if paused {
            RecordingHandler { paused: true, paused_at: Some(now), ..self }
        } else {
            match self.paused_at {
                Some(at) => RecordingHandler {
                    paused: false,
                    paused_at: None,
                    paused_ticks: within_ticks(
                        self.paused_ticks + (((between(at, now) as u128) / 100) as i64),
                    ) as i64,
                    ..self
                },
                None => RecordingHandler { paused: false, ..self },
            }
        }
    }

    /// A handler that has an encoder and takes frames.
    pub fn new() -> (r: Self)
        ensures
            r == (RecordingHandler {
                encoder: true,
                paused: false,
                paused_at: None,
                paused_ticks: 0,
            }),
    {
        RecordingHandler { encoder: true, paused: false, paused_at: None, paused_ticks: 0 }
    }

    /// Pauses the recording, or lets it go on.
    pub fn set_paused(&mut self, paused: bool, now: u128)
        ensures
            *final(self) == old(self).turned(paused, now),
    {
        if paused == self.paused {
            return ;
        }
        self.paused = paused;
        if paused {
            self.paused_at = Some(now);
        } else {
            match self.paused_at {
                Some(at) => {
                    self.paused_at = None;
                    let ticks: i64 = duration_ticks(passed(at, now));
                    let sum: i128 = self.paused_ticks as i128 + ticks as i128;
                    self.paused_ticks = if sum > i64::MAX as i128 {
                        i64::MAX
                    } else if sum < i64::MIN as i128 {
                        i64::MIN
                    } else {
                        sum as i64
                    };
                },
                None => {},
            }
        }
    }

    /// What is done about a frame that arrives with a time.
    pub fn on_frame_arrived(&self, time: i64) -> (r: FrameStep)
        ensures
            r == (if self.paused {
                FrameStep::DropSound
            } else if !self.encoder {
                FrameStep::Nothing
            } else {
                FrameStep::Encode { timestamp: within_ticks(time - self.paused_ticks) as i64 }
            }),
    {
        if self.paused {
            return FrameStep::DropSound;
        }
        if !self.encoder {
            return FrameStep::Nothing;
        }
        let difference: i128 = time as i128 - self.paused_ticks as i128;
        let timestamp: i64 = if difference > i64::MAX as i128 {
            i64::MAX
        } else if difference < i64::MIN as i128 {
            i64::MIN
        } else {
            difference as i64
        };
        FrameStep::Encode { timestamp }
    }

    /// Gives up the encoder; says whether there was one to be finished.
    pub fn finish(&mut self) -> (r: bool)
        ensures
            r == old(self).encoder,
            *final(self) == (RecordingHandler { encoder: false, ..*old(self) }),
    {
        let encoder = self.encoder;
        self.encoder = false;
        encoder
    }
}

/// A byte of a picture whose rows stand in the other order.
pub open spec fn flipped_byte(bytes: Seq<u8>, stride: int, height: int, i: int) -> u8 {
    if i < stride * height {
        bytes[(height - 1 - i / stride) * stride + i % stride]
    } else {
        0
    }
}

/// A place in the picture lies in a row of it.
proof fn lemma_row(stride: int, height: int, i: int)
    requires
        0 < stride,
        0 <= height,
        0 <= i < stride * height,
    ensures
        0 <= i / stride < height,
        0 <= i % stride < stride,
        i == i / stride * stride + i % stride,
{
    vstd::arithmetic::div_mod::lemma_fundamental_div_mod(i, stride);
    vstd::arithmetic::div_mod::lemma_div_pos_is_pos(i, stride);
    assert(stride * (i / stride) == i / stride * stride) by (nonlinear_arith);
    if i / stride >= height {
        assert(i / stride * stride >= height * stride) by (nonlinear_arith)
            requires
                i / stride >= height,
                stride > 0,
        ;
        assert(height * stride == stride * height) by (nonlinear_arith);
    }
}

/// The place that a place takes when the rows are put in the other order.
proof fn lemma_other_row(stride: int, height: int, row: int, column: int)
    requires
        0 < stride,
        0 <= row < height,
        0 <= column < stride,
    ensures
        0 <= row * stride + column < stride * height,
        (row * stride + column) / stride == row,
        (row * stride + column) % stride == column,
{
    vstd::arithmetic::div_mod::lemma_fundamental_div_mod_converse(
        row * stride + column,
        stride,
        row,
        column,
    );
    assert(0 <= row * stride && row * stride + stride <= stride * height) by (nonlinear_arith)
        requires
            0 <= row < height,
            0 < stride,
    ;
}

/// A picture with four bytes for a pixel with its rows from bottom to top.
pub fn bottom_up(bytes: &[u8], width: u32, height: u32) -> (r: Vec<u8>)
    requires
        4 * width * height <= bytes@.len(),
    ensures
        r@ == Seq::new(
            bytes@.len(),
            |i: int| flipped_byte(bytes@, 4 * width, height as int, i),
        ),
{
    let stride: u64 = 4 * width as u64;
    let ghost size = stride * height;
    proof {
        assert(stride * height == 4 * width * height) by (nonlinear_arith)
            requires
                stride == 4 * width,
        ;
    }
    let mut out: Vec<u8> = Vec::new();
    let mut row: u32 = 0;
    proof {
        assert(0 * stride == 0) by (nonlinear_arith);
    }
    while row < height
        invariant
            stride == 4 * width,
            size == stride * height,
            size <= bytes.len(),
            row <= height,
            out@.len() == row * stride,
            forall|i: int|
                0 <= i < out@.len() ==> #[trigger] out@[i] == flipped_byte(
                    bytes@,
                    stride as int,
                    height as int,
                    i,
                ),
        decreases height - row,
    {
        let from: u32 = height - 1 - row;
        proof {
            assert(from * stride + stride <= size) by (nonlinear_arith)
                requires
                    from < height,
                    size == stride * height,
            ;
            assert((row + 1) * stride == row * stride + stride) by (nonlinear_arith);
        }
        let start: usize = (from as u64 * stride) as usize;
        let mut column: u64 = 0;
        while column < stride
            invariant
                stride == 4 * width,
                size == stride * height,
                size <= bytes.len(),
                row < height,
                from == height - 1 - row,
                start == from * stride,
                start + stride <= size,
                column <= stride,
                out@.len() == row * stride + column,
                forall|i: int|
                    0 <= i < out@.len() ==> #[trigger] out@[i] == flipped_byte(
                        bytes@,
                        stride as int,
                        height as int,
                        i,
                    ),
            decreases stride - column,
        {
            proof {
                lemma_other_row(stride as int, height as int, row as int, column as int);
            }
            out.push(bytes[start + column as usize]);
            column = column + 1;
        }
        row = row + 1;
    }
    proof {
        assert(height * stride == stride * height) by (nonlinear_arith);
    }
    while out.len() < bytes.len()
        invariant
            size == stride * height,
            size <= out@.len() <= bytes@.len(),
            forall|i: int|
                0 <= i < out@.len() ==> #[trigger] out@[i] == flipped_byte(
                    bytes@,
                    stride as int,
                    height as int,
                    i,
                ),
        decreases bytes.len() - out.len(),
    {
        out.push(0);
    }
    proof {
        assert(out@ =~= Seq::new(
            bytes@.len(),
            |i: int| flipped_byte(bytes@, 4 * width, height as int, i),
        ));
    }
    out
}

/// A picture whose rows are put in the other order twice is the picture.
pub proof fn lemma_flipped_twice(bytes: Seq<u8>, stride: int, height: int, i: int)
    requires
        0 < stride,
        0 <= height,
        bytes.len() == stride * height,
        0 <= i < bytes.len(),
    ensures
        flipped_byte(
            Seq::new(bytes.len(), |j: int| flipped_byte(bytes, stride, height, j)),
            stride,
            height,
            i,
        ) == bytes[i],
{
    lemma_row(stride, height, i);
    let row = i / stride;
    let column = i % stride;
    lemma_other_row(stride, height, height - 1 - row, column);
    let other = (height - 1 - row) * stride + column;
    assert(flipped_byte(bytes, stride, height, other) == bytes[(height - 1 - (height - 1 - row))
        * stride + column]);
}

/// A recording as the daemon knows it. Moments and times are in nanoseconds.
pub struct WindowsRecording {
    pub output: String,
    pub state: PublicRecordingState,
    pub started: u128,
    pub paused_at: Option<u128>,
    pub paused_total: u128,
    pub scope: String,
}

/// What a [`WindowsRecording`] holds.
pub struct WindowsRecordingView {
    pub output: Seq<char>,
    pub state: PublicRecordingState,
    pub started: u128,
    pub paused_at: Option<u128>,
    pub paused_total: u128,
    pub scope: Seq<char>,
}

impl WindowsRecordingView {
    /// It is known since when a paused recording is paused.
    pub open spec fn well_formed(self) -> bool {
        &&& self.paused_at is Some == (self.state == PublicRecordingState::Paused)
        &&& self.paused_total <= LONGEST
    }

    /// A recording that begins.
    pub open spec fn begun(output: Seq<char>, scope: Seq<char>, now: u128) -> WindowsRecordingView {
        WindowsRecordingView {
            output,
            state: PublicRecordingState::Recording,
            started: now,
            paused_at: None,
            paused_total: 0,
            scope,
        }
    }

    /// The recording is paused.
    pub open spec fn paused(self, now: u128) -> WindowsRecordingView {
        WindowsRecordingView {
            paused_at: Some(now),
            state: PublicRecordingState::Paused,
            ..self
        }
    }

    /// The recording goes on.
    pub open spec fn resumed(self, now: u128) -> WindowsRecordingView {
        WindowsRecordingView {
            paused_at: None,
            paused_total: (match self.paused_at {
                Some(at) => self.paused_total + between(at, now),
                None => self.paused_total as int,
            }) as u128,
            state: PublicRecordingState::Recording,
            ..self
        }
    }

    /// How long it has been recorded.
    pub open spec fn elapsed(self, now: u128) -> int {
        let waiting = match self.paused_at {
            Some(at) => between(at, now),
            None => 0,
        };
        let total = between(self.started, now) - self.paused_total;
        if total < 0 {
            0
        } else if total < waiting {
            0
        } else {
            total - waiting
        }
    }

    /// What is told of the recording.
    pub open spec fn told(self, now: u128) -> SnapshotView {
        SnapshotView {
            state: self.state,
            elapsed_ms: ((self.elapsed(now) as u128) / 1_000_000) as u64,
            scope: self.scope,
            outputs: Seq::empty(),
            actions_enabled: self.state == PublicRecordingState::Recording || self.state
                == PublicRecordingState::Paused,
            error: None,
        }
    }
}

impl WindowsRecording {
    /// What it holds.
    pub open spec fn view(&self) -> WindowsRecordingView {
        WindowsRecordingView {
            output: self.output@,
            state: self.state,
            started: self.started,
            paused_at: self.paused_at,
            paused_total: self.paused_total,
            scope: self.scope@,
        }
    }

    /// A recording that begins.
    pub fn start(output: String, scope: &str, now: u128) -> (r: Self)
        ensures
            r@ == WindowsRecordingView::begun(output@, scope@, now),
    {
        WindowsRecording {
            output,
            state: PublicRecordingState::Recording,
            started: now,
            paused_at: None,
            paused_total: 0,
            scope: scope.to_owned(),
        }
    }

    /// Pauses the recording.
    pub fn pause(&mut self, now: u128) -> (r: Result<(), String>)
        ensures
            if old(self).state == PublicRecordingState::Recording {
                r is Ok && final(self)@ == old(self)@.paused(now)
            } else {
                r matches Err(message) && message@ == "recording is not active"@ && final(self)@
                    == old(self)@
            },
            r is Ok <==> old(self).state == PublicRecordingState::Recording,
            r is Ok ==> final(self).state == PublicRecordingState::Paused && final(self).paused_at == Some(
                now,
            ),
    {
        if self.state != PublicRecordingState::Recording {
            return Err("recording is not active".to_owned());
        }
        self.paused_at = Some(now);
        self.state = PublicRecordingState::Paused;
        Ok(())
    }

    /// Lets the recording go on.
    pub fn resume(&mut self, now: u128) -> (r: Result<(), String>)
        requires
            old(self).paused_at matches Some(at) ==> old(self).paused_total + between(at, now)
                <= LONGEST,
        ensures
            if old(self).state == PublicRecordingState::Paused {
                r is Ok && final(self)@ == old(self)@.resumed(now)
            } else {
                r matches Err(message) && message@ == "recording is not paused"@ && final(self)@
                    == old(self)@
            },
            r is Ok <==> old(self).state == PublicRecordingState::Paused,
            r is Ok ==> final(self).state == PublicRecordingState::Recording && final(self).paused_at is None,
    {
        if self.state != PublicRecordingState::Paused {
            return Err("recording is not paused".to_owned());
        }
        match self.paused_at {
            Some(at) => {
                self.paused_at = None;
                self.paused_total = self.paused_total + passed(at, now);
            },
            None => {},
        }
        self.state = PublicRecordingState::Recording;
        Ok(())
    }

    /// What is told of the recording.
    pub fn snapshot(&self, now: u128) -> (r: RecordingSnapshot)
        ensures
            r@ == self@.told(now),
    {
        let waiting: u128 = match self.paused_at {
            Some(at) => passed(at, now),
            None => 0,
        };
        let total: u128 = passed(self.paused_total, passed(self.started, now));
        let elapsed: u128 = passed(waiting, total);
        proof {
            assert(elapsed == self@.elapsed(now));
        }
        #[verifier::truncate]
        let elapsed_ms: u64 = (elapsed / 1_000_000) as u64;
        let snapshot = RecordingSnapshot {
            state: self.state,
            elapsed_ms,
            scope: self.scope.as_str().to_owned(),
            outputs: Vec::new(),
            actions_enabled: self.state == PublicRecordingState::Recording || self.state
                == PublicRecordingState::Paused,
            error: None,
        };
        proof {
            assert(snapshot@.outputs =~= Seq::empty());
        }
        snapshot
    }

    /// What comes of the end of a recording, given how its sound, its encoder and its frames ended,
    /// and how long its file is: the first that went wrong is told.
    pub fn finish(
        self,
        sound: Result<(), String>,
        encoded: Result<(), String>,
        stopped: Result<(), String>,
        length: Option<u64>,
    ) -> (r: Result<String, String>)
        ensures
            match sound {
                Err(error) => r matches Err(message) && message@ == error@,
                Ok(_) => match encoded {
                    Err(error) => r matches Err(message) && message@
                        == "failed to finalize Windows recording: "@ + error@,
                    Ok(_) => match stopped {
                        Err(error) => r matches Err(message) && message@ == error@,
                        Ok(_) => match length {
                            Some(length) if length > 0 => r matches Ok(path) && path@
                                == self.output@,
                            _ => r matches Err(message) && message@
                                == "Media Foundation did not create a recording"@,
                        },
                    },
                },
            },
    {
        match sound {
            Err(error) => {
                return Err(error);
            },
            Ok(_) => {},
        }
        match encoded {
            Err(error) => {
                return Err(joined("failed to finalize Windows recording: ", error.as_str()));
            },
            Ok(_) => {},
        }
        match stopped {
            Err(error) => {
                return Err(error);
            },
            Ok(_) => {},
        }
        match length {
            Some(length) => if length > 0 {
                return Ok(self.output);
            },
            None => {},
        }
        Err("Media Foundation did not create a recording".to_owned())
    }
}

/// While a recording is paused its time stands still.
pub proof fn lemma_paused_stands_still(recording: WindowsRecordingView, at: u128, now: u128)
    requires
        recording.well_formed(),
        recording.state == PublicRecordingState::Recording,
        recording.started <= at <= now,
    ensures
        recording.paused(at).elapsed(now) == recording.elapsed(at),
{
}

/// The time for which a recording is paused does not count: what was recorded is what was recorded
/// before and what is recorded since.
pub proof fn lemma_pause_does_not_count(
    recording: WindowsRecordingView,
    at: u128,
    again: u128,
    now: u128,
)
    requires
        recording.well_formed(),
        recording.state == PublicRecordingState::Recording,
        recording.started + recording.paused_total <= at <= again <= now,
    ensures
        recording.paused(at).resumed(again).elapsed(now) == recording.elapsed(at) + (now - again),
        recording.paused(at).resumed(again).state == recording.state,
{
}

/// What is even of a number is the number itself or the one below it.
pub proof fn lemma_even(value: u32, even_value: u32, nanoseconds: u128, ticks: i64)
    requires
        call_ensures(even, (value,), even_value),
        call_ensures(duration_ticks, (nanoseconds,), ticks),
    ensures
        even_value % 2 == 0,
        even_value <= value <= even_value + 1,
        nanoseconds <= 0x7fff_ffff_ffff_ffff ==> 100 * ticks <= nanoseconds < 100 * ticks + 100,
{
}

/// The first monitor from a place on that holds a point.
proof fn lemma_holder(monitors: Seq<Rect>, x: int, y: int, at: int)
    requires
        0 <= at <= monitors.len(),
    ensures
        at <= holder_from(monitors, x, y, at) <= monitors.len(),
        holder_from(monitors, x, y, at) < monitors.len() ==> monitors[holder_from(
            monitors,
            x,
            y,
            at,
        )].has(x, y),
        forall|i: int|
            at <= i < holder_from(monitors, x, y, at) ==> !(#[trigger] monitors[i]).has(x, y),
    decreases monitors.len() - at,
{
    if at < monitors.len() {
        lemma_holder(monitors, x, y, at + 1);
    }
}

/// A recording is of the monitor that holds its corner, the first such one; none where no monitor
/// does.
pub proof fn lemma_monitor_found(
    monitors: &Vec<Rect>,
    x: i32,
    y: i32,
    found: Result<usize, String>,
)
    requires
        call_ensures(monitor_for_point, (monitors, x, y), found),
    ensures
        found matches Ok(place) ==> place < monitors@.len() && monitors@[place as int].has(
            x as int,
            y as int,
        ) && (forall|i: int|
            0 <= i < place ==> !(#[trigger] monitors@[i]).has(x as int, y as int)),
        found is Err ==> (forall|i: int|
            0 <= i < monitors@.len() ==> !(#[trigger] monitors@[i]).has(x as int, y as int)),
{
    lemma_holder(monitors@, x as int, y as int, 0);
}

/// A part that lies on its monitor is recorded where it lies, from its corner on, at its own size or
/// one pixel less where that is odd.
pub proof fn lemma_whole_crop(monitor: Rect, x: int, y: int, width: int, height: int)
    requires
        monitor.measurable(),
        monitor.has(x, y),
        2 <= width <= monitor.right - x,
        2 <= height <= monitor.bottom - y,
    ensures
        cropped(monitor, x, y, width, height) matches Some(crop) && {
            &&& crop.left == x - monitor.left
            &&& crop.top == y - monitor.top
            &&& crop.right - crop.left == width - width % 2
            &&& crop.bottom - crop.top == height - height % 2
        },
{
}

/// A part that reaches beyond its monitor is recorded up to the monitor's edge.
pub proof fn lemma_cut_crop(monitor: Rect, x: int, y: int, width: int, height: int)
    requires
        monitor.measurable(),
        monitor.has(x, y),
        width >= monitor.right - x >= 2,
        height >= monitor.bottom - y >= 2,
    ensures
        cropped(monitor, x, y, width, height) == cropped(
            monitor,
            x,
            y,
            monitor.right - x,
            monitor.bottom - y,
        ),
        cropped(monitor, x, y, width, height) is Some,
{
}

/// The focused monitor is recorded at its own size, the width before the height.
pub proof fn lemma_focused_size(
    monitors: &Vec<Rect>,
    focused: Rect,
    found: Result<(usize, u32, u32), String>,
)
    requires
        focused.measurable(),
        focused.width() >= 0,
        focused.height() >= 0,
        call_ensures(start_focused, (monitors, focused), found),
    ensures
        found matches Ok(size) ==> {
            &&& size.0 < monitors@.len()
            &&& monitors@[size.0 as int].has(focused.left as int, focused.top as int)
            &&& size.1 % 2 == 0 && size.1 <= focused.width() <= size.1 + 1
            &&& size.2 % 2 == 0 && size.2 <= focused.height() <= size.2 + 1
        },
{
    lemma_holder(monitors@, focused.left as int, focused.top as int, 0);
}

/// Time that is paused is kept out of what is recorded: a frame is told earlier by as much, and while
/// a recording is paused none is encoded.
pub proof fn lemma_frames(handler: &RecordingHandler, time: i64, step: FrameStep)
    requires
        call_ensures(RecordingHandler::on_frame_arrived, (handler, time), step),
    ensures
        step is DropSound <==> handler.paused,
        step is Nothing <==> !handler.paused && !handler.encoder,
        step matches FrameStep::Encode { timestamp } ==> (i64::MIN <= time - handler.paused_ticks
            <= i64::MAX ==> timestamp == time - handler.paused_ticks),
{
}

/// A pause that begins and ends adds its length to what is kept out, and nothing else changes.
pub proof fn lemma_turned(handler: RecordingHandler, at: u128, again: u128)
    requires
        !handler.paused,
        at <= again,
        again - at <= 0x7fff_ffff_ffff_ffff,
        handler.paused_ticks >= 0,
        handler.paused_ticks + (again - at) <= i64::MAX,
    ensures
        handler.turned(false, at) == handler,
        handler.turned(true, at).paused,
        handler.turned(true, at).turned(true, again) == handler.turned(true, at),
        ({
            let after = handler.turned(true, at).turned(false, again);
            &&& !after.paused
            &&& after.paused_at is None
            &&& after.encoder == handler.encoder
            &&& after.paused_ticks == handler.paused_ticks + (again - at) / 100
        }),
{
}

/// A row of a picture that is turned upside down is the row as far from the other end.
pub proof fn lemma_flipped_row(bytes: Seq<u8>, stride: int, height: int, row: int, column: int)
    requires
        0 < stride,
        0 <= row < height,
        0 <= column < stride,
        bytes.len() >= stride * height,
    ensures
        flipped_byte(bytes, stride, height, row * stride + column) == bytes[(height - 1 - row)
            * stride + column],
{
    let i = row * stride + column;
    assert(i < stride * height) by (nonlinear_arith)
        requires
            i == row * stride + column,
            row <= height - 1,
            column < stride,
            stride > 0,
    ;
    vstd::arithmetic::div_mod::lemma_fundamental_div_mod_converse(i, stride, row, column);
}

/// What is told of a recording: its state, its scope, and how long it runs in milliseconds; it can be
/// controlled while it runs or is paused.
pub proof fn lemma_told(recording: WindowsRecordingView, now: u128)
    requires
        recording.elapsed(now) <= u64::MAX,
    ensures
        recording.told(now).state == recording.state,
        recording.told(now).scope == recording.scope,
        recording.told(now).error is None,
        recording.told(now).outputs.len() == 0,
        recording.told(now).actions_enabled <==> recording.state == PublicRecordingState::Recording
            || recording.state == PublicRecordingState::Paused,
        1_000_000 * recording.told(now).elapsed_ms <= recording.elapsed(now) < 1_000_000
            * recording.told(now).elapsed_ms + 1_000_000,
        recording.elapsed(now) >= 0,
{
}

/// A recording that never paused has run since it began.
pub proof fn lemma_elapsed(output: Seq<char>, scope: Seq<char>, then: u128, now: u128)
    requires
        then <= now,
    ensures
        WindowsRecordingView::begun(output, scope, then).elapsed(now) == now - then,
        WindowsRecordingView::begun(output, scope, then).output == output,
        WindowsRecordingView::begun(output, scope, then).scope == scope,
        WindowsRecordingView::begun(output, scope, then).state == PublicRecordingState::Recording,
{
}

/// A recording is finished where all of it worked and its file is not empty; its file is the one that
/// it was begun with. The first failure is told.
pub proof fn lemma_finished(
    recording: WindowsRecording,
    sound: Result<(), String>,
    encoded: Result<(), String>,
    stopped: Result<(), String>,
    length: Option<u64>,
    r: Result<String, String>,
)
    requires
        call_ensures(WindowsRecording::finish, (recording, sound, encoded, stopped, length), r),
    ensures
        r is Ok <==> sound is Ok && encoded is Ok && stopped is Ok && length is Some
            && length->Some_0 > 0,
        r matches Ok(path) ==> path@ == recording.output@,
        sound matches Err(error) ==> r->Err_0@ == error@,
        sound is Ok && encoded is Ok ==> (stopped matches Err(error) ==> r->Err_0@ == error@),
        sound is Ok ==> (encoded matches Err(error) ==> crate::text::has_suffix(
            r->Err_0@,
            error@,
        )),
{
    if sound is Ok {
        if let Err(error) = encoded {
            let message = r->Err_0@;
            assert(message.skip(message.len() - error@.len()) =~= error@);
        }
    }
}

} // verus!
