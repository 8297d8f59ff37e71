//! The track of the pointer beside a recording.
use vstd::prelude::*;
use vstd::string::StringExecFns;

use crate::paths::join;
use crate::record::Geometry;
use crate::text::{among, decimal_string, joined, same, signed_decimal_string};

verus! {

/// What a tracker follows.
#[derive(Clone, Debug, PartialEq, Eq)]
pub enum Source {
    Output(String),
    /// The output that the middle of a part of the desktop lies on.
    Region(Geometry),
}

/// The file of a segment's track. A recording of several outputs has one for each.
pub open spec fn track_of(segment: Seq<char>, index: nat) -> Seq<char> {
    if index == 0 {
        segment + ".cursor"@
    } else {
        segment + ".cursor"@ + crate::text::decimal(index)
    }
}

/// The file of a segment's track.
pub fn track_path_indexed(segment: &str, index: usize) -> (r: String)
    ensures
        r@ == track_of(segment@, index as nat),
{
    let mut name: String = joined(segment, ".cursor");
    if index > 0 {
        name.append(decimal_string(index as u128).as_str());
    }
    name
}

/// Two tracks of a segment have different files.
pub proof fn lemma_tracks_differ(segment: Seq<char>, a: nat, b: nat)
    requires
        track_of(segment, a) == track_of(segment, b),
    ensures
        a == b,
{
    let start = segment + ".cursor"@;
    crate::text::lemma_decimal_length(a);
    crate::text::lemma_decimal_length(b);
    if a == 0 || b == 0 {
        assert(track_of(segment, a).len() == track_of(segment, b).len());
    } else {
        assert(track_of(segment, a).skip(start.len() as int) =~= crate::text::decimal(a));
        assert(track_of(segment, b).skip(start.len() as int) =~= crate::text::decimal(b));
        crate::text::lemma_decimal_tells(a, b);
    }
}

/// The first `count` tracks of a segment.
pub open spec fn first_tracks(segment: Seq<char>, count: nat) -> Seq<Seq<char>> {
    Seq::new(count, |i: int| track_of(segment, i as nat))
}

/// No more tracks are there than files.
proof fn lemma_tracks_bounded(segment: Seq<char>, files: Seq<Seq<char>>, count: nat)
    requires
        forall|i: int|
            0 <= i < count ==> crate::text::is_among(
                files,
                #[trigger] first_tracks(segment, count)[i],
            ),
    ensures
        count <= files.len(),
{
    let tracks = first_tracks(segment, count);
    assert(tracks.no_duplicates()) by {
        assert forall|i: int, j: int|
            0 <= i < tracks.len() && 0 <= j < tracks.len() && i != j implies tracks[i]
            != tracks[j] by {
            if tracks[i] == tracks[j] {
                lemma_tracks_differ(segment, i as nat, j as nat);
            }
        }
    }
    crate::text::lemma_as_many(tracks, files);
}

/// The tracks of a segment that are there, in order: up to the first that is missing. `files` are
/// the files beside the segment.
pub fn track_paths(segment: &str, files: &Vec<String>) -> (r: Vec<String>)
    ensures
        crate::text::views(r@) == first_tracks(segment@, r@.len()),
        forall|i: int|
            0 <= i < r@.len() ==> crate::text::is_among(
                crate::text::views(files@),
                #[trigger] first_tracks(segment@, r@.len())[i],
            ),
        !crate::text::is_among(
            crate::text::views(files@),
            track_of(segment@, r@.len()),
        ),
{
    let mut paths: Vec<String> = Vec::new();
    let ghost all = crate::text::views(files@);
    let mut path = track_path_indexed(segment, 0);
    proof {
        assert(crate::text::views(paths@) =~= first_tracks(segment@, 0));
    }
    while among(files, path.as_str())
        invariant
            all == crate::text::views(files@),
            paths@.len() <= files.len(),
            path@ == track_of(segment@, paths@.len()),
            crate::text::views(paths@) == first_tracks(segment@, paths@.len()),
            forall|i: int|
                0 <= i < paths@.len() ==> crate::text::is_among(
                    all,
                    #[trigger] first_tracks(segment@, paths@.len())[i],
                ),
        decreases files.len() - paths@.len(),
    {
        let ghost before = paths@.len();
        let ghost found = crate::text::views(paths@);
        let ghost name = path@;
        proof {
            let more = first_tracks(segment@, before + 1);
            assert forall|i: int| 0 <= i < before + 1 implies crate::text::is_among(
                all,
                #[trigger] more[i],
            ) by {
                if i < before {
                    assert(more[i] == first_tracks(segment@, before)[i]);
                }
            }
            lemma_tracks_bounded(segment@, all, before + 1);
        }
        paths.push(path);
        proof {
            assert(crate::text::views(paths@) =~= found.push(name));
            assert(crate::text::views(paths@) =~= first_tracks(segment@, paths@.len()));
        }
        path = track_path_indexed(segment, paths.len());
    }
    paths
}

/// The name of the part of the recording program that draws a smoothed pointer.
pub const PLUGIN: &'static str = "libboltsnap_gsr_cursor.so";

/// The places where the plugin may be, given the directory of this program: beside it, and where
/// packages put it.
pub fn plugin_places(directory: &str) -> (r: (String, String))
    ensures
        r.0@ == crate::paths::joined(directory@, PLUGIN@),
        r.1@ == crate::paths::joined(
            crate::paths::joined(directory@, "../lib/boltsnap"@),
            PLUGIN@,
        ),
{
    (join(directory, PLUGIN), join(join(directory, "../lib/boltsnap").as_str(), PLUGIN))
}

/// The plugin, given which of the two places has it.
pub fn plugin_path(directory: &str, beside: bool, packaged: bool) -> (r: Result<String, String>)
    ensures
        if beside {
            r matches Ok(path) && path@ == crate::paths::joined(directory@, PLUGIN@)
        } else if packaged {
            r matches Ok(path) && path@ == crate::paths::joined(
                crate::paths::joined(directory@, "../lib/boltsnap"@),
                PLUGIN@,
            )
        } else {
            r matches Err(message) && message@ == "smooth cursor needs "@ + PLUGIN@
                + " beside boltsnap ("@ + directory@ + ")"@
        },
{
    let (first, second) = plugin_places(directory);
    if beside {
        Ok(first)
    } else if packaged {
        Ok(second)
    } else {
        let mut message: String = joined("smooth cursor needs ", PLUGIN);
        message.append(" beside boltsnap (");
        message.append(directory);
        message.append(")");
        Err(message)
    }
}

/// An output and its part of the desktop.
#[derive(Clone, Debug, PartialEq, Eq)]
pub struct TrackedOutput {
    pub name: String,
    pub x: i32,
    pub y: i32,
    pub width: i32,
    pub height: i32,
}

/// The output is the one that a tracker follows.
pub open spec fn is_followed(source: Source, output: TrackedOutput) -> bool {
    match source {
        Source::Output(name) => output.name@ == name@,
        Source::Region(area) => {
            let x = area.x + area.w as int / 2;
            let y = area.y + area.h as int / 2;
            &&& output.x <= x < output.x + output.width
            &&& output.y <= y < output.y + output.height
        },
    }
}

/// The place of the first output from `at` on that a tracker follows.
pub open spec fn followed_from(source: Source, outputs: Seq<TrackedOutput>, at: int) -> int
    decreases outputs.len() - at,
{
    if at < 0 || at >= outputs.len() || is_followed(source, outputs[at]) {
        at
    } else {
        followed_from(source, outputs, at + 1)
    }
}

/// Whether an output is the one that a tracker follows.
fn follows(source: &Source, output: &TrackedOutput) -> (r: bool)
    ensures
        r == is_followed(*source, *output),
{
    match source {
        Source::Output(name) => same(output.name.as_str(), name.as_str()),
        Source::Region(area) => {
            let x: i64 = area.x as i64 + area.w as i64 / 2;
            let y: i64 = area.y as i64 + area.h as i64 / 2;
            output.x as i64 <= x && x < output.x as i64 + output.width as i64 && output.y as i64
                <= y && y < output.y as i64 + output.height as i64
        },
    }
}

/// The place of the output that a tracker follows.
pub fn followed_output(source: &Source, outputs: &Vec<TrackedOutput>) -> (r: Result<usize, String>)
    ensures
        ({
            let place = followed_from(*source, outputs@, 0);
            if place < outputs@.len() {
                r matches Ok(found) && found == place
            } else {
                r matches Err(message) && message@ == "recorded output not found"@
            }
        }),
{
    let mut at: usize = 0;
    while at < outputs.len() && !follows(source, &outputs[at])
        invariant
            at <= outputs.len(),
            followed_from(*source, outputs@, 0) == followed_from(*source, outputs@, at as int),
        decreases outputs.len() - at,
    {
        at = at + 1;
    }
    if at < outputs.len() {
        Ok(at)
    } else {
        Err("recorded output not found".to_owned())
    }
}

/// A moment of the system's clock.
#[derive(Clone, Copy, Debug, PartialEq, Eq, Structural)]
pub struct Clock {
    pub monotonic_us: i128,
}

impl Clock {
    /// The moment that is `seconds` and `nanos` on the clock.
    pub fn at(seconds: i64, nanos: i64) -> (r: Self)
        requires
            0 <= nanos,
        ensures
            r.monotonic_us == seconds * 1_000_000 + nanos / 1000,
    {
        Clock { monotonic_us: seconds as i128 * 1_000_000 + nanos as i128 / 1000 }
    }

    /// The clock in microseconds, so many of them later. It is never before its beginning.
    pub fn us(&self, later: i64) -> (r: u64)
        requires
            -0x1_0000_0000_0000_0000 <= self.monotonic_us,
            self.monotonic_us + later <= u64::MAX,
        ensures
            r == (if self.monotonic_us + later > 0 {
                self.monotonic_us + later
            } else {
                0
            }),
    {
        let us: i128 = self.monotonic_us + later as i128;
        if us > 0 {
            us as u64
        } else {
            0
        }
    }
}

/// What is seen of the pointer.
#[derive(Clone, Copy, Debug, PartialEq, Eq, Structural)]
pub enum PointerEvent {
    Enter,
    Leave,
    Position(i32, i32),
}

/// Whether an event is handed to the recorder's plugins as well as to the track: they tell by its
/// places that the pointer is there, and need not be told that it enters.
pub fn is_fed(event: PointerEvent) -> (r: bool)
    ensures
        r == (event != PointerEvent::Enter),
{
    match event {
        PointerEvent::Enter => false,
        PointerEvent::Leave => true,
        PointerEvent::Position(_, _) => true,
    }
}

/// A line of the track.
pub fn track_line(us: u64, event: PointerEvent) -> (r: String)
    ensures
        r@ == crate::text::decimal(us as nat) + (match event {
            PointerEvent::Enter => " e"@,
            PointerEvent::Leave => " l"@,
            PointerEvent::Position(x, y) => " p "@ + crate::text::signed_decimal(x as int) + " "@
                + crate::text::signed_decimal(y as int),
        }) + "\n"@,
{
    let mut line: String = decimal_string(us as u128);
    match event {
        PointerEvent::Enter => {
            line.append(" e");
        },
        PointerEvent::Leave => {
            line.append(" l");
        },
        PointerEvent::Position(x, y) => {
            line.append(" p ");
            line.append(signed_decimal_string(x as i64).as_str());
            line.append(" ");
            line.append(signed_decimal_string(y as i64).as_str());
        },
    }
    line.append("\n");
    proof {
        let said = match event {
            PointerEvent::Enter => " e"@,
            PointerEvent::Leave => " l"@,
            PointerEvent::Position(x, y) => " p "@ + crate::text::signed_decimal(x as int) + " "@
                + crate::text::signed_decimal(y as int),
        };
        assert(line@ =~= crate::text::decimal(us as nat) + said + "\n"@);
    }
    line
}

/// The plugin is taken from beside the program where it is there, or else from the package.
pub proof fn lemma_plugin(
    directory: &str,
    beside: bool,
    packaged: bool,
    places: (String, String),
    path: Result<String, String>,
)
    requires
        call_ensures(plugin_places, (directory,), places),
        call_ensures(plugin_path, (directory, beside, packaged), path),
    ensures
        path is Ok <==> beside || packaged,
        beside ==> path->Ok_0@ == places.0@,
        !beside && packaged ==> path->Ok_0@ == places.1@,
        places.0@ == crate::paths::joined(directory@, "libboltsnap_gsr_cursor.so"@),
        places.1@ == crate::paths::joined(
            crate::paths::joined(directory@, "../lib/boltsnap"@),
            "libboltsnap_gsr_cursor.so"@,
        ),
{
}

/// The output that is followed is the first one that has the name, or that holds the middle of the
/// region.
pub proof fn lemma_followed(source: Source, outputs: Seq<TrackedOutput>, at: int)
    requires
        0 <= at <= outputs.len(),
    ensures
        at <= followed_from(source, outputs, at) <= outputs.len(),
        followed_from(source, outputs, at) < outputs.len() ==> is_followed(
            source,
            outputs[followed_from(source, outputs, at)],
        ),
        forall|i: int|
            at <= i < followed_from(source, outputs, at) ==> !is_followed(
                source,
                #[trigger] outputs[i],
            ),
    decreases outputs.len() - at,
{
    if at < outputs.len() {
        lemma_followed(source, outputs, at + 1);
    }
}

/// What is found is followed, and nothing is found only where no output is.
pub proof fn lemma_followed_output(
    source: &Source,
    outputs: &Vec<TrackedOutput>,
    found: Result<usize, String>,
)
    requires
        call_ensures(followed_output, (source, outputs), found),
    ensures
        found matches Ok(place) ==> {
            &&& place < outputs@.len()
            &&& *source matches Source::Output(name) ==> outputs@[place as int].name@ == name@
            &&& *source matches Source::Region(area) ==> {
                let output = outputs@[place as int];
                &&& 2 * output.x <= 2 * area.x + area.w
                &&& 2 * area.x + area.w - 1 < 2 * (output.x + output.width)
                &&& 2 * output.y <= 2 * area.y + area.h
                &&& 2 * area.y + area.h - 1 < 2 * (output.y + output.height)
            }
        },
        found is Err ==> (forall|i: int|
            0 <= i < outputs@.len() ==> !is_followed(*source, #[trigger] outputs@[i])),
{
    lemma_followed(*source, outputs@, 0);
}

/// A line of a track tells the time and what the pointer did: entered, left, or is at a place, the
/// place across first. Only entering is not handed on.
pub proof fn lemma_track_line(us: u64, event: PointerEvent, line: String, fed: bool)
    requires
        call_ensures(track_line, (us, event), line),
        call_ensures(is_fed, (event,), fed),
    ensures
        event == PointerEvent::Enter ==> line@ == crate::text::decimal(us as nat) + " e"@ + "\n"@,
        event == PointerEvent::Leave ==> line@ == crate::text::decimal(us as nat) + " l"@ + "\n"@,
        event matches PointerEvent::Position(x, y) ==> line@ == crate::text::decimal(us as nat) + (
        " p "@ + crate::text::signed_decimal(x as int) + " "@ + crate::text::signed_decimal(
            y as int,
        )) + "\n"@,
        fed <==> event is Leave || event is Position,
{
}

/// A time of the clock is in millionths of a second; what lies before the beginning is the
/// beginning, and later is later by as much.
pub proof fn lemma_clock(seconds: i64, nanos: i64, clock: Clock, later: i64, us: u64, sooner: u64)
    requires
        0 <= nanos,
        call_ensures(Clock::at, (seconds, nanos), clock),
        -0x1_0000_0000_0000_0000 <= clock.monotonic_us,
        clock.monotonic_us + later <= u64::MAX,
        clock.monotonic_us <= u64::MAX,
        call_ensures(Clock::us, (&clock, later), us),
        call_ensures(Clock::us, (&clock, 0), sooner),
    ensures
        clock.monotonic_us * 1000 <= seconds * 1_000_000_000 + nanos,
        seconds * 1_000_000_000 + nanos < clock.monotonic_us * 1000 + 1000,
        clock.monotonic_us >= 0 ==> sooner == clock.monotonic_us,
        clock.monotonic_us >= 0 && later >= 0 ==> us == sooner + later,
        clock.monotonic_us + later <= 0 ==> us == 0,
{
}

/// A track lies beside its segment and is named after it; those behind the first are numbered.
pub proof fn lemma_track_names(segment: &str, index: usize, path: String)
    requires
        call_ensures(track_path_indexed, (segment, index), path),
    ensures
        index == 0 ==> path@ == segment@ + ".cursor"@,
        index > 0 ==> path@ == segment@ + ".cursor"@ + crate::text::decimal(index as nat),
{
}

/// The tracks of a segment are those that are there, one behind the other, up to the first that is
/// not.
pub proof fn lemma_track_list(segment: &str, files: &Vec<String>, tracks: Vec<String>, i: int)
    requires
        call_ensures(track_paths, (segment, files), tracks),
    ensures
        0 <= i < tracks@.len() ==> tracks@[i]@ == track_of(segment@, i as nat)
            && crate::text::is_among(crate::text::views(files@), tracks@[i]@),
        !crate::text::is_among(
            crate::text::views(files@),
            track_of(segment@, tracks@.len()),
        ),
{
    let told = crate::text::views(tracks@);
    if 0 <= i < tracks@.len() {
        assert(told[i] == tracks@[i]@);
        assert(first_tracks(segment@, tracks@.len())[i] == told[i]);
    }
}

} // verus!
