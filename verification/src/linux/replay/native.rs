//! Recordings whose pointer is drawn anew, frame by frame.
use vstd::prelude::*;
use vstd::string::StringExecFns;

use crate::document::{Document, DocumentView};
use crate::text::{joined, parse_integer, push_word, same, strip_prefix};

verus! {

/// The only device through which pictures can be drawn: its path.
pub open spec fn render_nodes(names: Seq<Seq<char>>) -> Seq<Seq<char>>
    decreases names.len(),
{
    if names.len() == 0 {
        Seq::empty()
    } else if crate::text::without_prefix(names.last(), "renderD"@) is Some {
        render_nodes(names.drop_last()).push("/dev/dri/"@ + names.last())
    } else {
        render_nodes(names.drop_last())
    }
}

/// The device through which pictures are drawn, given the names in `/dev/dri`.
pub fn render_node(names: &Vec<String>) -> (r: Result<String, String>)
    ensures
        ({
            let nodes = render_nodes(crate::text::views(names@));
            if nodes.len() == 1 {
                r matches Ok(node) && node@ == nodes[0]
            } else {
                r matches Err(message) && message@
                    == "native cursor recording currently requires exactly one DRM render node"@
            }
        }),
{
    let ghost all = crate::text::views(names@);
    let mut nodes: Vec<String> = Vec::new();
    let mut i: usize = 0;
    proof {
        assert(all.take(0) =~= Seq::empty());
        assert(crate::text::views(nodes@) =~= render_nodes(all.take(0)));
    }
    while i < names.len()
        invariant
            all == crate::text::views(names@),
            i <= names.len(),
            crate::text::views(nodes@) == render_nodes(all.take(i as int)),
        decreases names.len() - i,
    {
        proof {
            assert(all.take(i + 1).drop_last() =~= all.take(i as int));
            assert(all.take(i + 1).last() == names@[i as int]@);
        }
        if strip_prefix(names[i].as_str(), "renderD").is_some() {
            push_word(&mut nodes, joined("/dev/dri/", names[i].as_str()).as_str());
        }
        i = i + 1;
    }
    proof {
        assert(all.take(i as int) =~= all);
    }
    if nodes.len() != 1 {
        return Err(
            "native cursor recording currently requires exactly one DRM render node".to_owned(),
        );
    }
    proof {
        assert(crate::text::views(nodes@)[0] == nodes@[0]@);
    }
    Ok(nodes[0].as_str().to_owned())
}

/// An output that can be recorded.
#[derive(Debug, PartialEq, Eq)]
pub struct CaptureOutput {
    pub name: String,
    pub description: String,
    /// The place and the size in the desktop.
    pub logical: (i32, i32, i32, i32),
    /// The size in pixels.
    pub mode_size: (u32, u32),
    /// How the output is turned: 0 where it is not.
    pub transform: u32,
}

/// The two outputs are the same and lie the same.
pub open spec fn unchanged(a: CaptureOutput, b: CaptureOutput) -> bool {
    &&& a.logical == b.logical
    &&& a.mode_size == b.mode_size
    &&& a.description@ == b.description@
    &&& a.transform == b.transform
}

/// Why an output cannot be recorded.
pub open spec fn unfit(
    output: CaptureOutput,
    expected: Option<CaptureOutput>,
    capture: bool,
) -> Option<Seq<char>> {
    if output.transform != 0 || output.mode_size.0 % 2 != 0 || output.mode_size.1 % 2 != 0 {
        Some("native cursor capture requires an unrotated, even-sized output"@)
    } else if (expected matches Some(expected) && !unchanged(expected, output)) {
        Some("capture output changed during discovery"@)
    } else if !capture {
        Some("separate cursor capture requires EXT image-copy-capture"@)
    } else {
        None
    }
}

/// The place of the first output of the given name from `at` on.
pub open spec fn output_from(outputs: Seq<CaptureOutput>, name: Seq<char>, at: int) -> int
    decreases outputs.len() - at,
{
    if at < 0 || at >= outputs.len() || outputs[at].name@ == name {
        at
    } else {
        output_from(outputs, name, at + 1)
    }
}

/// The place of the first output of the given name from `at` on.
fn output_place(outputs: &Vec<CaptureOutput>, name: &str, from: usize) -> (r: usize)
    requires
        from <= outputs.len(),
    ensures
        r == output_from(outputs@, name@, from as int),
        from <= r <= outputs.len(),
{
    let mut at: usize = from;
    while at < outputs.len() && !same(outputs[at].name.as_str(), name)
        invariant
            from <= at <= outputs.len(),
            output_from(outputs@, name@, from as int) == output_from(outputs@, name@, at as int),
        decreases outputs.len() - at,
    {
        at = at + 1;
    }
    at
}

/// The place of the output that is recorded. `expected` is what was seen of it before; `capture`
/// says whether the compositor can capture it apart from the pointer.
pub fn select_output(
    outputs: &Vec<CaptureOutput>,
    name: &str,
    expected: Option<&CaptureOutput>,
    capture: bool,
) -> (r: Result<usize, String>)
    ensures
        ({
            let place = output_from(outputs@, name@, 0);
            if place >= outputs@.len() {
                r matches Err(message) && message@ == "cursor capture output unavailable"@
            } else if output_from(outputs@, name@, place + 1) < outputs@.len() {
                r matches Err(message) && message@ == "ambiguous capture output"@
            } else {
                match unfit(
                    outputs@[place],
                    match expected {
                        Some(expected) => Some(*expected),
                        None => None,
                    },
                    capture,
                ) {
                    Some(text) => r matches Err(message) && message@ == text,
                    None => r matches Ok(found) && found == place,
                }
            }
        }),
{
    let place: usize = output_place(outputs, name, 0);
    if place >= outputs.len() {
        return Err("cursor capture output unavailable".to_owned());
    }
    if output_place(outputs, name, place + 1) < outputs.len() {
        return Err("ambiguous capture output".to_owned());
    }
    let output = &outputs[place];
    if output.transform != 0 || output.mode_size.0 % 2 != 0 || output.mode_size.1 % 2 != 0 {
        return Err(
            "native cursor capture requires an unrotated, even-sized output".to_owned(),
        );
    }
    match expected {
        Some(old) => {
            let lies = old.logical.0 == output.logical.0 && old.logical.1 == output.logical.1
                && old.logical.2 == output.logical.2 && old.logical.3 == output.logical.3;
            let sized = old.mode_size.0 == output.mode_size.0 && old.mode_size.1
                == output.mode_size.1;
            if !lies || !sized || !same(old.description.as_str(), output.description.as_str())
                || old.transform != output.transform {
                return Err("capture output changed during discovery".to_owned());
            }
        },
        None => {},
    }
    if !capture {
        return Err("separate cursor capture requires EXT image-copy-capture".to_owned());
    }
    Ok(place)
}

/// Whether a frame lies as the output does.
pub fn check_frame(transform: u32, y_inverted: bool, size: (u32, u32), expected: (u32, u32)) -> (r:
    Result<(), String>)
    ensures
        if transform == 0 && !y_inverted && size == expected {
            r is Ok
        } else {
            r matches Err(message) && message@
                == "video layout changed or unsupported buffer orientation"@
        },
{
    if transform != 0 || y_inverted || size.0 != expected.0 || size.1 != expected.1 {
        Err("video layout changed or unsupported buffer orientation".to_owned())
    } else {
        Ok(())
    }
}

/// When a frame was shown, as seen from now.
#[derive(Clone, Copy, Debug, PartialEq, Eq, Structural)]
pub enum Shown {
    /// This many nanoseconds ago.
    Ago(u64),
    /// In this many nanoseconds.
    Ahead(u64),
}

/// When a frame was shown, given its stamp and the clock, both in nanoseconds. A frame may not be
/// more than a second ahead.
pub fn presented(stamp: Option<u64>, clock: u64) -> (r: Result<Shown, String>)
    requires
        clock <= u64::MAX - 1_000_000_000,
    ensures
        match stamp {
            None => r matches Err(message) && message@ == "video presentation timestamp missing"@,
            Some(stamp) => if stamp > clock + 1_000_000_000 {
                r matches Err(message) && message@
                    == "video timestamp is outside the monotonic timeline"@
            } else if stamp <= clock {
                r == Ok::<Shown, String>(Shown::Ago((clock - stamp) as u64))
            } else {
                r == Ok::<Shown, String>(Shown::Ahead((stamp - clock) as u64))
            },
        },
{
    match stamp {
        None => Err("video presentation timestamp missing".to_owned()),
        Some(stamp) => if stamp > clock + 1_000_000_000 {
            Err("video timestamp is outside the monotonic timeline".to_owned())
        } else if stamp <= clock {
            Ok(Shown::Ago(clock - stamp))
        } else {
            Ok(Shown::Ahead(stamp - clock))
        },
    }
}

/// What came of handing something to the recorder.
pub enum Handed {
    Taken,
    Gone,
    Full,
}

/// Whether something was handed to the recorder: `None` where it is to be tried again.
pub fn handed(result: Handed, cancelled: bool) -> (r: Option<Result<(), String>>)
    ensures
        match result {
            Handed::Taken => r matches Some(Ok(_)),
            Handed::Gone => r matches Some(Err(message)) && message@ == "consumer stopped"@,
            Handed::Full => if cancelled {
                r matches Some(Err(message)) && message@ == "capture cancelled"@
            } else {
                r is None
            },
        },
{
    match result {
        Handed::Taken => Some(Ok(())),
        Handed::Gone => Some(Err("consumer stopped".to_owned())),
        Handed::Full => if cancelled {
            Some(Err("capture cancelled".to_owned()))
        } else {
            None
        },
    }
}

/// What came of waiting until the recorder has drawn a frame.
#[derive(Clone, Copy, Debug, PartialEq, Eq, Structural)]
pub enum Ack {
    /// The frame is drawn, or the recorder is gone.
    Done,
    /// Neither yet.
    Late,
}

/// What follows from waiting until the recorder has drawn a frame.
#[derive(Clone, Copy, Debug, PartialEq, Eq, Structural)]
pub enum AckStep {
    /// The next frame is fetched.
    Next,
    /// The capture ends.
    Stop,
    Wait,
}

/// What follows from waiting until the recorder has drawn a frame. A frame that is drawn is always
/// let go, though the capture was cancelled.
pub fn acknowledged(ack: Ack, cancelled: bool) -> (r: AckStep)
    ensures
        r == (match ack {
            Ack::Done => AckStep::Next,
            Ack::Late => if cancelled {
                AckStep::Stop
            } else {
                AckStep::Wait
            },
        }),
{
    match ack {
        Ack::Done => AckStep::Next,
        Ack::Late => if cancelled {
            AckStep::Stop
        } else {
            AckStep::Wait
        },
    }
}

/// Whether the recorder took what was seen of the pointer: nothing of it may be lost.
pub fn noted(taken: bool) -> (r: Result<(), String>)
    ensures
        if taken {
            r is Ok
        } else {
            r matches Err(message) && message@ == "cursor observation queue exhausted/disconnected"@
        },
{
    if taken {
        Ok(())
    } else {
        Err("cursor observation queue exhausted/disconnected".to_owned())
    }
}

/// Where something comes from.
#[derive(Clone, Copy, Debug, PartialEq, Eq, Structural)]
pub enum Producer {
    Cursor,
    Video,
}

/// What the recorder found when it looked for something from a producer.
pub enum Looked<T> {
    Found(Result<T, String>),
    Empty,
    /// The producer is gone.
    Gone,
}

/// What the recorder found when it looked for something from a producer.
pub fn looked<T>(producer: Producer, look: Looked<T>) -> (r: Result<Option<T>, String>)
    ensures
        match look {
            Looked::Found(Ok(item)) => r == Ok::<Option<T>, String>(Some(item)),
            Looked::Found(Err(error)) => r == Err::<Option<T>, String>(error),
            Looked::Empty => r == Ok::<Option<T>, String>(None),
            Looked::Gone => r matches Err(message) && message@ == (match producer {
                Producer::Cursor => "cursor producer stopped"@,
                Producer::Video => "video producer stopped"@,
            }),
        },
{
    match look {
        Looked::Found(Ok(item)) => Ok(Some(item)),
        Looked::Found(Err(error)) => Err(error),
        Looked::Empty => Ok(None),
        Looked::Gone => match producer {
            Producer::Cursor => Err("cursor producer stopped".to_owned()),
            Producer::Video => Err("video producer stopped".to_owned()),
        },
    }
}

/// The first frame, given what came of waiting for it.
pub fn initial_frame<T>(received: Result<Result<T, String>, String>) -> (r: Result<T, String>)
    ensures
        match received {
            Ok(Ok(frame)) => r == Ok::<T, String>(frame),
            Ok(Err(error)) => r == Err::<T, String>(error),
            Err(error) => r matches Err(message) && message@ == "initial video frame: "@ + error@,
        },
{
    match received {
        Ok(Ok(frame)) => Ok(frame),
        Ok(Err(error)) => Err(error),
        Err(error) => Err(joined("initial video frame: ", error.as_str())),
    }
}

/// How many pictures of the pointer may wait.
pub const MAX_IMAGES: usize = 4;

/// The pictures of the pointer that wait.
pub struct ImageQueue {
    pub held: usize,
}

impl ImageQueue {
    /// No more wait than may.
    pub open spec fn well_formed(&self) -> bool {
        self.held <= MAX_IMAGES
    }

    /// Nothing waits.
    pub fn new() -> (r: Self)
        ensures
            r.held == 0,
            r.well_formed(),
    {
        ImageQueue { held: 0 }
    }

    /// Counts a picture, where it lies as it should and there is room.
    pub fn take(&mut self, transform: u32, y_inverted: bool) -> (r: Result<(), String>)
        requires
            old(self).well_formed(),
        ensures
            final(self).well_formed(),
            if transform != 0 || y_inverted {
                &&& r matches Err(message) && message@ == "unsupported cursor image orientation"@
                &&& final(self).held == old(self).held
            } else if old(self).held == MAX_IMAGES {
                &&& r matches Err(message) && message@ == "cursor image queue exhausted"@
                &&& final(self).held == old(self).held
            } else {
                &&& r is Ok
                &&& final(self).held == old(self).held + 1
            },
            r is Ok <==> transform == 0 && !y_inverted && old(self).held < 4,
    {
        if transform != 0 || y_inverted {
            return Err("unsupported cursor image orientation".to_owned());
        }
        if self.held >= MAX_IMAGES {
            return Err("cursor image queue exhausted".to_owned());
        }
        self.held = self.held + 1;
        Ok(())
    }

    /// A picture is no longer needed.
    pub fn release(&mut self)
        requires
            old(self).held > 0,
            old(self).well_formed(),
        ensures
            final(self).held == old(self).held - 1,
            final(self).well_formed(),
    {
        self.held = self.held - 1;
    }
}

/// Whether the pointer can be smoothed with a codec.
pub fn check_codec(codec: &str) -> (r: Result<(), String>)
    ensures
        if codec@ == "libx264"@ {
            r is Ok
        } else {
            r matches Err(message) && message@
                == "cursor smoothing currently requires explicit libx264; the local Vulkan encoder fails validation, no automatic codec fallback"@
        },
{
    if same(codec, "libx264") {
        Ok(())
    } else {
        Err(
            "cursor smoothing currently requires explicit libx264; the local Vulkan encoder fails validation, no automatic codec fallback".to_owned(),
        )
    }
}

/// The output and the codec that the words of a command line ask to be tried.
pub open spec fn probe_asked(words: Seq<Seq<char>>) -> Result<(Seq<char>, Seq<char>), Seq<char>> {
    if words.len() != 2 {
        Err("cursor-probe OUTPUT CODEC"@)
    } else if words[1] != "libx264"@ {
        Err(
            "cursor smoothing currently requires explicit libx264; the local Vulkan encoder fails validation, no automatic codec fallback"@,
        )
    } else {
        Ok((words[0], words[1]))
    }
}

/// The output and the codec that the words of a command line ask to be tried.
pub fn probe_options(words: &[String]) -> (r: Result<(String, String), String>)
    ensures
        probe_asked(crate::text::views(words@)) == (match r {
            Ok((output, codec)) => Ok((output@, codec@)),
            Err(message) => Err(message@),
        }),
{
    if words.len() != 2 {
        return Err("cursor-probe OUTPUT CODEC".to_owned());
    }
    check_codec(words[1].as_str())?;
    Ok((words[0].as_str().to_owned(), words[1].as_str().to_owned()))
}

/// What the worker says where the pointer can be smoothed.
pub open spec fn probe_said(output: Seq<char>, codec: Seq<char>) -> DocumentView {
    DocumentView::Object(
        Map::empty().insert("ok"@, DocumentView::Bool(true)).insert(
            "cursor_smoothing"@,
            DocumentView::Bool(true),
        ).insert("output"@, DocumentView::Text(output)).insert("codec"@, DocumentView::Text(codec)),
    )
}

/// What the worker says where the pointer can be smoothed.
pub fn probe_answer(output: &str, codec: &str) -> (r: Document)
    ensures
        r@ == probe_said(output@, codec@),
        r.plain(127),
{
    Document::object().with("ok", Document::Bool(true)).with(
        "cursor_smoothing",
        Document::Bool(true),
    ).with("output", Document::text(output)).with("codec", Document::text(codec))
}

/// What is recorded and how.
pub struct RecordOptions {
    pub output: String,
    pub fps: u32,
    pub codec: String,
    /// Where the sound comes from: nowhere where it is `-`.
    pub audio: String,
    pub destination: String,
}

/// What [`RecordOptions`] say.
pub struct RecordView {
    pub output: Seq<char>,
    pub fps: u32,
    pub codec: Seq<char>,
    pub audio: Seq<char>,
    pub destination: Seq<char>,
}

impl RecordOptions {
    /// What is recorded and how.
    pub open spec fn view(&self) -> RecordView {
        RecordView {
            output: self.output@,
            fps: self.fps,
            codec: self.codec@,
            audio: self.audio@,
            destination: self.destination@,
        }
    }
}

/// What the words of a command line ask to be recorded.
pub open spec fn record_asked(words: Seq<Seq<char>>) -> Result<RecordView, Seq<char>> {
    if words.len() != 5 {
        Err("cursor-record OUTPUT FPS CODEC AUDIO_SOURCE|- DESTINATION.mp4"@)
    } else {
        match crate::text::integer(words[1], 0, u32::MAX as int) {
            Ok(fps) if 1 <= fps <= 240 => if words[2] != "libx264"@ {
                Err(
                    "cursor smoothing currently requires explicit libx264; the local Vulkan encoder fails validation, no automatic codec fallback"@,
                )
            } else if fps != 60 {
                Err("experimental cursor recording currently supports 60 FPS only"@)
            } else {
                Ok(
                    RecordView {
                        output: words[0],
                        fps: fps as u32,
                        codec: words[2],
                        audio: words[3],
                        destination: words[4],
                    },
                )
            },
            _ => Err("invalid fps"@),
        }
    }
}

/// What the words of a command line ask to be recorded.
pub fn record_options(words: &[String]) -> (r: Result<RecordOptions, String>)
    ensures
        record_asked(crate::text::views(words@)) == (match r {
            Ok(options) => Ok(options@),
            Err(message) => Err(message@),
        }),
{
    let ghost all = crate::text::views(words@);
    if words.len() != 5 {
        return Err("cursor-record OUTPUT FPS CODEC AUDIO_SOURCE|- DESTINATION.mp4".to_owned());
    }
    assert(forall|i: int| 0 <= i < 5 ==> #[trigger] all[i] == words@[i]@);
    let fps: u32 = match parse_integer(words[1].as_str(), 0, u32::MAX as u64) {
        Ok(fps) => {
            if fps < 1 || fps > 240 {
                return Err("invalid fps".to_owned());
            }
            fps as u32
        },
        Err(_) => {
            return Err("invalid fps".to_owned());
        },
    };
    match check_codec(words[2].as_str()) {
        Ok(_) => {},
        Err(message) => {
            return Err(message);
        },
    }
    if fps != 60 {
        return Err("experimental cursor recording currently supports 60 FPS only".to_owned());
    }
    Ok(
        RecordOptions {
            output: words[0].as_str().to_owned(),
            fps,
            codec: words[2].as_str().to_owned(),
            audio: words[3].as_str().to_owned(),
            destination: words[4].as_str().to_owned(),
        },
    )
}

/// The words that name the sound that is put beside the picture.
pub open spec fn sound_words(audio: Seq<char>, fixture: Option<Seq<char>>) -> Seq<Seq<char>> {
    match fixture {
        Some(source) => seq!["-isync"@, "0"@, "-re"@, "-f"@, "lavfi"@, "-i"@, source],
        None => if audio != "-"@ {
            seq!["-isync"@, "0"@, "-f"@, "pulse"@, "-i"@, audio]
        } else {
            Seq::empty()
        },
    }
}

/// The words that put picture and sound together.
pub open spec fn mux_words(audio: Seq<char>, fixture: Option<Seq<char>>) -> Seq<Seq<char>> {
    seq![
        "-v"@,
        "warning"@,
        "-nostdin"@,
        "-copyts"@,
        "-start_at_zero"@,
        "-f"@,
        "nut"@,
        "-i"@,
        "pipe:0"@,
    ] + sound_words(audio, fixture) + seq!["-map"@, "0:v:0"@, "-c:v"@, "copy"@] + (if audio != "-"@
        || fixture is Some {
        seq!["-map"@, "1:a:0"@, "-c:a"@, "aac"@, "-b:a"@, "128k"@, "-shortest"@]
    } else {
        Seq::<Seq<char>>::empty()
    }) + seq!["-f"@, "mp4"@, "-movflags"@, "frag_keyframe+delay_moov"@, "pipe:1"@]
}

/// The words that put picture and sound together. `fixture` is a sound that is made up to try it.
pub fn mux_args(audio: &str, fixture: Option<&str>) -> (r: Vec<String>)
    ensures
        crate::text::views(r@) == mux_words(
            audio@,
            match fixture {
                Some(source) => Some(source@),
                None => None,
            },
        ),
{
    let ghost made: Option<Seq<char>> = match fixture {
        Some(source) => Some(source@),
        None => None,
    };
    let mut words: Vec<String> = Vec::new();
    push_word(&mut words, "-v");
    push_word(&mut words, "warning");
    push_word(&mut words, "-nostdin");
    push_word(&mut words, "-copyts");
    push_word(&mut words, "-start_at_zero");
    push_word(&mut words, "-f");
    push_word(&mut words, "nut");
    push_word(&mut words, "-i");
    push_word(&mut words, "pipe:0");
    let ghost opening = crate::text::views(words@);
    proof {
        assert(opening =~= seq![
            "-v"@,
            "warning"@,
            "-nostdin"@,
            "-copyts"@,
            "-start_at_zero"@,
            "-f"@,
            "nut"@,
            "-i"@,
            "pipe:0"@,
        ]);
    }
    let silent = same(audio, "-");
    match fixture {
        Some(source) => {
            push_word(&mut words, "-isync");
            push_word(&mut words, "0");
            push_word(&mut words, "-re");
            push_word(&mut words, "-f");
            push_word(&mut words, "lavfi");
            push_word(&mut words, "-i");
            push_word(&mut words, source);
        },
        None => {
            if !silent {
                push_word(&mut words, "-isync");
                push_word(&mut words, "0");
                push_word(&mut words, "-f");
                push_word(&mut words, "pulse");
                push_word(&mut words, "-i");
                push_word(&mut words, audio);
            }
        },
    }
    let ghost sounding = crate::text::views(words@);
    proof {
        assert(sounding =~= opening + sound_words(audio@, made));
    }
    push_word(&mut words, "-map");
    push_word(&mut words, "0:v:0");
    push_word(&mut words, "-c:v");
    push_word(&mut words, "copy");
    let ghost mapped = crate::text::views(words@);
    proof {
        assert(mapped =~= sounding + seq!["-map"@, "0:v:0"@, "-c:v"@, "copy"@]);
    }
    let ghost beside = if audio@ != "-"@ || made is Some {
        seq!["-map"@, "1:a:0"@, "-c:a"@, "aac"@, "-b:a"@, "128k"@, "-shortest"@]
    } else {
        Seq::<Seq<char>>::empty()
    };
    if !silent || fixture.is_some() {
        push_word(&mut words, "-map");
        push_word(&mut words, "1:a:0");
        push_word(&mut words, "-c:a");
        push_word(&mut words, "aac");
        push_word(&mut words, "-b:a");
        push_word(&mut words, "128k");
        push_word(&mut words, "-shortest");
    }
    let ghost encoded = crate::text::views(words@);
    proof {
        assert(encoded =~= mapped + beside);
    }
    push_word(&mut words, "-f");
    push_word(&mut words, "mp4");
    push_word(&mut words, "-movflags");
    push_word(&mut words, "frag_keyframe+delay_moov");
    push_word(&mut words, "pipe:1");
    proof {
        assert(crate::text::views(words@) =~= encoded + seq![
            "-f"@,
            "mp4"@,
            "-movflags"@,
            "frag_keyframe+delay_moov"@,
            "pipe:1"@,
        ]);
    }
    words
}

/// The number of the first frame: how many frames fit into the time since the epoch.
pub fn first_frame(epoch_nanos: u128, fps: u32) -> (r: Result<i64, String>)
    requires
        epoch_nanos * fps <= u128::MAX,
    ensures
        ({
            let first = epoch_nanos as int * fps as int / 1_000_000_000;
            if first <= i64::MAX {
                r matches Ok(frame) && frame == first
            } else {
                r matches Err(message) && message@ == "timestamp overflow"@
            }
        }),
{
    let first: u128 = epoch_nanos * fps as u128 / 1_000_000_000;
    if first <= i64::MAX as u128 {
        Ok(first as i64)
    } else {
        Err("timestamp overflow".to_owned())
    }
}

/// A picture of the pointer, or a frame, and when it is due in nanoseconds from the beginning.
pub struct Due<T> {
    pub at: u64,
    pub item: T,
}

/// How many of a run of times, from its beginning, have come.
pub open spec fn come<T>(waiting: Seq<Due<T>>, time: u64) -> int
    decreases waiting.len(),
{
    if waiting.len() == 0 || waiting[0].at > time {
        0
    } else {
        1 + come(waiting.skip(1), time)
    }
}

/// What has come is part of what waits.
proof fn lemma_come<T>(waiting: Seq<Due<T>>, time: u64)
    ensures
        0 <= come(waiting, time) <= waiting.len(),
        forall|i: int| 0 <= i < come(waiting, time) ==> (#[trigger] waiting[i]).at <= time,
        come(waiting, time) < waiting.len() ==> waiting[come(waiting, time)].at > time,
    decreases waiting.len(),
{
    if waiting.len() > 0 && waiting[0].at <= time {
        let rest = waiting.skip(1);
        lemma_come(rest, time);
        assert forall|i: int| 0 <= i < come(waiting, time) implies (#[trigger] waiting[i]).at
            <= time by {
            if i > 0 {
                assert(waiting[i] == rest[i - 1]);
            }
        }
        if come(waiting, time) < waiting.len() {
            assert(waiting[come(waiting, time)] == rest[come(rest, time)]);
        }
    }
}

/// What waits to be drawn.
pub struct Waiting<I, V> {
    /// Pictures of the pointer, in the order in which they came.
    pub images: Vec<Due<I>>,
    /// The next frame.
    pub video: Option<Due<V>>,
}

impl<I, V> Waiting<I, V> {
    /// Nothing waits.
    pub fn new() -> (r: Self)
        ensures
            r.images@.len() == 0,
            r.video is None,
    {
        Waiting { images: Vec::new(), video: None }
    }

    /// Puts a picture of the pointer behind those that wait.
    pub fn add_image(&mut self, at: u64, image: I)
        ensures
            final(self).images@ == old(self).images@.push(Due { at, item: image }),
            final(self).video == old(self).video,
    {
        self.images.push(Due { at, item: image });
    }

    /// Takes the next picture of the pointer where its time has come. Those behind it wait for it.
    pub fn next_image(&mut self, time: u64) -> (r: Option<I>)
        ensures
            final(self).video == old(self).video,
            if old(self).images@.len() > 0 && old(self).images@[0].at <= time {
                &&& r == Some(old(self).images@[0].item)
                &&& final(self).images@ == old(self).images@.skip(1)
            } else {
                r is None && final(self).images@ == old(self).images@
            },
            r is Some <==> old(self).images@.len() > 0 && old(self).images@[0].at <= time,
            r is Some ==> final(self).images@.len() + 1 == old(self).images@.len(),
    {
        if self.images.len() > 0 && self.images[0].at <= time {
            let ghost before = self.images@;
            let due = self.images.remove(0);
            proof {
                assert(self.images@ =~= before.skip(1));
            }
            Some(due.item)
        } else {
            None
        }
    }

    /// Whether another frame can be taken in.
    pub fn wants_video(&self) -> (r: bool)
        ensures
            r == (self.video is None),
    {
        self.video.is_none()
    }

    /// Takes a frame in.
    pub fn add_video(&mut self, at: u64, frame: V)
        requires
            old(self).video is None,
        ensures
            final(self).video == Some(Due { at, item: frame }),
            final(self).images == old(self).images,
    {
        self.video = Some(Due { at, item: frame });
    }

    /// Takes the frame out where its time has come.
    pub fn next_video(&mut self, time: u64) -> (r: Option<V>)
        ensures
            final(self).images == old(self).images,
            match old(self).video {
                Some(due) if due.at <= time => r == Some(due.item) && final(self).video is None,
                video => r is None && final(self).video == video,
            },
            r is Some <==> old(self).video is Some && old(self).video->Some_0.at <= time,
    {
        let come = match &self.video {
            Some(due) => due.at <= time,
            None => false,
        };
        if !come {
            return None;
        }
        match self.video.take() {
            Some(due) => Some(due.item),
            None => None,
        }
    }
}

/// The pictures of the pointer that are taken out one after the other until none is due are those
/// whose time has come before the first whose time has not, in the order in which they came.
pub proof fn lemma_images_in_order<I>(waiting: Seq<Due<I>>, time: u64)
    ensures
        forall|i: int|
            0 <= i < come(waiting, time) ==> (#[trigger] waiting.skip(i)).len() > 0
                && waiting.skip(i)[0].at <= time,
        waiting.skip(come(waiting, time)).len() > 0 ==> waiting.skip(come(waiting, time))[0].at
            > time,
{
    lemma_come(waiting, time);
    assert forall|i: int| 0 <= i < come(waiting, time) implies (#[trigger] waiting.skip(i)).len()
        > 0 && waiting.skip(i)[0].at <= time by {
        assert(waiting.skip(i)[0] == waiting[i]);
    }
}

/// Whether the recording can go on after a frame: what puts it together has to run, and the
/// recording may not be more than two seconds late. Times are in nanoseconds.
pub fn keeps_up(mux_exit: Option<&str>, elapsed: u64, time: u64) -> (r: Result<(), String>)
    requires
        time <= u64::MAX - 2_000_000_000,
    ensures
        match mux_exit {
            Some(exit) => r matches Err(message) && message@ == "recording mux exited: "@ + exit@,
            None => if elapsed > time + 2_000_000_000 {
                r matches Err(message) && message@
                    == "cursor encoder cannot sustain requested frame rate"@
            } else {
                r is Ok
            },
        },
{
    match mux_exit {
        Some(exit) => Err(joined("recording mux exited: ", exit)),
        None => if elapsed > time + 2_000_000_000 {
            Err("cursor encoder cannot sustain requested frame rate".to_owned())
        } else {
            Ok(())
        },
    }
}

/// What came of putting a recording together: `None` where it is still at work.
pub fn finalized(exit: Option<(bool, &str)>, expired: bool) -> (r: Option<Result<(), String>>)
    ensures
        match exit {
            Some((success, text)) => if success {
                r matches Some(Ok(_))
            } else {
                r matches Some(Err(message)) && message@ == "recording mux failed: "@ + text@
            },
            None => if expired {
                r matches Some(Err(message)) && message@
                    == "audio/video mux finalization timed out"@
            } else {
                r is None
            },
        },
{
    match exit {
        Some((success, text)) => if success {
            Some(Ok(()))
        } else {
            Some(Err(joined("recording mux failed: ", text)))
        },
        None => if expired {
            Some(Err("audio/video mux finalization timed out".to_owned()))
        } else {
            None
        },
    }
}

/// The size of the picture that a trial draws.
pub fn fixture_size(words: &[String]) -> (r: Result<(u32, u32), String>)
    ensures
        ({
            let all = crate::text::views(words@);
            if all.len() == 3 {
                r == Ok::<(u32, u32), String>((320, 180))
            } else if all.len() != 5 {
                r matches Err(message) && message@
                    == "cursor-fixture RENDER_NODE CODEC OUTPUT.nut [WIDTH HEIGHT]"@
            } else {
                match (
                    crate::text::integer(all[3], 0, u32::MAX as int),
                    crate::text::integer(all[4], 0, u32::MAX as int),
                ) {
                    (Ok(width), Ok(height)) => r matches Ok((w, h)) && w == width && h == height,
                    (Ok(_), Err(_)) => r matches Err(message) && message@ == "invalid height"@,
                    _ => r matches Err(message) && message@ == "invalid width"@,
                }
            }
        }),
{
    if words.len() == 3 {
        return Ok((320, 180));
    }
    if words.len() != 5 {
        return Err("cursor-fixture RENDER_NODE CODEC OUTPUT.nut [WIDTH HEIGHT]".to_owned());
    }
    let width: u32 = match parse_integer(words[3].as_str(), 0, u32::MAX as u64) {
        Ok(width) => width as u32,
        Err(_) => {
            return Err("invalid width".to_owned());
        },
    };
    match parse_integer(words[4].as_str(), 0, u32::MAX as u64) {
        Ok(height) => Ok((width, height as u32)),
        Err(_) => Err("invalid height".to_owned()),
    }
}

/// A size that can be drawn.
pub open spec fn drawable(width: int, height: int) -> bool {
    1 <= width <= 8192 && 1 <= height <= 8192 && width * height <= 16_777_216
}

/// Whether a size can be drawn.
pub fn check_size(width: u32, height: u32) -> (r: Result<(), String>)
    ensures
        if drawable(width as int, height as int) {
            r is Ok
        } else {
            r matches Err(message) && message@ == "unsupported compositor size"@
        },
{
    if width < 1 || width > 8192 || height < 1 || height > 8192 {
        return Err("unsupported compositor size".to_owned());
    }
    proof {
        assert(width * height <= 8192 * 8192) by (nonlinear_arith)
            requires
                width <= 8192,
                height <= 8192,
        ;
    }
    if width as u64 * height as u64 > 16_777_216 {
        return Err("unsupported compositor size".to_owned());
    }
    Ok(())
}

/// Whether a background has a pixel for each place.
pub fn check_background(width: u32, height: u32, bytes: usize) -> (r: Result<(), String>)
    requires
        drawable(width as int, height as int),
    ensures
        if bytes == width * height * 4 {
            r is Ok
        } else {
            r matches Err(message) && message@ == "background byte count"@
        },
{
    let expected: u64 = width as u64 * height as u64 * 4;
    if bytes as u64 != expected {
        Err("background byte count".to_owned())
    } else {
        Ok(())
    }
}

/// Whether a frame has as many planes as can be drawn.
pub fn check_planes(planes: usize) -> (r: Result<(), String>)
    ensures
        if 1 <= planes <= 4 {
            r is Ok
        } else {
            r matches Err(message) && message@ == "invalid DMA-BUF planes"@
        },
{
    if planes == 0 || planes > 4 {
        Err("invalid DMA-BUF planes".to_owned())
    } else {
        Ok(())
    }
}

/// Whether a picture of the pointer can be drawn.
pub fn check_cursor(width: u32, height: u32, bytes: usize) -> (r: Result<(), String>)
    ensures
        if 1 <= width <= 1024 && 1 <= height <= 1024 && bytes == width * height * 4 {
            r is Ok
        } else {
            r matches Err(message) && message@ == "invalid cursor image"@
        },
{
    if width == 0 || height == 0 || width > 1024 || height > 1024 {
        return Err("invalid cursor image".to_owned());
    }
    proof {
        assert(width * height <= 1024 * 1024) by (nonlinear_arith)
            requires
                width <= 1024,
                height <= 1024,
        ;
    }
    if bytes as u64 != width as u64 * height as u64 * 4 {
        return Err("invalid cursor image".to_owned());
    }
    Ok(())
}

/// Whether an encoder can be set up; `set` says that one was already.
pub fn check_encoder(codec: &str, fps: u32, set: bool) -> (r: Result<(), String>)
    ensures
        if !(1 <= fps <= 240) || (codec@ != "libx264"@ && codec@ != "h264_vulkan"@) {
            r matches Err(message) && message@ == "unsupported native cursor encoder/FPS"@
        } else if set {
            r matches Err(message) && message@ == "encoder already initialized"@
        } else {
            r is Ok
        },
{
    if fps == 0 || fps > 240 || !(same(codec, "libx264") || same(codec, "h264_vulkan")) {
        return Err("unsupported native cursor encoder/FPS".to_owned());
    }
    if set {
        return Err("encoder already initialized".to_owned());
    }
    Ok(())
}

/// What the worker is told to do with the pointer.
#[derive(Clone, Copy, Debug, PartialEq, Eq, Structural)]
pub enum CursorCommand {
    Fixture,
    Probe,
    /// A recording; `true` where its sound is made up.
    Record(bool),
}

/// What the worker is told to do with the pointer.
pub fn cursor_command(name: &str) -> (r: Result<CursorCommand, String>)
    ensures
        if name@ == "cursor-fixture"@ {
            r == Ok::<CursorCommand, String>(CursorCommand::Fixture)
        } else if name@ == "cursor-probe"@ {
            r == Ok::<CursorCommand, String>(CursorCommand::Probe)
        } else if name@ == "cursor-record"@ {
            r == Ok::<CursorCommand, String>(CursorCommand::Record(false))
        } else if name@ == "cursor-record-fixture"@ {
            r == Ok::<CursorCommand, String>(CursorCommand::Record(true))
        } else {
            r matches Err(message) && message@ == "unknown native cursor command"@
        },
{
    if same(name, "cursor-fixture") {
        Ok(CursorCommand::Fixture)
    } else if same(name, "cursor-probe") {
        Ok(CursorCommand::Probe)
    } else if same(name, "cursor-record") {
        Ok(CursorCommand::Record(false))
    } else if same(name, "cursor-record-fixture") {
        Ok(CursorCommand::Record(true))
    } else {
        Err("unknown native cursor command".to_owned())
    }
}

/// The render nodes are those files whose names say so, in their order.
pub proof fn lemma_render_nodes(first: Seq<Seq<char>>, second: Seq<Seq<char>>)
    ensures
        render_nodes(first + second) == render_nodes(first) + render_nodes(second),
        first.len() == 1 && crate::text::without_prefix(first[0], "renderD"@) is Some
            ==> render_nodes(first) == seq!["/dev/dri/"@ + first[0]],
        first.len() == 1 && crate::text::without_prefix(first[0], "renderD"@) is None
            ==> render_nodes(first).len() == 0,
    decreases second.len(),
{
    reveal_with_fuel(render_nodes, 2);
    if second.len() == 0 {
        assert(first + second =~= first);
        assert(render_nodes(first) + render_nodes(second) =~= render_nodes(first));
    } else {
        assert((first + second).drop_last() =~= first + second.drop_last());
        lemma_render_nodes(first, second.drop_last());
        assert(render_nodes(first + second) =~= render_nodes(first) + render_nodes(second));
    }
    if first.len() == 1 {
        assert(first.drop_last() =~= Seq::empty());
        if crate::text::without_prefix(first[0], "renderD"@) is Some {
            assert(render_nodes(first) =~= seq!["/dev/dri/"@ + first[0]]);
        }
    }
}

/// A node is used only where it is the only one.
pub proof fn lemma_render_node(names: &Vec<String>, node: Result<String, String>)
    requires
        call_ensures(render_node, (names,), node),
    ensures
        node is Ok <==> render_nodes(crate::text::views(names@)).len() == 1,
        node matches Ok(node) ==> render_nodes(crate::text::views(names@)) == seq![node@],
{
    if let Ok(node) = node {
        assert(render_nodes(crate::text::views(names@)) =~= seq![node@]);
    }
}

/// The first output of a name from a place on.
proof fn lemma_output_from(outputs: Seq<CaptureOutput>, name: Seq<char>, at: int)
    requires
        0 <= at <= outputs.len(),
    ensures
        at <= output_from(outputs, name, at) <= outputs.len(),
        output_from(outputs, name, at) < outputs.len() ==> outputs[output_from(
            outputs,
            name,
            at,
        )].name@ == name,
        forall|i: int|
            at <= i < output_from(outputs, name, at) ==> (#[trigger] outputs[i]).name@ != name,
    decreases outputs.len() - at,
{
    if at < outputs.len() {
        lemma_output_from(outputs, name, at + 1);
    }
}

/// An output is captured only where it is the only one of its name, lies as it did, is not turned, is
/// even on both sides and its pointer can be told apart.
pub proof fn lemma_selected_output(
    outputs: &Vec<CaptureOutput>,
    name: &str,
    expected: Option<&CaptureOutput>,
    capture: bool,
    selected: Result<usize, String>,
)
    requires
        call_ensures(select_output, (outputs, name, expected, capture), selected),
    ensures
        selected matches Ok(place) ==> {
            &&& place < outputs@.len()
            &&& outputs@[place as int].name@ == name@
            &&& forall|i: int|
                0 <= i < outputs@.len() && i != place ==> (#[trigger] outputs@[i]).name@ != name@
            &&& outputs@[place as int].transform == 0
            &&& outputs@[place as int].mode_size.0 % 2 == 0
            &&& outputs@[place as int].mode_size.1 % 2 == 0
            &&& expected matches Some(expected) ==> unchanged(*expected, outputs@[place as int])
            &&& capture
        },
        forall|i: int|
            0 <= i < outputs@.len() && (#[trigger] outputs@[i]).name@ == name@ && (forall|k: int|
                0 <= k < outputs@.len() && k != i ==> (#[trigger] outputs@[k]).name@ != name@)
                && outputs@[i].transform == 0 && outputs@[i].mode_size.0 % 2 == 0
                && outputs@[i].mode_size.1 % 2 == 0 && expected is None && capture ==> selected
                == Ok::<usize, String>(i as usize),
{
    let place = output_from(outputs@, name@, 0);
    lemma_output_from(outputs@, name@, 0);
    if place < outputs@.len() {
        lemma_output_from(outputs@, name@, place + 1);
        let second = output_from(outputs@, name@, place + 1);
        if second < outputs@.len() {
            assert(outputs@[second].name@ == name@);
        }
    }
}

/// An output is unchanged where its place, its size, its description and its turn are.
pub proof fn lemma_unchanged(a: CaptureOutput, b: CaptureOutput)
    ensures
        unchanged(a, b) == unchanged(b, a),
        unchanged(a, b) <==> a.logical.0 == b.logical.0 && a.logical.1 == b.logical.1 && a.logical.2
            == b.logical.2 && a.logical.3 == b.logical.3 && a.mode_size.0 == b.mode_size.0
            && a.mode_size.1 == b.mode_size.1 && a.description@ == b.description@ && a.transform
            == b.transform,
{
}

/// A frame was shown as long ago, or is shown as far ahead, as its time is from the clock's.
pub proof fn lemma_presented(stamp: Option<u64>, clock: u64, shown: Result<Shown, String>)
    requires
        clock <= u64::MAX - 1_000_000_000,
        call_ensures(presented, (stamp, clock), shown),
    ensures
        shown is Ok <==> stamp is Some && stamp->Some_0 <= clock + 1_000_000_000,
        shown matches Ok(Shown::Ago(nanos)) ==> stamp->Some_0 + nanos == clock,
        shown matches Ok(Shown::Ahead(nanos)) ==> stamp->Some_0 == clock + nanos && nanos > 0,
{
}

/// A probe is of the output and the codec, and a recording of the output, the rate, the codec, the
/// sound and the file, in that order.
pub proof fn lemma_asked(words: Seq<Seq<char>>)
    ensures
        probe_asked(words) is Ok <==> words.len() == 2 && words[1] == "libx264"@,
        probe_asked(words) matches Ok(asked) ==> asked.0 == words[0] && asked.1 == words[1],
        record_asked(words) is Ok <==> words.len() == 5 && crate::text::integer(
            words[1],
            0,
            u32::MAX as int,
        ) == Ok::<int, crate::text::IntError>(60) && words[2] == "libx264"@,
        record_asked(words) matches Ok(asked) ==> asked.output == words[0] && asked.fps == 60
            && asked.codec == words[2] && asked.audio == words[3] && asked.destination == words[4],
{
}

/// What a probe answers: that it can, and of what.
pub proof fn lemma_probe_said(output: Seq<char>, codec: Seq<char>)
    ensures
        probe_said(output, codec).field("ok"@) == Some(DocumentView::Bool(true)),
        probe_said(output, codec).field("cursor_smoothing"@) == Some(DocumentView::Bool(true)),
        probe_said(output, codec).field("output"@) == Some(DocumentView::Text(output)),
        probe_said(output, codec).field("codec"@) == Some(DocumentView::Text(codec)),
{
    reveal_strlit("ok");
    reveal_strlit("cursor_smoothing");
    reveal_strlit("output");
    reveal_strlit("codec");
    assert("ok"@.len() == 2);
    assert("cursor_smoothing"@.len() == 16);
    assert("output"@.len() == 6);
    assert("codec"@.len() == 5);
}

/// What the muxer is told: the picture comes in and goes out as it is; sound is taken where there is
/// a source of it, and mapped exactly where it is taken.
pub proof fn lemma_mux_told(audio: &str, fixture: Option<&str>, words: Vec<String>)
    requires
        call_ensures(mux_args, (audio, fixture), words),
    ensures
        ({
            let told = crate::text::views(words@);
            let heard = audio@ != "-"@ || fixture is Some;
            &&& crate::text::stands_behind(told, "-i"@, "pipe:0"@)
            &&& crate::text::stands_behind(told, "-map"@, "0:v:0"@)
            &&& crate::text::stands_behind(told, "-c:v"@, "copy"@)
            &&& crate::text::stands_behind(told, "-f"@, "mp4"@)
            &&& crate::text::stands_behind(told, "-movflags"@, "frag_keyframe+delay_moov"@)
            &&& told.last() == "pipe:1"@
            &&& heard ==> crate::text::stands_behind(told, "-map"@, "1:a:0"@)
                && crate::text::stands_behind(told, "-c:a"@, "aac"@) && crate::text::stands_behind(
                told,
                "-b:a"@,
                "128k"@,
            )
            &&& fixture matches Some(source) ==> crate::text::stands_behind(told, "-i"@, source@)
                && crate::text::stands_behind(told, "-f"@, "lavfi"@)
            &&& fixture is None && audio@ != "-"@ ==> crate::text::stands_behind(
                told,
                "-i"@,
                audio@,
            ) && crate::text::stands_behind(told, "-f"@, "pulse"@)
            &&& told.len() == 18 + (if heard {
                7int
            } else {
                0
            }) + (if fixture is Some {
                7int
            } else if heard {
                6int
            } else {
                0
            })
        }),
{
    let source = match fixture {
        Some(source) => Some(source@),
        None => None,
    };
    let told = mux_words(audio@, source);
    let s = sound_words(audio@, source).len() as int;
    let m: int = if audio@ != "-"@ || fixture is Some {
        7
    } else {
        0
    };
    assert(told[7] == "-i"@ && told[8] == "pipe:0"@);
    assert(told[9 + s] == "-map"@ && told[10 + s] == "0:v:0"@);
    assert(told[11 + s] == "-c:v"@ && told[12 + s] == "copy"@);
    if m > 0 {
        assert(told[13 + s] == "-map"@ && told[14 + s] == "1:a:0"@);
        assert(told[15 + s] == "-c:a"@ && told[16 + s] == "aac"@);
        assert(told[17 + s] == "-b:a"@ && told[18 + s] == "128k"@);
    }
    assert(told[13 + s + m] == "-f"@ && told[14 + s + m] == "mp4"@);
    assert(told[15 + s + m] == "-movflags"@ && told[16 + s + m] == "frag_keyframe+delay_moov"@);
    if let Some(source) = source {
        assert(told[12] == "-f"@ && told[13] == "lavfi"@);
        assert(told[14] == "-i"@ && told[15] == source);
    } else if audio@ != "-"@ {
        assert(told[11] == "-f"@ && told[12] == "pulse"@);
        assert(told[13] == "-i"@ && told[14] == audio@);
    }
}

/// The first frame is the last one that is due when the recording begins.
pub proof fn lemma_first_frame(epoch_nanos: u128, fps: u32, first: Result<i64, String>)
    requires
        epoch_nanos * fps <= u128::MAX,
        call_ensures(first_frame, (epoch_nanos, fps), first),
    ensures
        first matches Ok(frame) ==> frame >= 0 && frame * 1_000_000_000 <= epoch_nanos * fps
            < frame * 1_000_000_000 + 1_000_000_000,
{
    assert(epoch_nanos as int * fps as int >= 0) by (nonlinear_arith);
}

/// A frame of a producer is found, is not there yet, or never comes; each producer is told by name.
pub proof fn lemma_looked<T>(producer: Producer, look: Looked<T>, r: Result<Option<T>, String>)
    requires
        call_ensures(looked::<T>, (producer, look), r),
    ensures
        look matches Looked::Found(Ok(item)) ==> r == Ok::<Option<T>, String>(Some(item)),
        look is Empty ==> r == Ok::<Option<T>, String>(None),
        look is Gone ==> r is Err,
        look matches Looked::Found(Err(error)) ==> r == Err::<Option<T>, String>(error),
        look is Gone && producer is Cursor ==> r->Err_0@ == "cursor producer stopped"@,
        look is Gone && producer is Video ==> r->Err_0@ == "video producer stopped"@,
{
}

/// What is handed over is done where it is taken, failed where nobody takes it, and tried again while
/// there is no room, until it is given up.
pub proof fn lemma_handed(
    result: Handed,
    cancelled: bool,
    r: Option<Result<(), String>>,
    ack: Ack,
    step: AckStep,
)
    requires
        call_ensures(handed, (result, cancelled), r),
        call_ensures(acknowledged, (ack, cancelled), step),
    ensures
        r is None <==> result is Full && !cancelled,
        r is Some && r->Some_0 is Ok <==> result is Taken,
        step == AckStep::Next <==> ack is Done,
        step == AckStep::Stop <==> ack is Late && cancelled,
{
}

/// An encoder keeps up while its muxer runs and it is not two seconds behind.
pub proof fn lemma_keeps_up(mux_exit: Option<&str>, elapsed: u64, time: u64, r: Result<(), String>)
    requires
        time <= u64::MAX - 2_000_000_000,
        call_ensures(keeps_up, (mux_exit, elapsed, time), r),
    ensures
        r is Ok <==> mux_exit is None && elapsed <= time + 2_000_000_000,
{
}

/// A recording is finished where its muxer succeeds, failed where it fails or takes too long.
pub proof fn lemma_finalized(
    exit: Option<(bool, &str)>,
    expired: bool,
    r: Option<Result<(), String>>,
)
    requires
        call_ensures(finalized, (exit, expired), r),
    ensures
        r is None <==> exit is None && !expired,
        r is Some && r->Some_0 is Ok <==> exit is Some && exit->Some_0.0,
        exit is Some && !exit->Some_0.0 ==> r->Some_0->Err_0@ == "recording mux failed: "@
            + exit->Some_0.1@,
{
}

/// Sizes of pictures and pointers, and how many bytes they have.
pub proof fn lemma_sizes(
    width: u32,
    height: u32,
    bytes: usize,
    size: Result<(), String>,
    cursor: Result<(), String>,
    planes: usize,
    buffer: Result<(), String>,
    codec: &str,
    fps: u32,
    set: bool,
    encoder: Result<(), String>,
)
    requires
        call_ensures(check_size, (width, height), size),
        call_ensures(check_cursor, (width, height, bytes), cursor),
        call_ensures(check_planes, (planes,), buffer),
        call_ensures(check_encoder, (codec, fps, set), encoder),
    ensures
        size is Ok <==> 1 <= width <= 8192 && 1 <= height <= 8192 && width * height <= 16_777_216,
        cursor is Ok <==> 1 <= width <= 1024 && 1 <= height <= 1024 && bytes == 4 * (width * height),
        buffer is Ok <==> 1 <= planes <= 4,
        encoder is Ok <==> 1 <= fps <= 240 && (codec@ == "libx264"@ || codec@ == "h264_vulkan"@)
            && !set,
{
    assert(width * height * 4 == 4 * (width * height));
}

/// The size of a fixture is told as its width and its height, in that order.
pub proof fn lemma_fixture_size(words: &[String], size: Result<(u32, u32), String>)
    requires
        call_ensures(fixture_size, (words,), size),
    ensures
        size is Ok ==> words@.len() == 3 || words@.len() == 5,
        words@.len() == 3 ==> size == Ok::<(u32, u32), String>((320, 180)),
        words@.len() == 5 ==> (size matches Ok(size) ==> crate::text::integer(
            words@[3]@,
            0,
            u32::MAX as int,
        ) == Ok::<int, crate::text::IntError>(size.0 as int) && crate::text::integer(
            words@[4]@,
            0,
            u32::MAX as int,
        ) == Ok::<int, crate::text::IntError>(size.1 as int)),
{
    let all = crate::text::views(words@);
    assert(all.len() == words@.len());
    if all.len() == 5 {
        assert(all[3] == words@[3]@);
        assert(all[4] == words@[4]@);
    }
}

/// A command of the worker is known by its name.
pub proof fn lemma_cursor_command(name: &str, command: Result<CursorCommand, String>)
    requires
        call_ensures(cursor_command, (name,), command),
    ensures
        command matches Ok(CursorCommand::Fixture) <==> name@ == "cursor-fixture"@,
        command matches Ok(CursorCommand::Probe) <==> name@ == "cursor-probe"@,
        command matches Ok(CursorCommand::Record(fixture)) ==> (fixture <==> name@
            == "cursor-record-fixture"@) && (!fixture <==> name@ == "cursor-record"@),
        name@ == "cursor-record"@ || name@ == "cursor-record-fixture"@ ==> (command matches Ok(
            CursorCommand::Record(_),
        )),
{
    reveal_strlit("cursor-fixture");
    reveal_strlit("cursor-probe");
    reveal_strlit("cursor-record");
    reveal_strlit("cursor-record-fixture");
    assert("cursor-fixture"@.len() == 14);
    assert("cursor-probe"@.len() == 12);
    assert("cursor-record"@.len() == 13);
    assert("cursor-record-fixture"@.len() == 21);
}

/// A frame is taken as it lies, not turned and not upside down, and of the size that was told; what is
/// noted has to be taken; the first frame has to come.
pub proof fn lemma_frames_checked<T>(
    transform: u32,
    y_inverted: bool,
    size: (u32, u32),
    expected: (u32, u32),
    frame: Result<(), String>,
    taken: bool,
    note: Result<(), String>,
    codec: &str,
    encoder: Result<(), String>,
    received: Result<Result<T, String>, String>,
    first: Result<T, String>,
)
    requires
        call_ensures(check_frame, (transform, y_inverted, size, expected), frame),
        call_ensures(noted, (taken,), note),
        call_ensures(check_codec, (codec,), encoder),
        call_ensures(initial_frame::<T>, (received,), first),
    ensures
        frame is Ok <==> transform == 0 && !y_inverted && size.0 == expected.0 && size.1
            == expected.1,
        note is Ok <==> taken,
        encoder is Ok <==> codec@ == "libx264"@,
        first is Ok <==> received is Ok && received->Ok_0 is Ok,
        first matches Ok(shown) ==> received->Ok_0->Ok_0 == shown,
        received matches Ok(Err(error)) ==> first == Err::<T, String>(error),
        received matches Err(error) ==> first->Err_0@ == "initial video frame: "@ + error@,
{
}

/// A background has four bytes for each pixel.
pub proof fn lemma_background(width: u32, height: u32, bytes: usize, r: Result<(), String>)
    requires
        drawable(width as int, height as int),
        call_ensures(check_background, (width, height, bytes), r),
    ensures
        r is Ok <==> bytes == 4 * (width * height),
{
    assert(width * height * 4 == 4 * (width * height));
}

} // verus!
