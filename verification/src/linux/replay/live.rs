//! The worker that keeps the last seconds of an output and answers requests for them.
use vstd::prelude::*;
use vstd::string::StringExecFns;

use crate::document::{Document, DocumentView};
use crate::paths::join;
use crate::text::{decimal_string, joined, same};

verus! {

/// After how many nanoseconds without a frame the input counts as stalled.
pub const STALLED_AFTER: u64 = 3_000_000_000;

/// After how many nanoseconds a selection is given up.
pub const SELECTION_EXPIRES: u64 = 120_000_000_000;

/// A recording that is held for a selection.
pub struct Frozen<R> {
    pub id: u64,
    pub recording: R,
    /// When it was frozen, in nanoseconds.
    pub created: u64,
}

/// What the worker remembers between requests.
pub struct Live<R> {
    pub frozen: Option<Frozen<R>>,
    /// The last number that was given to a selection or a clip.
    pub next_id: u64,
    /// A preview or a clip is being made.
    pub busy: bool,
    /// Why the input ended.
    pub error: Option<String>,
    /// When the last frame came, in nanoseconds.
    pub updated: u64,
}

/// What is to be done about a request.
pub enum Decision {
    Answer(Result<Document, String>),
    /// A selection is to be frozen.
    Freeze,
    /// A clip is to be saved.
    Save,
    /// The worker is to answer with nothing and end.
    Stop,
}

/// What a [`Decision`] says.
pub enum DecisionView {
    Answer(Result<DocumentView, Seq<char>>),
    Freeze,
    Save,
    Stop,
}

impl Decision {
    /// What the decision says.
    pub open spec fn view(&self) -> DecisionView {
        match self {
            Decision::Answer(answer) => DecisionView::Answer(
                match answer {
                    Ok(answer) => Ok(answer@),
                    Err(message) => Err(message@),
                },
            ),
            Decision::Freeze => DecisionView::Freeze,
            Decision::Save => DecisionView::Save,
            Decision::Stop => DecisionView::Stop,
        }
    }
}

/// Where the recording of a clip comes from.
pub enum SaveSource<R> {
    /// The selection that the request names.
    Frozen(R),
    /// A new snapshot of what is held.
    Live,
    Refused(String),
}

/// What a selection shows.
#[derive(Clone, Copy, Debug, PartialEq, Eq, Structural)]
pub struct Span {
    pub width: u32,
    pub height: u32,
    /// The first and the last moment, in microseconds.
    pub start: i64,
    pub end: i64,
}

/// How long it is since `then`.
pub open spec fn elapsed(now: u64, then: u64) -> int {
    if now >= then {
        now - then
    } else {
        0
    }
}

/// How long it is since `then`.
fn since(now: u64, then: u64) -> (r: u64)
    ensures
        r == elapsed(now, then),
{
    if now >= then {
        now - then
    } else {
        0
    }
}

/// How long a recording is.
pub open spec fn length(bounds: Option<(i64, i64)>) -> int {
    match bounds {
        Some((start, end)) => end - start,
        None => 0,
    }
}

/// The name of a clip.
pub open spec fn clip_name(pid: nat, stamp: nat, id: nat) -> Seq<char> {
    "clip-"@ + crate::text::decimal(pid) + "-"@ + crate::text::decimal(stamp) + "-"@
        + crate::text::decimal(id) + ".mkv"@
}

impl<R> Live<R> {
    /// No selection has a number that was not given out yet.
    pub open spec fn well_formed(&self) -> bool {
        self.frozen matches Some(frozen) ==> frozen.id <= self.next_id
    }

    /// The selection `id` is held.
    pub open spec fn holds(&self, id: int) -> bool {
        self.frozen matches Some(frozen) && frozen.id == id
    }

    /// Why what is held cannot be used.
    pub open spec fn unusable(&self, now: u64, warmed: bool) -> Option<Seq<char>> {
        if self.error is Some {
            Some(self.error->Some_0@)
        } else if elapsed(now, self.updated) > STALLED_AFTER {
            Some("replay input is stalled"@)
        } else if !warmed {
            Some("replay is warming up"@)
        } else {
            None
        }
    }

    /// What the worker says of itself.
    pub open spec fn status(
        &self,
        now: u64,
        bounds: Option<(i64, i64)>,
        encoder: Seq<char>,
        seconds: u64,
    ) -> DocumentView {
        DocumentView::Object(
            Map::empty().insert(
                "ready"@,
                DocumentView::Bool(
                    self.error is None && bounds is Some && elapsed(now, self.updated)
                        < STALLED_AFTER,
                ),
            ).insert("duration_us"@, DocumentView::Number(length(bounds))).insert(
                "busy"@,
                DocumentView::Bool(self.busy),
            ).insert(
                "error"@,
                DocumentView::text_or_null(crate::text::view_of(self.error)),
            ).insert("encoder"@, DocumentView::Text(encoder)).insert(
                "seconds"@,
                DocumentView::Number(seconds as int),
            ),
        )
    }

    /// What is to be done about a request.
    pub open spec fn decision(
        &self,
        command: Seq<char>,
        now: u64,
        bounds: Option<(i64, i64)>,
        encoder: Seq<char>,
        seconds: u64,
    ) -> DecisionView {
        if command == "status"@ {
            DecisionView::Answer(Ok(self.status(now, bounds, encoder, seconds)))
        } else if command == "freeze"@ && !self.busy && self.frozen is None {
            DecisionView::Freeze
        } else if command == "cancel"@ {
            DecisionView::Answer(Ok(DocumentView::Object(Map::empty())))
        } else if command == "save"@ && !self.busy {
            DecisionView::Save
        } else if command == "stop"@ {
            DecisionView::Stop
        } else if command == "freeze"@ || command == "save"@ {
            DecisionView::Answer(Err("another replay selection or export is active"@))
        } else {
            DecisionView::Answer(Err("unknown replay command"@))
        }
    }

    /// The worker without the selection `id`.
    pub open spec fn without(self, id: int) -> Live<R> {
        Live {
            frozen: if self.holds(id) {
                None
            } else {
                self.frozen
            },
            ..self
        }
    }

    /// Why a requested clip is refused.
    pub open spec fn save_refusal(&self, request: DocumentView, now: u64, warmed: bool) -> Option<
        Seq<char>,
    > {
        match request.u64_at("snapshot"@) {
            Some(id) => if self.holds(id as int) {
                None
            } else {
                Some("replay selection expired; open the selector again"@)
            },
            None => if self.frozen is Some {
                Some("a replay selection is already open"@)
            } else {
                self.unusable(now, warmed)
            },
        }
    }

    /// Nothing but the selection may differ.
    pub open spec fn same_but_selection(&self, other: &Live<R>) -> bool {
        &&& self.next_id == other.next_id
        &&& self.busy == other.busy
        &&& self.error == other.error
        &&& self.updated == other.updated
    }

    /// A worker that has seen nothing yet.
    pub fn new(now: u64) -> (r: Self)
        ensures
            r.frozen is None,
            r.next_id == 0,
            !r.busy,
            r.error is None,
            r.updated == now,
            r.well_formed(),
    {
        Live { frozen: None, next_id: 0, busy: false, error: None, updated: now }
    }

    /// Whether a packet is of one of the streams of the input.
    pub fn known_stream(index: usize, streams: usize) -> (r: Result<(), String>)
        ensures
            if index < streams {
                r is Ok
            } else {
                r matches Err(message) && message@ == "unknown input stream"@
            },
    {
        if index < streams {
            Ok(())
        } else {
            Err("unknown input stream".to_owned())
        }
    }

    /// Takes note of a packet of the input.
    pub fn received(&mut self, video: bool, now: u64)
        ensures
            final(self).updated == (if video {
                now
            } else {
                old(self).updated
            }),
            final(self).frozen == old(self).frozen,
            final(self).next_id == old(self).next_id,
            final(self).busy == old(self).busy,
            final(self).error == old(self).error,
            !video ==> *final(self) == *old(self),
    {
        if video {
            self.updated = now;
        }
    }

    /// Takes note of the end of the input.
    pub fn ended(&mut self, error: String)
        ensures
            final(self).error == Some(error),
            final(self).frozen == old(self).frozen,
            final(self).next_id == old(self).next_id,
            final(self).busy == old(self).busy,
            final(self).updated == old(self).updated,
    {
        self.error = Some(error);
    }

    /// Gives up a selection that was held too long.
    pub fn expire(&mut self, now: u64)
        ensures
            final(self).frozen == (match old(self).frozen {
                Some(frozen) if elapsed(now, frozen.created) > SELECTION_EXPIRES => None,
                frozen => frozen,
            }),
            final(self).same_but_selection(old(self)),
            final(self).frozen is Some ==> final(self).frozen == old(self).frozen,
            old(self).frozen matches Some(frozen) ==> (final(self).frozen is Some <==> now <= frozen.created
                + 120_000_000_000),
    {
        let expired = match &self.frozen {
            Some(frozen) => since(now, frozen.created) > SELECTION_EXPIRES,
            None => false,
        };
        if expired {
            self.frozen = None;
        }
    }

    /// What is to be done about a request. A cancelled selection is given up here.
    pub fn decide(
        &mut self,
        command: &str,
        request: &Document,
        now: u64,
        bounds: Option<(i64, i64)>,
        encoder: &str,
        seconds: u64,
    ) -> (r: Decision)
        requires
            i64::MIN <= length(bounds) <= i64::MAX,
        ensures
            r@ == old(self).decision(command@, now, bounds, encoder@, seconds),
            *final(self) == (match request@.u64_at("snapshot"@) {
                Some(id) if command@ == "cancel"@ => old(self).without(id as int),
                _ => *old(self),
            }),
    {
        proof {
            reveal_strlit("status");
            reveal_strlit("freeze");
            reveal_strlit("cancel");
            reveal_strlit("save");
            reveal_strlit("stop");
            assert("status"@[2] == 'a');
            assert("freeze"@[2] == 'e');
            assert("cancel"@[2] == 'n');
            assert("save"@.len() == 4);
            assert("save"@[0] == 's' && "save"@[1] == 'a');
            assert("stop"@.len() == 4);
            assert("stop"@[1] == 't');
        }
        if same(command, "status") {
            let ready = self.error.is_none() && bounds.is_some() && since(now, self.updated)
                < STALLED_AFTER;
            let duration: i64 = match bounds {
                Some((start, end)) => end - start,
                None => 0,
            };
            let error = Document::text_or_null(&self.error);
            let answer = Document::object().with("ready", Document::Bool(ready)).with(
                "duration_us",
                Document::Signed(duration),
            ).with("busy", Document::Bool(self.busy)).with("error", error).with(
                "encoder",
                Document::text(encoder),
            ).with("seconds", Document::Unsigned(seconds));
            return Decision::Answer(Ok(answer));
        }
        if same(command, "freeze") && !self.busy && self.frozen.is_none() {
            return Decision::Freeze;
        }
        if same(command, "cancel") {
            let named = match (&self.frozen, request.u64_at("snapshot")) {
                (Some(frozen), Some(id)) => frozen.id == id,
                _ => false,
            };
            if named {
                self.frozen = None;
            }
            return Decision::Answer(Ok(Document::object()));
        }
        if same(command, "save") && !self.busy {
            return Decision::Save;
        }
        if same(command, "stop") {
            return Decision::Stop;
        }
        if same(command, "freeze") || same(command, "save") {
            return Decision::Answer(Err("another replay selection or export is active".to_owned()));
        }
        Decision::Answer(Err("unknown replay command".to_owned()))
    }

    /// Whether what is held can be used; `warmed` says that a recording was begun.
    pub fn usable(&self, now: u64, warmed: bool) -> (r: Result<(), String>)
        ensures
            match self.unusable(now, warmed) {
                Some(message) => r matches Err(error) && error@ == message,
                None => r is Ok,
            },
    {
        match &self.error {
            Some(error) => {
                return Err(error.as_str().to_owned());
            },
            None => {},
        }
        if since(now, self.updated) > STALLED_AFTER {
            return Err("replay input is stalled".to_owned());
        }
        if !warmed {
            return Err("replay is warming up".to_owned());
        }
        Ok(())
    }

    /// Holds a recording for a selection, and gives the selection a new number.
    pub fn freeze(&mut self, prepared: Result<R, String>, now: u64) -> (r: Result<u64, String>)
        requires
            !old(self).busy,
            old(self).frozen is None,
            old(self).next_id < u64::MAX,
        ensures
            match prepared {
                Ok(recording) => {
                    &&& r == Ok::<u64, String>((old(self).next_id + 1) as u64)
                    &&& final(self).frozen == Some(
                        Frozen { id: (old(self).next_id + 1) as u64, recording, created: now },
                    )
                    &&& final(self).next_id == old(self).next_id + 1
                    &&& final(self).busy
                },
                Err(message) => {
                    &&& r == Err::<u64, String>(message)
                    &&& final(self).frozen is None
                    &&& final(self).next_id == old(self).next_id
                    &&& !final(self).busy
                },
            },
            final(self).error == old(self).error,
            final(self).updated == old(self).updated,
            final(self).well_formed(),
            r is Ok <==> prepared is Ok,
            r matches Ok(id) ==> final(self).holds(id as int) && id > old(self).next_id,
            final(self).busy <==> r is Ok,
    {
        match prepared {
            Ok(recording) => {
                self.next_id = self.next_id + 1;
                let id: u64 = self.next_id;
                self.frozen = Some(Frozen { id, recording, created: now });
                self.busy = true;
                Ok(id)
            },
            Err(message) => Err(message),
        }
    }

    /// What is answered once the preview of a selection was made: `preview` is its length. A
    /// selection without a preview is given up.
    pub fn previewed(&mut self, id: u64, preview: Result<u64, String>, span: Span) -> (r: Result<
        Document,
        String,
    >)
        requires
            i64::MIN <= span.end - span.start <= i64::MAX,
        ensures
            !final(self).busy,
            final(self).next_id == old(self).next_id,
            final(self).error == old(self).error,
            final(self).updated == old(self).updated,
            final(self).frozen == (if old(self).holds(id as int) && preview is Err {
                None
            } else {
                old(self).frozen
            }),
            if !old(self).holds(id as int) {
                r matches Err(message) && message@ == "replay selection cancelled"@
            } else {
                match preview {
                    Ok(bytes) => r matches Ok(answer) && answer@ == preview_answer(id, bytes, span),
                    Err(message) => r == Err::<Document, String>(message),
                }
            },
            r is Ok <==> old(self).holds(id as int) && preview is Ok,
            r is Ok ==> final(self).frozen == old(self).frozen,
    {
        self.busy = false;
        let held = match &self.frozen {
            Some(frozen) => frozen.id == id,
            None => false,
        };
        if !held {
            return Err("replay selection cancelled".to_owned());
        }
        match preview {
            Ok(bytes) => Ok(
                Document::object().with("ok", Document::Bool(true)).with(
                    "snapshot",
                    Document::Unsigned(id),
                ).with("width", Document::Unsigned(span.width as u64)).with(
                    "height",
                    Document::Unsigned(span.height as u64),
                ).with("start_us", Document::Signed(span.start)).with(
                    "end_us",
                    Document::Signed(span.end),
                ).with("duration_us", Document::Signed(span.end - span.start)).with(
                    "preview_bytes",
                    Document::Unsigned(bytes),
                ),
            ),
            Err(message) => {
                self.frozen = None;
                Err(message)
            },
        }
    }

    /// Gives up the selection `id`, whose preview did not reach the one who asked for it.
    pub fn unsent(&mut self, id: u64)
        ensures
            *final(self) == old(self).without(id as int),
    {
        let held = match &self.frozen {
            Some(frozen) => frozen.id == id,
            None => false,
        };
        if held {
            self.frozen = None;
        }
    }

    /// Where the recording of a requested clip comes from. A selection is used up by it.
    pub fn save_source(&mut self, request: &Document, now: u64, warmed: bool) -> (r: SaveSource<R>)
        ensures
            match old(self).save_refusal(request@, now, warmed) {
                Some(text) => {
                    &&& r matches SaveSource::Refused(message) && message@ == text
                    &&& *final(self) == *old(self)
                },
                None => match request@.u64_at("snapshot"@) {
                    Some(id) => {
                        &&& r == SaveSource::Frozen(old(self).frozen->Some_0.recording)
                        &&& *final(self) == old(self).without(id as int)
                    },
                    None => r is Live && *final(self) == *old(self),
                },
            },
            r is Frozen <==> (request@.u64_at("snapshot"@) matches Some(id) && old(self).holds(id as int)),
            r is Frozen ==> final(self).frozen is None,
            r is Live ==> old(self).frozen is None && old(self).unusable(now, warmed) is None,
            !(r is Frozen) ==> *final(self) == *old(self),
    {
        match request.u64_at("snapshot") {
            Some(id) => match self.frozen.take() {
                Some(frozen) => {
                    if frozen.id == id {
                        SaveSource::Frozen(frozen.recording)
                    } else {
                        self.frozen = Some(frozen);
                        SaveSource::Refused(
                            "replay selection expired; open the selector again".to_owned(),
                        )
                    }
                },
                None => SaveSource::Refused(
                    "replay selection expired; open the selector again".to_owned(),
                ),
            },
            None => {
                if self.frozen.is_some() {
                    return SaveSource::Refused("a replay selection is already open".to_owned());
                }
                match self.usable(now, warmed) {
                    Ok(()) => SaveSource::Live,
                    Err(message) => SaveSource::Refused(message),
                }
            },
        }
    }

    /// Begins a clip, and says where it goes. `prepared` says whether its size and its crop are
    /// known.
    pub fn begin_save(
        &mut self,
        prepared: Result<(), String>,
        directory: &str,
        pid: u32,
        stamp: u128,
    ) -> (r: Result<String, String>)
        requires
            !old(self).busy,
            old(self).next_id < u64::MAX,
        ensures
            final(self).frozen == old(self).frozen,
            final(self).error == old(self).error,
            final(self).updated == old(self).updated,
            match prepared {
                Ok(_) => {
                    &&& final(self).busy
                    &&& final(self).next_id == old(self).next_id + 1
                    &&& r matches Ok(path) && path@ == crate::paths::joined(
                        directory@,
                        clip_name(pid as nat, stamp as nat, final(self).next_id as nat),
                    )
                },
                Err(message) => {
                    &&& !final(self).busy
                    &&& final(self).next_id == old(self).next_id
                    &&& r == Err::<String, String>(message)
                },
            },
            r is Ok <==> prepared is Ok,
            final(self).busy <==> r is Ok,
            r matches Ok(path) ==> path@ == crate::paths::joined(
                directory@,
                "clip-"@ + crate::text::decimal(pid as nat) + "-"@ + crate::text::decimal(stamp as nat)
                    + "-"@ + crate::text::decimal(final(self).next_id as nat) + ".mkv"@,
            ),
    {
        match prepared {
            Ok(_) => {
                self.busy = true;
                self.next_id = self.next_id + 1;
                let mut name: String = joined("clip-", decimal_string(pid as u128).as_str());
                name.append("-");
                name.append(decimal_string(stamp).as_str());
                name.append("-");
                name.append(decimal_string(self.next_id as u128).as_str());
                name.append(".mkv");
                proof {
                    assert(name@ =~= clip_name(pid as nat, stamp as nat, self.next_id as nat));
                }
                Ok(join(directory, name.as_str()))
            },
            Err(message) => Err(message),
        }
    }

    /// Takes note that a clip was made, or could not be.
    pub fn end_save(&mut self)
        ensures
            !final(self).busy,
            final(self).frozen == old(self).frozen,
            final(self).next_id == old(self).next_id,
            final(self).error == old(self).error,
            final(self).updated == old(self).updated,
    {
        self.busy = false;
    }
}

/// What is said of a selection whose preview follows.
pub open spec fn preview_answer(id: u64, bytes: u64, span: Span) -> DocumentView {
    DocumentView::Object(
        Map::empty().insert("ok"@, DocumentView::Bool(true)).insert(
            "snapshot"@,
            DocumentView::Number(id as int),
        ).insert("width"@, DocumentView::Number(span.width as int)).insert(
            "height"@,
            DocumentView::Number(span.height as int),
        ).insert("start_us"@, DocumentView::Number(span.start as int)).insert(
            "end_us"@,
            DocumentView::Number(span.end as int),
        ).insert("duration_us"@, DocumentView::Number(span.end - span.start)).insert(
            "preview_bytes"@,
            DocumentView::Number(bytes as int),
        ),
    )
}

/// Bytes as an array of numbers.
pub open spec fn byte_array(bytes: Seq<u8>) -> DocumentView {
    DocumentView::Array(Seq::new(bytes.len(), |i: int| DocumentView::Number(bytes[i] as int)))
}

/// Bytes as an array of numbers.
pub fn bytes_document(bytes: &[u8]) -> (r: Document)
    ensures
        r@ == byte_array(bytes@),
{
    let mut items: Vec<Document> = Vec::new();
    let mut i: usize = 0;
    while i < bytes.len()
        invariant
            i <= bytes.len(),
            items.len() == i,
            forall|j: int|
                0 <= j < i ==> (#[trigger] items@[j])@ == DocumentView::Number(bytes@[j] as int),
        decreases bytes.len() - i,
    {
        items.push(Document::Unsigned(bytes[i] as u64));
        i = i + 1;
    }
    proof {
        crate::document::lemma_item_views(items@);
        assert(crate::document::item_views(items@) =~= Seq::new(
            bytes@.len(),
            |i: int| DocumentView::Number(bytes@[i] as int),
        ));
    }
    Document::Array(items)
}

/// What is answered about a clip of `bytes` bytes that was saved.
pub fn saved_answer(path: &str, bytes: u64, start: i64, end: i64) -> (r: Document)
    requires
        i64::MIN <= end - start <= i64::MAX,
    ensures
        r is Object,
        r@ == DocumentView::Object(
            Map::empty().insert("path"@, DocumentView::Text(path@)).insert(
                "path_bytes"@,
                byte_array(vstd::utf8::encode_utf8(path@)),
            ).insert("bytes"@, DocumentView::Number(bytes as int)).insert(
                "duration_us"@,
                DocumentView::Number(end - start),
            ),
        ),
{
    Document::object().with("path", Document::text(path)).with(
        "path_bytes",
        bytes_document(path.as_bytes()),
    ).with("bytes", Document::Unsigned(bytes)).with("duration_us", Document::Signed(end - start))
}

/// The answer as it is sent: an object that says whether the request was met.
pub fn answer(result: Result<Document, String>) -> (r: Document)
    requires
        result matches Ok(value) ==> value is Object,
    ensures
        r is Object,
        match result {
            Ok(value) => r@ == DocumentView::Object(
                value@->Object_0.insert("ok"@, DocumentView::Bool(true)),
            ),
            Err(message) => r@ == DocumentView::Object(
                Map::empty().insert("ok"@, DocumentView::Bool(false)).insert(
                    "error"@,
                    DocumentView::Text(message@),
                ),
            ),
        },
{
    match result {
        Ok(value) => value.with("ok", Document::Bool(true)),
        Err(message) => Document::object().with("ok", Document::Bool(false)).with(
            "error",
            Document::Text(message),
        ),
    }
}

/// While a preview or a clip is being made, no other is begun.
pub proof fn lemma_one_job<R>(
    live: Live<R>,
    command: Seq<char>,
    now: u64,
    bounds: Option<(i64, i64)>,
    encoder: Seq<char>,
    seconds: u64,
)
    requires
        live.busy,
    ensures
        live.decision(command, now, bounds, encoder, seconds) !is Freeze,
        live.decision(command, now, bounds, encoder, seconds) !is Save,
        command == "freeze"@ || command == "save"@ ==> live.decision(
            command,
            now,
            bounds,
            encoder,
            seconds,
        ) == DecisionView::Answer(Err("another replay selection or export is active"@)),
{
    reveal_strlit("status");
    reveal_strlit("freeze");
    reveal_strlit("cancel");
    reveal_strlit("save");
    reveal_strlit("stop");
    assert("status"@[2] == 'a');
    assert("freeze"@[2] == 'e');
    assert("cancel"@[2] == 'n');
    assert("save"@[0] == 's' && "save"@[1] == 'a');
    assert("stop"@[1] == 't');
}

/// While a selection is held, no other is frozen.
pub proof fn lemma_one_selection<R>(
    live: Live<R>,
    command: Seq<char>,
    now: u64,
    bounds: Option<(i64, i64)>,
    encoder: Seq<char>,
    seconds: u64,
)
    requires
        live.frozen is Some,
    ensures
        live.decision(command, now, bounds, encoder, seconds) !is Freeze,
{
}

/// A worker that says it is ready lets a clip be saved of what it holds.
pub proof fn lemma_ready_is_usable<R>(
    live: Live<R>,
    now: u64,
    bounds: Option<(i64, i64)>,
    encoder: Seq<char>,
    seconds: u64,
)
    requires
        live.status(now, bounds, encoder, seconds).bool_at("ready"@) == Some(true),
    ensures
        live.unusable(now, true) is None,
{
    reveal_strlit("ready");
    reveal_strlit("duration_us");
    reveal_strlit("busy");
    reveal_strlit("error");
    reveal_strlit("encoder");
    reveal_strlit("seconds");
    assert("ready"@.len() == 5);
    assert("duration_us"@.len() == 11);
    assert("busy"@.len() == 4);
    assert("error"@.len() == 5);
    assert("ready"@[0] == 'r');
    assert("error"@[0] == 'e');
    assert("encoder"@.len() == 7);
    assert("seconds"@.len() == 7);
}

/// A selection that was cancelled, or that a clip was made of, cannot be saved again.
pub proof fn lemma_selection_is_used_up<R>(
    live: Live<R>,
    id: u64,
    request: DocumentView,
    now: u64,
    warmed: bool,
)
    requires
        request.u64_at("snapshot"@) == Some(id),
    ensures
        live.without(id as int).save_refusal(request, now, warmed) == Some(
            "replay selection expired; open the selector again"@,
        ),
{
}

/// The state of replay is told field by field: it is ready where it has something, nothing failed
/// and the last picture is not older than three seconds.
pub proof fn lemma_status<R>(
    live: Live<R>,
    now: u64,
    bounds: Option<(i64, i64)>,
    encoder: Seq<char>,
    seconds: u64,
)
    ensures
        ({
            let status = live.status(now, bounds, encoder, seconds);
            &&& status.field("ready"@) == Some(
                DocumentView::Bool(
                    live.error is None && bounds is Some && now < live.updated + 3_000_000_000,
                ),
            )
            &&& bounds matches Some((start, end)) ==> status.field("duration_us"@) == Some(
                DocumentView::Number(end - start),
            )
            &&& bounds is None ==> status.field("duration_us"@) == Some(DocumentView::Number(0))
            &&& status.field("busy"@) == Some(DocumentView::Bool(live.busy))
            &&& live.error is None ==> status.field("error"@) == Some(DocumentView::Null)
            &&& live.error matches Some(error) ==> status.field("error"@) == Some(
                DocumentView::Text(error@),
            )
            &&& status.field("encoder"@) == Some(DocumentView::Text(encoder))
            &&& status.field("seconds"@) == Some(DocumentView::Number(seconds as int))
        }),
{
    reveal_strlit("ready");
    reveal_strlit("duration_us");
    reveal_strlit("busy");
    reveal_strlit("error");
    reveal_strlit("encoder");
    reveal_strlit("seconds");
    assert("ready"@.len() == 5);
    assert("duration_us"@.len() == 11);
    assert("busy"@.len() == 4);
    assert("error"@.len() == 5);
    assert("encoder"@.len() == 7);
    assert("seconds"@.len() == 7);
    assert("ready"@[0] != "error"@[0]);
    assert("encoder"@[0] != "seconds"@[0]);
}

/// What is done for a command: a selection or an export is begun only while there is none, and a
/// command that is not known is refused.
pub proof fn lemma_decided<R>(
    live: Live<R>,
    command: Seq<char>,
    now: u64,
    bounds: Option<(i64, i64)>,
    encoder: Seq<char>,
    seconds: u64,
)
    ensures
        ({
            let decision = live.decision(command, now, bounds, encoder, seconds);
            &&& decision is Freeze <==> command == "freeze"@ && !live.busy && live.frozen is None
            &&& decision is Save <==> command == "save"@ && !live.busy
            &&& decision is Stop <==> command == "stop"@
            &&& command == "status"@ ==> decision == DecisionView::Answer(
                Ok(live.status(now, bounds, encoder, seconds)),
            )
            &&& command == "cancel"@ ==> (decision matches DecisionView::Answer(Ok(_)))
            &&& decision matches DecisionView::Answer(Ok(_)) ==> command == "status"@ || command
                == "cancel"@
        }),
{
    reveal_strlit("status");
    reveal_strlit("freeze");
    reveal_strlit("cancel");
    reveal_strlit("save");
    reveal_strlit("stop");
    assert("status"@.len() == 6);
    assert("freeze"@.len() == 6);
    assert("cancel"@.len() == 6);
    assert("save"@.len() == 4);
    assert("stop"@.len() == 4);
    assert("status"@[0] != "freeze"@[0]);
    assert("status"@[0] != "cancel"@[0]);
    assert("freeze"@[0] != "cancel"@[0]);
    assert("save"@[1] != "stop"@[1]);
}

/// What is recorded can be used where nothing failed, the last picture is not older than three
/// seconds and there is enough; the first that is wrong is told.
pub proof fn lemma_usable<R>(live: Live<R>, now: u64, warmed: bool)
    ensures
        live.unusable(now, warmed) is None <==> live.error is None && now <= live.updated
            + 3_000_000_000 && warmed,
        live.error matches Some(error) ==> live.unusable(now, warmed) == Some(error@),
        live.error is None && now > live.updated + 3_000_000_000 ==> live.unusable(now, warmed)
            == Some("replay input is stalled"@),
        live.error is None && now <= live.updated + 3_000_000_000 && !warmed ==> live.unusable(
            now,
            warmed,
        ) == Some("replay is warming up"@),
{
}

/// What is saved is the selection that is asked for, while it is there; without one asked for, what
/// is recorded, while no selection is open.
pub proof fn lemma_save_refused<R>(live: Live<R>, request: DocumentView, now: u64, warmed: bool)
    ensures
        request.u64_at("snapshot"@) matches Some(id) ==> (live.save_refusal(request, now, warmed)
            is None <==> live.frozen is Some && live.frozen->Some_0.id == id),
        request.u64_at("snapshot"@) is None ==> (live.save_refusal(request, now, warmed) is None
            <==> live.frozen is None && live.unusable(now, warmed) is None),
{
}

/// A selection that is given up is gone, and another one stays.
pub proof fn lemma_without<R>(live: Live<R>, id: int)
    ensures
        !live.without(id).holds(id),
        !live.holds(id) ==> live.without(id) == live,
        live.without(id).same_but_selection(&live),
{
}

/// A preview is answered with its selection, its size, its span and how long it is in bytes, each in
/// the field of its name.
pub proof fn lemma_preview_answer(id: u64, bytes: u64, span: Span)
    ensures
        ({
            let answer = preview_answer(id, bytes, span);
            &&& answer.field("ok"@) == Some(DocumentView::Bool(true))
            &&& answer.field("snapshot"@) == Some(DocumentView::Number(id as int))
            &&& answer.field("width"@) == Some(DocumentView::Number(span.width as int))
            &&& answer.field("height"@) == Some(DocumentView::Number(span.height as int))
            &&& answer.field("start_us"@) == Some(DocumentView::Number(span.start as int))
            &&& answer.field("end_us"@) == Some(DocumentView::Number(span.end as int))
            &&& answer.field("duration_us"@) == Some(DocumentView::Number(span.end - span.start))
            &&& answer.field("preview_bytes"@) == Some(DocumentView::Number(bytes as int))
        }),
{
    reveal_strlit("ok");
    reveal_strlit("snapshot");
    reveal_strlit("width");
    reveal_strlit("height");
    reveal_strlit("start_us");
    reveal_strlit("end_us");
    reveal_strlit("duration_us");
    reveal_strlit("preview_bytes");
    assert("ok"@.len() == 2);
    assert("snapshot"@.len() == 8);
    assert("width"@.len() == 5);
    assert("height"@.len() == 6);
    assert("start_us"@.len() == 8);
    assert("end_us"@.len() == 6);
    assert("duration_us"@.len() == 11);
    assert("preview_bytes"@.len() == 13);
    assert("snapshot"@[1] != "start_us"@[1]);
    assert("height"@[0] != "end_us"@[0]);
}

/// A clip that is saved is answered with its path, how long it is in bytes and how long it lasts; and
/// every answer says whether it is one.
pub proof fn lemma_saved_answer(
    path: &str,
    bytes: u64,
    start: i64,
    end: i64,
    saved: Document,
    told: Document,
    error: String,
    refused: Document,
)
    requires
        i64::MIN <= end - start <= i64::MAX,
        call_ensures(saved_answer, (path, bytes, start, end), saved),
        call_ensures(answer, (Ok(saved),), told),
        call_ensures(answer, (Err(error),), refused),
    ensures
        told@.field("ok"@) == Some(DocumentView::Bool(true)),
        told@.field("path"@) == Some(DocumentView::Text(path@)),
        told@.field("bytes"@) == Some(DocumentView::Number(bytes as int)),
        told@.field("duration_us"@) == Some(DocumentView::Number(end - start)),
        told@.field("path_bytes"@) == Some(byte_array(vstd::utf8::encode_utf8(path@))),
        refused@.field("ok"@) == Some(DocumentView::Bool(false)),
        refused@.field("error"@) == Some(DocumentView::Text(error@)),
{
    reveal_strlit("ok");
    reveal_strlit("path");
    reveal_strlit("path_bytes");
    reveal_strlit("bytes");
    reveal_strlit("duration_us");
    reveal_strlit("error");
    assert("ok"@.len() == 2);
    assert("path"@.len() == 4);
    assert("path_bytes"@.len() == 10);
    assert("bytes"@.len() == 5);
    assert("duration_us"@.len() == 11);
    assert("error"@.len() == 5);
    assert("bytes"@[0] != "error"@[0]);
}

} // verus!
