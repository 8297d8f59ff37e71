//! The messages between the boltsnap commands and the daemon.
//!
//! A message is one frame: two big-endian lengths, a JSON header and a payload of raw bytes.
use vstd::prelude::*;
use vstd::slice::slice_subrange;
use vstd::string::StringExecFns;

use crate::document::{Document, DocumentView};
use crate::json::{parse_json, print_json, Parsed};
use crate::text::{debug_text, decimal_string, joined, same};

verus! {

/// The largest header that is read.
pub const MAX_HEADER_BYTES: usize = 65536;

/// The largest payload that is read.
pub const MAX_PAYLOAD_BYTES: usize = 268435456;

/// Why something was not read, written or exchanged.
#[derive(Clone, Copy, Debug, PartialEq, Eq, Structural)]
pub enum ErrorKind {
    UnexpectedEof,
    ConnectionReset,
    InvalidData,
    TimedOut,
    Unsupported,
    PermissionDenied,
    Other,
}

/// Something that could not be read, written or exchanged.
#[derive(Clone, Debug, PartialEq, Eq)]
pub struct WireError {
    pub kind: ErrorKind,
    pub message: String,
}

/// What a [`WireError`] says.
pub struct WireErrorView {
    pub kind: ErrorKind,
    pub message: Seq<char>,
}

impl WireErrorView {
    /// Data that no message has.
    pub open spec fn invalid(message: Seq<char>) -> WireErrorView {
        WireErrorView { kind: ErrorKind::InvalidData, message }
    }

    /// The other side may not be talked to.
    pub open spec fn denied(message: Seq<char>) -> WireErrorView {
        WireErrorView { kind: ErrorKind::PermissionDenied, message }
    }

    /// The bytes end before the message does.
    pub open spec fn truncated() -> WireErrorView {
        WireErrorView {
            kind: ErrorKind::UnexpectedEof,
            message: "failed to fill whole buffer"@,
        }
    }
}

impl WireError {
    /// What the error says.
    pub open spec fn view(&self) -> WireErrorView {
        WireErrorView { kind: self.kind, message: self.message@ }
    }

    /// Why the message was not read.
    pub fn kind(&self) -> (r: ErrorKind)
        ensures
            r == self.kind,
    {
        self.kind
    }
}

/// Data that no message has.
pub(crate) fn invalid_data(message: String) -> (r: WireError)
    ensures
        r@ == WireErrorView::invalid(message@),
{
    WireError { kind: ErrorKind::InvalidData, message }
}

/// The other side may not be talked to.
pub(crate) fn denied(message: &str) -> (r: WireError)
    ensures
        r@ == WireErrorView::denied(message@),
{
    WireError { kind: ErrorKind::PermissionDenied, message: message.to_owned() }
}

/// Data that no message has: `name` followed by `rest`.
fn invalid_field(name: &str, rest: &str) -> (r: WireError)
    ensures
        r@ == WireErrorView::invalid(name@ + rest@),
{
    invalid_data(joined(name, rest))
}

/// The bytes end before the message does.
fn truncated() -> (r: WireError)
    ensures
        r@ == WireErrorView::truncated(),
{
    WireError {
        kind: ErrorKind::UnexpectedEof,
        message: "failed to fill whole buffer".to_owned(),
    }
}

/// The four bytes of `value`, the most significant one first.
pub open spec fn be32(value: u32) -> Seq<u8> {
    seq![
        (value / 16777216) as u8,
        (value / 65536 % 256) as u8,
        (value / 256 % 256) as u8,
        (value % 256) as u8,
    ]
}

/// The number that four bytes give, the most significant one first.
pub open spec fn from_be32(bytes: Seq<u8>) -> int {
    bytes[0] * 16777216 + bytes[1] * 65536 + bytes[2] * 256 + bytes[3]
}

/// A frame of `header` and `payload`.
pub open spec fn frame(header: Seq<u8>, payload: Seq<u8>) -> Seq<u8> {
    be32(header.len() as u32) + be32(payload.len() as u32) + header + payload
}

/// What a reader makes of `bytes`: the first frame's header and payload, or why there is none.
pub open spec fn unframed(bytes: Seq<u8>) -> Result<(Seq<u8>, Seq<u8>), WireErrorView> {
    let header = from_be32(bytes);
    let payload = from_be32(bytes.skip(4));
    if bytes.len() < 8 {
        Err(WireErrorView::truncated())
    } else if header > MAX_HEADER_BYTES {
        Err(WireErrorView::invalid("IPC header exceeds 65536 bytes"@))
    } else if payload > MAX_PAYLOAD_BYTES {
        Err(WireErrorView::invalid("IPC payload exceeds 268435456 bytes"@))
    } else if bytes.len() < 8 + header + payload {
        Err(WireErrorView::truncated())
    } else {
        Ok((bytes.subrange(8, 8 + header), bytes.subrange(8 + header, 8 + header + payload)))
    }
}

/// A number survives its four bytes.
proof fn lemma_be32(value: u32)
    ensures
        from_be32(be32(value)) == value,
{
}

/// A frame within the limits is read back as it was written, whatever follows it.
pub proof fn lemma_frame_roundtrip(header: Seq<u8>, payload: Seq<u8>, rest: Seq<u8>)
    requires
        header.len() <= MAX_HEADER_BYTES,
        payload.len() <= MAX_PAYLOAD_BYTES,
    ensures
        unframed(frame(header, payload) + rest) == Ok::<(Seq<u8>, Seq<u8>), WireErrorView>(
            (header, payload),
        ),
{
    let bytes = frame(header, payload) + rest;
    lemma_be32(header.len() as u32);
    lemma_be32(payload.len() as u32);
    assert(bytes.take(4) =~= be32(header.len() as u32));
    assert(bytes.skip(4).take(4) =~= be32(payload.len() as u32));
    assert(from_be32(bytes) == from_be32(bytes.take(4)));
    assert(from_be32(bytes.skip(4)) == from_be32(bytes.skip(4).take(4)));
    assert(bytes.subrange(8, 8int + header.len()) =~= header);
    assert(bytes.subrange(8int + header.len(), 8int + header.len() + payload.len()) =~= payload);
}

/// Appends the four bytes of `value` to `w`.
fn push_be32(w: &mut Vec<u8>, value: u32)
    ensures
        final(w)@ == old(w)@ + be32(value),
{
    w.push((value / 16777216) as u8);
    w.push((value / 65536 % 256) as u8);
    w.push((value / 256 % 256) as u8);
    w.push((value % 256) as u8);
}

/// Appends a frame of `header` and `payload` to `w`, which never fails. A length is written modulo
/// 2^32.
pub fn write_frame(w: &mut Vec<u8>, header: &[u8], payload: &[u8]) -> (r: Result<(), WireError>)
    ensures
        r is Ok,
        final(w)@ == old(w)@ + frame(header@, payload@),
{
    push_be32(w, header.len() as u32);
    push_be32(w, payload.len() as u32);
    w.extend_from_slice(header);
    w.extend_from_slice(payload);
    proof {
        assert(w@ =~= old(w)@ + frame(header@, payload@));
    }
    Ok(())
}

/// The number that the four bytes at `at` give.
fn be32_at(bytes: &[u8], at: usize) -> (r: u32)
    requires
        at + 4 <= bytes@.len(),
    ensures
        r == from_be32(bytes@.skip(at as int)),
{
    bytes[at] as u32 * 16777216 + bytes[at + 1] as u32 * 65536 + bytes[at + 2] as u32 * 256
        + bytes[at + 3] as u32
}

/// The lengths of the header and the payload that a frame's first eight bytes announce. What is
/// too large is refused before anything is allocated for it.
pub fn frame_lengths(prefix: &[u8]) -> (r: Result<(usize, usize), WireError>)
    ensures
        match r {
            Ok((header, payload)) => {
                &&& prefix@.len() >= 8
                &&& header == from_be32(prefix@) <= MAX_HEADER_BYTES
                &&& payload == from_be32(prefix@.skip(4)) <= MAX_PAYLOAD_BYTES
            },
            Err(error) => unframed(prefix@) == Err::<(Seq<u8>, Seq<u8>), WireErrorView>(error@) && (
            prefix@.len() < 8 || from_be32(prefix@) > MAX_HEADER_BYTES || from_be32(prefix@.skip(4))
                > MAX_PAYLOAD_BYTES),
        },
{
    if prefix.len() < 8 {
        return Err(truncated());
    }
    proof {
        assert(prefix@.skip(0) =~= prefix@);
    }
    let header: u32 = be32_at(prefix, 0);
    let payload: u32 = be32_at(prefix, 4);
    if header as usize > MAX_HEADER_BYTES {
        return Err(invalid_data("IPC header exceeds 65536 bytes".to_owned()));
    }
    if payload as usize > MAX_PAYLOAD_BYTES {
        return Err(invalid_data("IPC payload exceeds 268435456 bytes".to_owned()));
    }
    Ok((header as usize, payload as usize))
}

/// The header and the payload of the first frame in `bytes`.
pub fn read_frame(bytes: &[u8]) -> (r: Result<(Vec<u8>, Vec<u8>), WireError>)
    ensures
        unframed(bytes@) == (match r {
            Ok((header, payload)) => Ok((header@, payload@)),
            Err(error) => Err(error@),
        }),
{
    match frame_lengths(bytes) {
        Err(error) => Err(error),
        Ok((header, payload)) => {
            if bytes.len() < 8 + header + payload {
                return Err(truncated());
            }
            let mut head: Vec<u8> = Vec::new();
            head.extend_from_slice(slice_subrange(bytes, 8, 8 + header));
            let mut body: Vec<u8> = Vec::new();
            body.extend_from_slice(slice_subrange(bytes, 8 + header, 8 + header + payload));
            proof {
                assert(head@ =~= bytes@.subrange(8, 8 + header));
                assert(body@ =~= bytes@.subrange(8 + header, 8 + header + payload));
            }
            Ok((head, body))
        },
    }
}

/// The state of a recording as other programs see it.
#[derive(Clone, Copy, Debug, PartialEq, Eq, Structural)]
pub enum PublicRecordingState {
    Idle,
    Recording,
    Paused,
    Finalizing,
}

impl PublicRecordingState {
    /// The name of the state in messages.
    pub open spec fn name(self) -> Seq<char> {
        match self {
            PublicRecordingState::Idle => "idle"@,
            PublicRecordingState::Recording => "recording"@,
            PublicRecordingState::Paused => "paused"@,
            PublicRecordingState::Finalizing => "finalizing"@,
        }
    }

    /// The state of a name.
    pub open spec fn named(name: Seq<char>) -> Result<PublicRecordingState, WireErrorView> {
        if name == "idle"@ {
            Ok(PublicRecordingState::Idle)
        } else if name == "recording"@ {
            Ok(PublicRecordingState::Recording)
        } else if name == "paused"@ {
            Ok(PublicRecordingState::Paused)
        } else if name == "finalizing"@ {
            Ok(PublicRecordingState::Finalizing)
        } else {
            Err(WireErrorView::invalid("unknown recording state: "@ + name))
        }
    }
}

/// What a user can do to a running recording.
#[derive(Clone, Copy, Debug, PartialEq, Eq, Structural)]
pub enum RecordingAction {
    Pause,
    Resume,
    SaveShelf,
    SaveDisk,
    Discard,
}

impl RecordingAction {
    /// The name of the action in messages.
    pub open spec fn name(self) -> Seq<char> {
        match self {
            RecordingAction::Pause => "pause"@,
            RecordingAction::Resume => "resume"@,
            RecordingAction::SaveShelf => "save-shelf"@,
            RecordingAction::SaveDisk => "save-disk"@,
            RecordingAction::Discard => "discard"@,
        }
    }

    /// The action of a name.
    pub open spec fn named(name: Seq<char>) -> Result<RecordingAction, WireErrorView> {
        if name == "pause"@ {
            Ok(RecordingAction::Pause)
        } else if name == "resume"@ {
            Ok(RecordingAction::Resume)
        } else if name == "save-shelf"@ {
            Ok(RecordingAction::SaveShelf)
        } else if name == "save-disk"@ {
            Ok(RecordingAction::SaveDisk)
        } else if name == "discard"@ {
            Ok(RecordingAction::Discard)
        } else {
            Err(WireErrorView::invalid("unknown recording action: "@ + name))
        }
    }
}

/// Each state is found by its name.
pub proof fn lemma_state_names(state: PublicRecordingState)
    ensures
        PublicRecordingState::named(state.name()) == Ok::<PublicRecordingState, WireErrorView>(state),
{
    reveal_strlit("idle");
    reveal_strlit("recording");
    reveal_strlit("paused");
    reveal_strlit("finalizing");
}

/// Each action is found by its name.
pub proof fn lemma_action_names(action: RecordingAction)
    ensures
        RecordingAction::named(action.name()) == Ok::<RecordingAction, WireErrorView>(action),
{
    reveal_strlit("pause");
    reveal_strlit("resume");
    reveal_strlit("save-shelf");
    reveal_strlit("save-disk");
    reveal_strlit("discard");
}

/// The name of `state` in messages.
pub fn recording_state_name(state: PublicRecordingState) -> (r: &'static str)
    ensures
        r@ == state.name(),
{
    match state {
        PublicRecordingState::Idle => "idle",
        PublicRecordingState::Recording => "recording",
        PublicRecordingState::Paused => "paused",
        PublicRecordingState::Finalizing => "finalizing",
    }
}

/// The state that `state` names.
pub fn parse_recording_state(state: &str) -> (r: Result<PublicRecordingState, WireError>)
    ensures
        PublicRecordingState::named(state@) == (match r {
            Ok(state) => Ok(state),
            Err(error) => Err(error@),
        }),
{
    if same(state, "idle") {
        Ok(PublicRecordingState::Idle)
    } else if same(state, "recording") {
        Ok(PublicRecordingState::Recording)
    } else if same(state, "paused") {
        Ok(PublicRecordingState::Paused)
    } else if same(state, "finalizing") {
        Ok(PublicRecordingState::Finalizing)
    } else {
        Err(invalid_field("unknown recording state: ", state))
    }
}

/// The name of `action` in messages.
pub fn recording_action_name(action: RecordingAction) -> (r: &'static str)
    ensures
        r@ == action.name(),
{
    match action {
        RecordingAction::Pause => "pause",
        RecordingAction::Resume => "resume",
        RecordingAction::SaveShelf => "save-shelf",
        RecordingAction::SaveDisk => "save-disk",
        RecordingAction::Discard => "discard",
    }
}

/// The action that `action` names.
pub fn parse_recording_action(action: &str) -> (r: Result<RecordingAction, WireError>)
    ensures
        RecordingAction::named(action@) == (match r {
            Ok(action) => Ok(action),
            Err(error) => Err(error@),
        }),
{
    if same(action, "pause") {
        Ok(RecordingAction::Pause)
    } else if same(action, "resume") {
        Ok(RecordingAction::Resume)
    } else if same(action, "save-shelf") {
        Ok(RecordingAction::SaveShelf)
    } else if same(action, "save-disk") {
        Ok(RecordingAction::SaveDisk)
    } else if same(action, "discard") {
        Ok(RecordingAction::Discard)
    } else {
        Err(invalid_field("unknown recording action: ", action))
    }
}

/// The texts of an array that holds nothing else; `name` stands in the error.
pub open spec fn string_array(value: DocumentView, name: Seq<char>) -> Result<
    Seq<Seq<char>>,
    WireErrorView,
> {
    match value {
        DocumentView::Array(items) => if forall|i: int| 0 <= i < items.len() ==> items[i] is Text {
            Ok(Seq::new(items.len(), |i: int| items[i]->Text_0))
        } else {
            Err(WireErrorView::invalid(name + " entries must be strings"@))
        },
        _ => Err(WireErrorView::invalid(name + " must be an array"@)),
    }
}

/// An array of texts is read back.
proof fn lemma_string_array(texts: Seq<Seq<char>>, name: Seq<char>)
    ensures
        string_array(DocumentView::texts(texts), name) == Ok::<Seq<Seq<char>>, WireErrorView>(texts),
{
    let items = DocumentView::texts(texts)->Array_0;
    assert(Seq::new(items.len(), |i: int| items[i]->Text_0) =~= texts);
}

/// The texts of the array `value`; `name` stands in the error.
fn parse_string_array(value: &Document, name: &str) -> (r: Result<Vec<String>, WireError>)
    ensures
        string_array(value@, name@) == (match r {
            Ok(texts) => Ok(crate::text::views(texts@)),
            Err(error) => Err(error@),
        }),
{
    match value {
        Document::Array(items) => {
            let mut texts: Vec<String> = Vec::new();
            let mut i: usize = 0;
            proof {
                crate::document::lemma_item_views(items@);
            }
            let ghost views = value@->Array_0;
            while i < items.len()
                invariant
                    i <= items.len(),
                    value@ == DocumentView::Array(views),
                    views.len() == items.len(),
                    forall|j: int| 0 <= j < items.len() ==> #[trigger] views[j] == items@[j]@,
                    texts.len() == i,
                    forall|j: int| 0 <= j < i ==> #[trigger] views[j] == DocumentView::Text(texts@[j]@),
                decreases items.len() - i,
            {
                match &items[i] {
                    Document::Text(text) => {
                        assert(views[i as int] == items@[i as int]@);
                        texts.push(text.clone());
                    },
                    _ => {
                        assert(views[i as int] == items@[i as int]@);
                        assert(!(views[i as int] is Text));
                        return Err(invalid_field(name, " entries must be strings"));
                    },
                }
                i = i + 1;
            }
            proof {
                assert(forall|j: int| 0 <= j < views.len() ==> views[j] is Text);
                assert(Seq::new(views.len(), |j: int| views[j]->Text_0) =~= crate::text::views(
                    texts@,
                ));
            }
            Ok(texts)
        },
        _ => Err(invalid_field(name, " must be an array")),
    }
}

/// What other programs see of a recording.
#[derive(Clone, Debug, PartialEq, Eq)]
pub struct RecordingSnapshot {
    pub state: PublicRecordingState,
    pub elapsed_ms: u64,
    pub scope: String,
    pub outputs: Vec<String>,
    pub actions_enabled: bool,
    pub error: Option<String>,
}

/// What a [`RecordingSnapshot`] says.
pub struct SnapshotView {
    pub state: PublicRecordingState,
    pub elapsed_ms: u64,
    pub scope: Seq<char>,
    pub outputs: Seq<Seq<char>>,
    pub actions_enabled: bool,
    pub error: Option<Seq<char>>,
}

/// The error of a message without the field `name`.
pub open spec fn missing(name: Seq<char>) -> WireErrorView {
    WireErrorView::invalid("missing "@ + name)
}

impl SnapshotView {
    /// The snapshot as a JSON document.
    pub open spec fn document(self) -> DocumentView {
        DocumentView::Object(
            Map::<Seq<char>, DocumentView>::empty().insert(
                "state"@,
                DocumentView::Text(self.state.name()),
            ).insert("elapsed_ms"@, DocumentView::Number(self.elapsed_ms as int)).insert(
                "scope"@,
                DocumentView::Text(self.scope),
            ).insert("outputs"@, DocumentView::texts(self.outputs)).insert(
                "actions_enabled"@,
                DocumentView::Bool(self.actions_enabled),
            ).insert("error"@, DocumentView::text_or_null(self.error)),
        )
    }

    /// The snapshot that a JSON document describes. Every field has to be there.
    pub open spec fn described(value: DocumentView) -> Result<SnapshotView, WireErrorView> {
        if value.field("state"@) is None {
            Err(missing("state"@))
        } else if value.text_at("state"@) is None {
            Err(WireErrorView::invalid("state must be a string"@))
        } else {
            match PublicRecordingState::named(value.text_at("state"@)->0) {
                Err(error) => Err(error),
                Ok(state) => if value.field("elapsed_ms"@) is None {
                    Err(missing("elapsed_ms"@))
                } else if value.u64_at("elapsed_ms"@) is None {
                    Err(WireErrorView::invalid("elapsed_ms must be an unsigned integer"@))
                } else if value.field("scope"@) is None {
                    Err(missing("scope"@))
                } else if value.text_at("scope"@) is None {
                    Err(WireErrorView::invalid("scope must be a string"@))
                } else if value.field("outputs"@) is None {
                    Err(missing("outputs"@))
                } else {
                    match string_array(value.field("outputs"@)->0, "outputs"@) {
                        Err(error) => Err(error),
                        Ok(outputs) => if value.field("actions_enabled"@) is None {
                            Err(missing("actions_enabled"@))
                        } else if value.bool_at("actions_enabled"@) is None {
                            Err(WireErrorView::invalid("actions_enabled must be a boolean"@))
                        } else {
                            match value.field("error"@) {
                                None => Err(missing("error"@)),
                                Some(DocumentView::Null) | Some(DocumentView::Text(_)) => Ok(
                                    SnapshotView {
                                        state,
                                        elapsed_ms: value.u64_at("elapsed_ms"@)->0,
                                        scope: value.text_at("scope"@)->0,
                                        outputs,
                                        actions_enabled: value.bool_at("actions_enabled"@)->0,
                                        error: value.text_at("error"@),
                                    },
                                ),
                                Some(_) => Err(
                                    WireErrorView::invalid("error must be a string or null"@),
                                ),
                            }
                        },
                    }
                },
            }
        }
    }

    /// The snapshot as one line of text, its fields in a fixed order.
    pub open spec fn line(self) -> Seq<char> {
        "{\"state\":"@ + crate::json::printed_json(DocumentView::Text(self.state.name()))
            + ",\"elapsed_ms\":"@ + crate::text::decimal(self.elapsed_ms as nat) + ",\"scope\":"@
            + crate::json::printed_json(DocumentView::Text(self.scope)) + ",\"outputs\":"@
            + crate::json::printed_json(DocumentView::texts(self.outputs)) + ",\"actions_enabled\":"@
            + crate::text::bool_text(self.actions_enabled) + ",\"error\":"@
            + crate::json::printed_json(DocumentView::text_or_null(self.error)) + "}\n"@
    }
}

/// A described snapshot is the one that was written down.
pub proof fn lemma_snapshot_roundtrip(snapshot: SnapshotView)
    ensures
        SnapshotView::described(snapshot.document()) == Ok::<SnapshotView, WireErrorView>(snapshot),
{
    reveal_strlit("state");
    reveal_strlit("elapsed_ms");
    reveal_strlit("scope");
    reveal_strlit("outputs");
    reveal_strlit("actions_enabled");
    reveal_strlit("error");
    assert("state"@[1] != "scope"@[1]);
    assert("state"@[1] != "error"@[1]);
    assert("scope"@[1] != "error"@[1]);
    lemma_state_names(snapshot.state);
    lemma_string_array(snapshot.outputs, "outputs"@);
}

impl RecordingSnapshot {
    /// What the snapshot says.
    pub open spec fn view(&self) -> SnapshotView {
        SnapshotView {
            state: self.state,
            elapsed_ms: self.elapsed_ms,
            scope: self.scope@,
            outputs: crate::text::views(self.outputs@),
            actions_enabled: self.actions_enabled,
            error: crate::text::view_of(self.error),
        }
    }

    /// Nothing is being recorded.
    pub fn idle() -> (r: Self)
        ensures
            r.state == PublicRecordingState::Idle,
            r.elapsed_ms == 0,
            r.scope@ == "none"@,
            r.outputs@.len() == 0,
            !r.actions_enabled,
            r.error is None,
    {
        RecordingSnapshot {
            state: PublicRecordingState::Idle,
            elapsed_ms: 0,
            scope: "none".to_owned(),
            outputs: Vec::new(),
            actions_enabled: false,
            error: None,
        }
    }

    /// The snapshot as one line of JSON text with its fields in a fixed order.
    pub fn to_json_line(&self) -> (r: String)
        ensures
            r@ == self@.line(),
    {
        let mut line: String = "{\"state\":".to_owned();
        line.append(print_json(Document::text(recording_state_name(self.state))).as_str());
        line.append(",\"elapsed_ms\":");
        line.append(decimal_string(self.elapsed_ms as u128).as_str());
        line.append(",\"scope\":");
        line.append(print_json(Document::text(self.scope.as_str())).as_str());
        line.append(",\"outputs\":");
        line.append(print_json(Document::texts(&self.outputs)).as_str());
        line.append(",\"actions_enabled\":");
        line.append(if self.actions_enabled { "true" } else { "false" });
        line.append(",\"error\":");
        line.append(print_json(Document::text_or_null(&self.error)).as_str());
        line.append("}\n");
        line
    }

    /// The snapshot that `value` describes.
    fn from_value(value: &Document) -> (r: Result<Self, WireError>)
        ensures
            SnapshotView::described(value@) == (match r {
                Ok(snapshot) => Ok(snapshot@),
                Err(error) => Err(error@),
            }),
    {
        if value.get("state").is_none() {
            return Err(invalid_field("missing ", "state"));
        }
        let state = match value.text_at("state") {
            None => {
                return Err(invalid_data("state must be a string".to_owned()));
            },
            Some(name) => match parse_recording_state(name) {
                Err(error) => {
                    return Err(error);
                },
                Ok(state) => state,
            },
        };
        if value.get("elapsed_ms").is_none() {
            return Err(invalid_field("missing ", "elapsed_ms"));
        }
        let elapsed_ms: u64 = match value.u64_at("elapsed_ms") {
            None => {
                return Err(invalid_data("elapsed_ms must be an unsigned integer".to_owned()));
            },
            Some(elapsed_ms) => elapsed_ms,
        };
        if value.get("scope").is_none() {
            return Err(invalid_field("missing ", "scope"));
        }
        let scope = match value.text_at("scope") {
            None => {
                return Err(invalid_data("scope must be a string".to_owned()));
            },
            Some(scope) => scope.to_owned(),
        };
        let outputs = match value.get("outputs") {
            None => {
                return Err(invalid_field("missing ", "outputs"));
            },
            Some(outputs) => match parse_string_array(outputs, "outputs") {
                Err(error) => {
                    return Err(error);
                },
                Ok(outputs) => outputs,
            },
        };
        if value.get("actions_enabled").is_none() {
            return Err(invalid_field("missing ", "actions_enabled"));
        }
        let actions_enabled: bool = match value.bool_at("actions_enabled") {
            None => {
                return Err(invalid_data("actions_enabled must be a boolean".to_owned()));
            },
            Some(actions_enabled) => actions_enabled,
        };
        let error = match value.get("error") {
            None => {
                return Err(invalid_field("missing ", "error"));
            },
            Some(Document::Null) => None,
            Some(Document::Text(error)) => Some(error.clone()),
            Some(_) => {
                return Err(invalid_data("error must be a string or null".to_owned()));
            },
        };
        Ok(RecordingSnapshot { state, elapsed_ms, scope, outputs, actions_enabled, error })
    }

    /// The snapshot as a JSON document.
    fn as_value(&self) -> (r: Document)
        ensures
            r@ == self@.document(),
            r.plain(2),
    {
        let r = Document::object().with("state", Document::text(recording_state_name(self.state))).with(
            "elapsed_ms",
            Document::Unsigned(self.elapsed_ms),
        ).with("scope", Document::text(self.scope.as_str())).with(
            "outputs",
            Document::texts(&self.outputs),
        ).with("actions_enabled", Document::Bool(self.actions_enabled)).with(
            "error",
            Document::text_or_null(&self.error),
        );
        r
    }
}

/// The bytes of a message: `document` printed as the header of a frame around `payload`.
pub open spec fn message(document: DocumentView, payload: Seq<u8>) -> Seq<u8> {
    frame(vstd::utf8::encode_utf8(crate::json::printed_json(document)), payload)
}

/// The header of a message with `document` is within the limits of [`read_frame`].
pub open spec fn fits(document: DocumentView) -> bool {
    vstd::utf8::encode_utf8(crate::json::printed_json(document)).len() <= MAX_HEADER_BYTES
}

/// The document in a frame's header, and its payload, or why there is none.
pub open spec fn unpacked(bytes: Seq<u8>) -> Result<(DocumentView, Seq<u8>), WireErrorView> {
    match unframed(bytes) {
        Err(error) => Err(error),
        Ok((header, payload)) => match crate::json::parsed_json(header) {
            Parsed::Refused(message) => Err(WireErrorView::invalid(message)),
            Parsed::Document(document) => Ok((document, payload)),
        },
    }
}

/// The bytes of a message. Within the limits, they are read back as the document and the payload.
fn pack(document: Document, payload: &[u8]) -> (r: Vec<u8>)
    requires
        document.plain(127),
    ensures
        r@ == message(document@, payload@),
        fits(document@) && payload@.len() <= MAX_PAYLOAD_BYTES ==> unpacked(r@) == Ok::<
            (DocumentView, Seq<u8>),
            WireErrorView,
        >((document@, payload@)),
{
    let text = print_json(document);
    let mut buf: Vec<u8> = Vec::new();
    let _ = write_frame(&mut buf, text.as_str().as_bytes(), payload);
    proof {
        assert(buf@ =~= message(document@, payload@));
        let header = vstd::utf8::encode_utf8(text@);
        if header.len() <= MAX_HEADER_BYTES && payload@.len() <= MAX_PAYLOAD_BYTES {
            lemma_frame_roundtrip(header, payload@, Seq::empty());
            assert(buf@ + Seq::<u8>::empty() =~= buf@);
        }
    }
    buf
}

/// The document in the header of the first frame in `bytes`, and its payload.
fn unpack(bytes: &[u8]) -> (r: Result<(Document, Vec<u8>), WireError>)
    ensures
        unpacked(bytes@) == (match r {
            Ok((document, payload)) => Ok((document@, payload@)),
            Err(error) => Err(error@),
        }),
{
    match read_frame(bytes) {
        Err(error) => Err(error),
        Ok((header, payload)) => match parse_json(header.as_slice()) {
            Err(message) => Err(invalid_data(message)),
            Ok(document) => Ok((document, payload)),
        },
    }
}

/// The daemon's answer to a request.
#[derive(Clone, Debug, PartialEq, Eq)]
pub struct Response {
    pub ok: bool,
    pub error: Option<String>,
    pub snapshot: Option<RecordingSnapshot>,
    pub path: Option<String>,
}

/// What a [`Response`] says.
pub struct ResponseView {
    pub ok: bool,
    pub error: Option<Seq<char>>,
    pub snapshot: Option<SnapshotView>,
    pub path: Option<Seq<char>>,
}

impl ResponseView {
    /// The response as a JSON document.
    pub open spec fn document(self) -> DocumentView {
        DocumentView::Object(
            Map::<Seq<char>, DocumentView>::empty().insert("ok"@, DocumentView::Bool(self.ok)).insert(
                "error"@,
                DocumentView::text_or_null(self.error),
            ).insert(
                "snapshot"@,
                match self.snapshot {
                    Some(snapshot) => snapshot.document(),
                    None => DocumentView::Null,
                },
            ).insert("path"@, DocumentView::text_or_null(self.path)),
        )
    }

    /// The text of a field that may be null or missing.
    pub open spec fn optional_text(value: DocumentView, name: Seq<char>) -> Result<
        Option<Seq<char>>,
        WireErrorView,
    > {
        match value.field(name) {
            None | Some(DocumentView::Null) => Ok(None),
            Some(DocumentView::Text(text)) => Ok(Some(text)),
            Some(_) => Err(
                WireErrorView::invalid("response "@ + name + " must be a string or null"@),
            ),
        }
    }

    /// The response that a JSON document describes.
    pub open spec fn described(value: DocumentView) -> Result<ResponseView, WireErrorView> {
        match value.bool_at("ok"@) {
            None => Err(WireErrorView::invalid("response ok must be a boolean"@)),
            Some(ok) => match ResponseView::optional_text(value, "error"@) {
                Err(error) => Err(error),
                Ok(error) => match value.field("snapshot"@) {
                    None | Some(DocumentView::Null) => match ResponseView::optional_text(
                        value,
                        "path"@,
                    ) {
                        Err(error) => Err(error),
                        Ok(path) => Ok(ResponseView { ok, error, snapshot: None, path }),
                    },
                    Some(snapshot) => match SnapshotView::described(snapshot) {
                        Err(error) => Err(error),
                        Ok(snapshot) => match ResponseView::optional_text(value, "path"@) {
                            Err(error) => Err(error),
                            Ok(path) => Ok(
                                ResponseView { ok, error, snapshot: Some(snapshot), path },
                            ),
                        },
                    },
                },
            },
        }
    }

    /// What a reader makes of `bytes`.
    pub open spec fn received(bytes: Seq<u8>) -> Result<ResponseView, WireErrorView> {
        match unframed(bytes) {
            Err(error) => Err(error),
            Ok((header, payload)) => if payload.len() > 0 {
                Err(WireErrorView::invalid("response payload must be empty"@))
            } else {
                match unpacked(bytes) {
                    Err(error) => Err(error),
                    Ok((document, _)) => ResponseView::described(document),
                }
            },
        }
    }
}

/// A described response is the one that was written down.
pub proof fn lemma_response_roundtrip(response: ResponseView)
    ensures
        ResponseView::described(response.document()) == Ok::<ResponseView, WireErrorView>(response),
{
    reveal_strlit("ok");
    reveal_strlit("error");
    reveal_strlit("snapshot");
    reveal_strlit("path");
    assert("ok"@.len() == 2 && "error"@.len() == 5 && "snapshot"@.len() == 8 && "path"@.len() == 4);
    let document = response.document();
    assert(document.bool_at("ok"@) == Some(response.ok));
    assert(document.field("error"@) == Some(DocumentView::text_or_null(response.error)));
    assert(document.field("path"@) == Some(DocumentView::text_or_null(response.path)));
    match response.snapshot {
        Some(snapshot) => {
            lemma_snapshot_roundtrip(snapshot);
            assert(document.field("snapshot"@) == Some(snapshot.document()));
        },
        None => {
            assert(document.field("snapshot"@) == Some(DocumentView::Null));
        },
    }
}

/// The text of the field `name`, which may be null or missing.
fn parse_optional_text(value: &Document, name: &str) -> (r: Result<Option<String>, WireError>)
    ensures
        ResponseView::optional_text(value@, name@) == (match r {
            Ok(text) => Ok(crate::text::view_of(text)),
            Err(error) => Err(error@),
        }),
{
    match value.get(name) {
        None => Ok(None),
        Some(Document::Null) => Ok(None),
        Some(Document::Text(text)) => Ok(Some(text.clone())),
        Some(_) => Err(invalid_field(joined("response ", name).as_str(), " must be a string or null")),
    }
}

impl Response {
    /// What the response says.
    pub open spec fn view(&self) -> ResponseView {
        ResponseView {
            ok: self.ok,
            error: crate::text::view_of(self.error),
            snapshot: match self.snapshot {
                Some(snapshot) => Some(snapshot@),
                None => None,
            },
            path: crate::text::view_of(self.path),
        }
    }

    /// Success, with the state of the recording where there is one to show.
    pub fn ok(snapshot: Option<RecordingSnapshot>) -> (r: Self)
        ensures
            r == (Response { ok: true, error: None, snapshot, path: None }),
    {
        Response { ok: true, error: None, snapshot, path: None }
    }

    /// Success, with the file that was written.
    pub fn ok_path(path: String) -> (r: Self)
        ensures
            r == (Response { ok: true, error: None, snapshot: None, path: Some(path) }),
    {
        Response { ok: true, error: None, snapshot: None, path: Some(path) }
    }

    /// Failure.
    pub fn error(error: &str) -> (r: Self)
        ensures
            !r.ok,
            crate::text::view_of(r.error) == Some(error@),
            r.snapshot is None,
            r.path is None,
    {
        Response { ok: false, error: Some(error.to_owned()), snapshot: None, path: None }
    }

    /// The response as bytes. A reader gets the response back, unless its header is larger than a
    /// reader accepts.
    pub fn encode(&self) -> (r: Vec<u8>)
        ensures
            r@ == message(self@.document(), Seq::empty()),
            fits(self@.document()) ==> ResponseView::received(r@) == Ok::<
                ResponseView,
                WireErrorView,
            >(self@),
    {
        let snapshot = match &self.snapshot {
            Some(snapshot) => snapshot.as_value(),
            None => Document::Null,
        };
        let document = Document::object().with("ok", Document::Bool(self.ok)).with(
            "error",
            Document::text_or_null(&self.error),
        ).with("snapshot", snapshot).with("path", Document::text_or_null(&self.path));
        proof {
            lemma_response_roundtrip(self@);
            crate::document::lemma_plain_more(snapshot, 2, 126);
        }
        let empty: Vec<u8> = Vec::new();
        pack(document, empty.as_slice())
    }

    /// The response in the first frame of `bytes`.
    pub fn read(bytes: &[u8]) -> (r: Result<Self, WireError>)
        ensures
            ResponseView::received(bytes@) == (match r {
                Ok(response) => Ok(response@),
                Err(error) => Err(error@),
            }),
    {
        let (header, payload) = match read_frame(bytes) {
            Err(error) => {
                return Err(error);
            },
            Ok(parts) => parts,
        };
        if payload.len() > 0 {
            return Err(invalid_data("response payload must be empty".to_owned()));
        }
        let value = match parse_json(header.as_slice()) {
            Err(message) => {
                return Err(invalid_data(message));
            },
            Ok(value) => value,
        };
        let ok: bool = match value.bool_at("ok") {
            None => {
                return Err(invalid_data("response ok must be a boolean".to_owned()));
            },
            Some(ok) => ok,
        };
        let error = match parse_optional_text(&value, "error") {
            Err(error) => {
                return Err(error);
            },
            Ok(error) => error,
        };
        let snapshot = match value.get("snapshot") {
            None => None,
            Some(Document::Null) => None,
            Some(snapshot) => match RecordingSnapshot::from_value(snapshot) {
                Err(error) => {
                    return Err(error);
                },
                Ok(snapshot) => Some(snapshot),
            },
        };
        let path = match parse_optional_text(&value, "path") {
            Err(error) => {
                return Err(error);
            },
            Ok(path) => path,
        };
        Ok(Response { ok, error, snapshot, path })
    }
}

/// What takes the place of a card on the shelf.
#[derive(Debug)]
pub enum Replacement {
    Image(Vec<u8>),
    Video { path: String, take_ownership: bool },
}

/// A request to the daemon.
#[derive(Debug)]
pub enum Request {
    Add { source: String, png: Vec<u8>, output: Option<String> },
    AddVideo { source: String, path: String, output: Option<String>, take_ownership: bool },
    Replace { id: u64, media: Replacement },
    Reload { id: u64 },
    Ping,
    RecordingStatus,
    RecordingWatch,
    ShowRecordingControls,
    RecordingControl { action: RecordingAction },
    StartDefaultRecording,
    /// Stop a running recording, as the indicator's button does.
    StopRecording,
    StartRecording { x: i32, y: i32, w: u32, h: u32, show_frame: bool, audio_enabled: bool },
    /// Record a whole output, by its name. It is stopped from the keyboard.
    StartRecordingOutput { name: String },
    StartRecordingOutputs { names: Vec<String>, combined: bool },
    /// The thumbnail of a finished recording is ready: it takes the place of the placeholder on
    /// card `id`.
    RecordingThumb { id: u64, thumb: String },
}

/// What a [`Replacement`] says.
pub enum ReplacementView {
    Image(Seq<u8>),
    Video { path: Seq<char>, take_ownership: bool },
}

/// What a [`Request`] says.
pub enum RequestView {
    Add { source: Seq<char>, png: Seq<u8>, output: Option<Seq<char>> },
    AddVideo {
        source: Seq<char>,
        path: Seq<char>,
        output: Option<Seq<char>>,
        take_ownership: bool,
    },
    Replace { id: u64, media: ReplacementView },
    Reload { id: u64 },
    Ping,
    RecordingStatus,
    RecordingWatch,
    ShowRecordingControls,
    RecordingControl { action: RecordingAction },
    StartDefaultRecording,
    StopRecording,
    StartRecording { x: i32, y: i32, w: u32, h: u32, show_frame: bool, audio_enabled: bool },
    StartRecordingOutput { name: Seq<char> },
    StartRecordingOutputs { names: Seq<Seq<char>>, combined: bool },
    RecordingThumb { id: u64, thumb: Seq<char> },
}

/// The text in field `name`, or no text.
pub open spec fn text_or_empty(value: DocumentView, name: Seq<char>) -> Seq<char> {
    match value.text_at(name) {
        Some(text) => text,
        None => Seq::empty(),
    }
}

/// The text in field `name`, where it is not empty.
pub open spec fn nonempty_text(value: DocumentView, name: Seq<char>) -> Option<Seq<char>> {
    match value.text_at(name) {
        Some(text) if text.len() > 0 => Some(text),
        _ => None,
    }
}

/// The boolean in field `name`, or `default`.
pub open spec fn bool_or(value: DocumentView, name: Seq<char>, default: bool) -> bool {
    match value.bool_at(name) {
        Some(value) => value,
        None => default,
    }
}

/// The number in field `name`, or zero.
pub open spec fn u64_or_zero(value: DocumentView, name: Seq<char>) -> u64 {
    match value.u64_at(name) {
        Some(value) => value,
        None => 0,
    }
}

/// The coordinate in field `name`.
pub open spec fn coordinate(value: DocumentView, name: Seq<char>) -> Result<i32, WireErrorView> {
    match value.i64_at(name) {
        None => Err(WireErrorView::invalid(name + " must be an integer"@)),
        Some(value) => if i32::MIN <= value <= i32::MAX {
            Ok(value as i32)
        } else {
            Err(WireErrorView::invalid(name + " is out of range"@))
        },
    }
}

/// The width or height in field `name`.
pub open spec fn dimension(value: DocumentView, name: Seq<char>) -> Result<u32, WireErrorView> {
    match value.u64_at(name) {
        None => Err(WireErrorView::invalid(name + " must be an unsigned integer"@)),
        Some(value) => if value > u32::MAX {
            Err(WireErrorView::invalid(name + " is out of range"@))
        } else if value == 0 {
            Err(WireErrorView::invalid(name + " must be greater than zero"@))
        } else {
            Ok(value as u32)
        },
    }
}

/// An object whose field `cmd` is `name`.
pub open spec fn command(name: Seq<char>) -> Map<Seq<char>, DocumentView> {
    Map::<Seq<char>, DocumentView>::empty().insert("cmd"@, DocumentView::Text(name))
}

/// `fields`, with `output` where there is one.
pub open spec fn with_output(
    fields: Map<Seq<char>, DocumentView>,
    output: Option<Seq<char>>,
) -> Map<Seq<char>, DocumentView> {
    match output {
        Some(output) => fields.insert("output"@, DocumentView::Text(output)),
        None => fields,
    }
}

impl RequestView {
    /// The fields of the request's header.
    pub open spec fn fields(self) -> Map<Seq<char>, DocumentView> {
        match self {
            RequestView::Add { source, png, output } => with_output(
                command("add"@).insert("source"@, DocumentView::Text(source)),
                output,
            ),
            RequestView::AddVideo { source, path, output, take_ownership } => with_output(
                command("add_video"@).insert("source"@, DocumentView::Text(source)).insert(
                    "path"@,
                    DocumentView::Text(path),
                ).insert("take_ownership"@, DocumentView::Bool(take_ownership)),
                output,
            ),
            RequestView::Replace { id, media: ReplacementView::Image(png) } => command(
                "replace"@,
            ).insert("id"@, DocumentView::Number(id as int)).insert(
                "media"@,
                DocumentView::Text("image"@),
            ),
            RequestView::Replace {
                id,
                media: ReplacementView::Video { path, take_ownership },
            } => command("replace"@).insert("id"@, DocumentView::Number(id as int)).insert(
                "media"@,
                DocumentView::Text("video"@),
            ).insert("path"@, DocumentView::Text(path)).insert(
                "take_ownership"@,
                DocumentView::Bool(take_ownership),
            ),
            RequestView::Reload { id } => command("reload"@).insert(
                "id"@,
                DocumentView::Number(id as int),
            ),
            RequestView::Ping => command("ping"@),
            RequestView::RecordingStatus => command("recording_status"@),
            RequestView::RecordingWatch => command("recording_watch"@),
            RequestView::ShowRecordingControls => command("recording_show_controls"@),
            RequestView::RecordingControl { action } => command("recording_control"@).insert(
                "action"@,
                DocumentView::Text(action.name()),
            ),
            RequestView::StartDefaultRecording => command("record_default"@),
            RequestView::StopRecording => command("stop"@),
            RequestView::StartRecording { x, y, w, h, show_frame, audio_enabled } => command(
                "record"@,
            ).insert("x"@, DocumentView::Number(x as int)).insert(
                "y"@,
                DocumentView::Number(y as int),
            ).insert("w"@, DocumentView::Number(w as int)).insert(
                "h"@,
                DocumentView::Number(h as int),
            ).insert("show_frame"@, DocumentView::Bool(show_frame)).insert(
                "audio_enabled"@,
                DocumentView::Bool(audio_enabled),
            ),
            RequestView::StartRecordingOutput { name } => command("record_output"@).insert(
                "name"@,
                DocumentView::Text(name),
            ),
            RequestView::StartRecordingOutputs { names, combined } => command(
                "record_outputs"@,
            ).insert("names"@, DocumentView::texts(names)).insert(
                "combined"@,
                DocumentView::Bool(combined),
            ),
            RequestView::RecordingThumb { id, thumb } => command("recording_thumb"@).insert(
                "id"@,
                DocumentView::Number(id as int),
            ).insert("thumb"@, DocumentView::Text(thumb)),
        }
    }

    /// The request's header.
    pub open spec fn document(self) -> DocumentView {
        DocumentView::Object(self.fields())
    }

    /// The raw bytes that go with the request.
    pub open spec fn payload(self) -> Seq<u8> {
        match self {
            RequestView::Add { source, png, output } => png,
            RequestView::Replace { id, media: ReplacementView::Image(png) } => png,
            _ => Seq::empty(),
        }
    }

    /// A request that the header tells apart from every other one: an output is named, and an area
    /// is not empty.
    pub open spec fn faithful(self) -> bool {
        match self {
            RequestView::Add { source, png, output } => output != Some(Seq::<char>::empty()),
            RequestView::AddVideo { source, path, output, take_ownership } => output != Some(
                Seq::<char>::empty(),
            ),
            RequestView::StartRecording { x, y, w, h, show_frame, audio_enabled } => w > 0 && h > 0,
            _ => true,
        }
    }

    /// The replacement that a header describes.
    pub open spec fn replacing(value: DocumentView, payload: Seq<u8>) -> Result<
        RequestView,
        WireErrorView,
    > {
        let id = u64_or_zero(value, "id"@);
        let media = value.text_at("media"@);
        if media == Some("image"@) {
            Ok(RequestView::Replace { id, media: ReplacementView::Image(payload) })
        } else if media == Some("video"@) {
            Ok(
                RequestView::Replace {
                    id,
                    media: ReplacementView::Video {
                        path: text_or_empty(value, "path"@),
                        take_ownership: bool_or(value, "take_ownership"@, true),
                    },
                },
            )
        } else {
            Err(
                WireErrorView::invalid(
                    "unknown replacement media: "@ + crate::text::debugged(media),
                ),
            )
        }
    }

    /// The recording of an area that a header describes.
    pub open spec fn starting(value: DocumentView) -> Result<RequestView, WireErrorView> {
        match coordinate(value, "x"@) {
            Err(error) => Err(error),
            Ok(x) => match coordinate(value, "y"@) {
                Err(error) => Err(error),
                Ok(y) => match dimension(value, "w"@) {
                    Err(error) => Err(error),
                    Ok(w) => match dimension(value, "h"@) {
                        Err(error) => Err(error),
                        Ok(h) => Ok(
                            RequestView::StartRecording {
                                x,
                                y,
                                w,
                                h,
                                show_frame: bool_or(value, "show_frame"@, true),
                                audio_enabled: bool_or(value, "audio_enabled"@, true),
                            },
                        ),
                    },
                },
            },
        }
    }

    /// The recording of several outputs that a header describes.
    pub open spec fn starting_outputs(value: DocumentView) -> Result<RequestView, WireErrorView> {
        match value.field("names"@) {
            None => Err(WireErrorView::invalid("missing output names"@)),
            Some(names) => match string_array(names, "names"@) {
                Err(error) => Err(error),
                Ok(names) => match value.bool_at("combined"@) {
                    None => Err(WireErrorView::invalid("combined must be a boolean"@)),
                    Some(combined) => Ok(RequestView::StartRecordingOutputs { names, combined }),
                },
            },
        }
    }

    /// The control of a recording that a header describes.
    pub open spec fn controlling(value: DocumentView) -> Result<RequestView, WireErrorView> {
        match value.text_at("action"@) {
            None => Err(WireErrorView::invalid("recording action must be a string"@)),
            Some(name) => match RecordingAction::named(name) {
                Err(error) => Err(error),
                Ok(action) => Ok(RequestView::RecordingControl { action }),
            },
        }
    }

    /// The request that a header and a payload describe.
    pub open spec fn described(value: DocumentView, payload: Seq<u8>) -> Result<
        RequestView,
        WireErrorView,
    > {
        let cmd = value.text_at("cmd"@);
        if cmd == Some("add"@) {
            Ok(
                RequestView::Add {
                    source: text_or_empty(value, "source"@),
                    png: payload,
                    output: nonempty_text(value, "output"@),
                },
            )
        } else if cmd == Some("add_video"@) {
            Ok(
                RequestView::AddVideo {
                    source: text_or_empty(value, "source"@),
                    path: text_or_empty(value, "path"@),
                    output: nonempty_text(value, "output"@),
                    take_ownership: bool_or(value, "take_ownership"@, false),
                },
            )
        } else if cmd == Some("replace"@) {
            RequestView::replacing(value, payload)
        } else if cmd == Some("reload"@) {
            Ok(RequestView::Reload { id: u64_or_zero(value, "id"@) })
        } else if cmd == Some("ping"@) {
            Ok(RequestView::Ping)
        } else if cmd == Some("recording_status"@) {
            Ok(RequestView::RecordingStatus)
        } else if cmd == Some("recording_watch"@) {
            Ok(RequestView::RecordingWatch)
        } else if cmd == Some("recording_show_controls"@) {
            Ok(RequestView::ShowRecordingControls)
        } else if cmd == Some("recording_control"@) {
            RequestView::controlling(value)
        } else if cmd == Some("record_default"@) {
            Ok(RequestView::StartDefaultRecording)
        } else if cmd == Some("stop"@) {
            Ok(RequestView::StopRecording)
        } else if cmd == Some("record"@) {
            RequestView::starting(value)
        } else if cmd == Some("record_output"@) {
            Ok(RequestView::StartRecordingOutput { name: text_or_empty(value, "name"@) })
        } else if cmd == Some("record_outputs"@) {
            RequestView::starting_outputs(value)
        } else if cmd == Some("recording_thumb"@) {
            Ok(
                RequestView::RecordingThumb {
                    id: u64_or_zero(value, "id"@),
                    thumb: text_or_empty(value, "thumb"@),
                },
            )
        } else {
            Err(WireErrorView::invalid("unknown cmd: "@ + crate::text::debugged(cmd)))
        }
    }

    /// What a reader makes of `bytes`.
    pub open spec fn received(bytes: Seq<u8>) -> Result<RequestView, WireErrorView> {
        match unpacked(bytes) {
            Err(error) => Err(error),
            Ok((document, payload)) => RequestView::described(document, payload),
        }
    }
}

/// The names of the requests differ.
proof fn lemma_command_names()
    ensures
        "add"@.len() == 3,
        "add_video"@.len() == 9,
        "replace"@.len() == 7,
        "reload"@.len() == 6,
        "ping"@.len() == 4,
        "recording_status"@.len() == 16,
        "recording_watch"@.len() == 15,
        "recording_show_controls"@.len() == 23,
        "recording_control"@.len() == 17,
        "record_default"@.len() == 14,
        "stop"@.len() == 4,
        "record"@.len() == 6,
        "record_output"@.len() == 13,
        "record_outputs"@.len() == 14,
        "recording_thumb"@.len() == 15,
        "ping"@ != "stop"@,
        "reload"@ != "record"@,
        "record_default"@ != "record_outputs"@,
        "recording_watch"@ != "recording_thumb"@,
{
    reveal_strlit("add");
    reveal_strlit("add_video");
    reveal_strlit("replace");
    reveal_strlit("reload");
    reveal_strlit("ping");
    reveal_strlit("recording_status");
    reveal_strlit("recording_watch");
    reveal_strlit("recording_show_controls");
    reveal_strlit("recording_control");
    reveal_strlit("record_default");
    reveal_strlit("stop");
    reveal_strlit("record");
    reveal_strlit("record_output");
    reveal_strlit("record_outputs");
    reveal_strlit("recording_thumb");
    assert("ping"@[0] != "stop"@[0]);
    assert("reload"@[2] != "record"@[2]);
    assert("record_default"@[7] != "record_outputs"@[7]);
    assert("recording_watch"@[10] != "recording_thumb"@[10]);
}

/// The names of the fields differ.
proof fn lemma_field_names()
    ensures
        "cmd"@.len() == 3,
        "source"@.len() == 6,
        "output"@.len() == 6,
        "path"@.len() == 4,
        "take_ownership"@.len() == 14,
        "id"@.len() == 2,
        "media"@.len() == 5,
        "action"@.len() == 6,
        "x"@.len() == 1,
        "y"@.len() == 1,
        "w"@.len() == 1,
        "h"@.len() == 1,
        "show_frame"@.len() == 10,
        "audio_enabled"@.len() == 13,
        "name"@.len() == 4,
        "names"@.len() == 5,
        "combined"@.len() == 8,
        "thumb"@.len() == 5,
        "source"@ != "output"@,
        "x"@ != "y"@,
        "x"@ != "w"@,
        "x"@ != "h"@,
        "y"@ != "w"@,
        "y"@ != "h"@,
        "w"@ != "h"@,
        "image"@ != "video"@,
{
    reveal_strlit("cmd");
    reveal_strlit("source");
    reveal_strlit("output");
    reveal_strlit("path");
    reveal_strlit("take_ownership");
    reveal_strlit("id");
    reveal_strlit("media");
    reveal_strlit("action");
    reveal_strlit("x");
    reveal_strlit("y");
    reveal_strlit("w");
    reveal_strlit("h");
    reveal_strlit("show_frame");
    reveal_strlit("audio_enabled");
    reveal_strlit("name");
    reveal_strlit("names");
    reveal_strlit("combined");
    reveal_strlit("thumb");
    reveal_strlit("image");
    reveal_strlit("video");
    assert("source"@[0] != "output"@[0]);
    assert("x"@[0] != "y"@[0]);
    assert("x"@[0] != "w"@[0]);
    assert("x"@[0] != "h"@[0]);
    assert("y"@[0] != "w"@[0]);
    assert("y"@[0] != "h"@[0]);
    assert("w"@[0] != "h"@[0]);
    assert("image"@[0] != "video"@[0]);
}

/// The request that a header and a payload describe is the one they were made for.
pub proof fn lemma_request_roundtrip(request: RequestView)
    requires
        request.faithful(),
    ensures
        RequestView::described(request.document(), request.payload()) == Ok::<
            RequestView,
            WireErrorView,
        >(request),
{
    lemma_command_names();
    lemma_field_names();
    let document = request.document();
    assert forall|text: Seq<char>| text.len() == 0 implies text == Seq::<char>::empty() by {
        assert(text =~= Seq::<char>::empty());
    }
    match request {
        RequestView::Add { source, png, output } => {
            assert(document.text_at("cmd"@) == Some("add"@));
        },
        RequestView::AddVideo { source, path, output, take_ownership } => {
            assert(document.text_at("cmd"@) == Some("add_video"@));
            assert(document.text_at("source"@) == Some(source));
            assert(document.text_at("path"@) == Some(path));
        },
        RequestView::Replace { id, media: ReplacementView::Image(png) } => {
            assert(document.text_at("cmd"@) == Some("replace"@));
            assert(document.text_at("media"@) == Some("image"@));
        },
        RequestView::Replace { id, media: ReplacementView::Video { path, take_ownership } } => {
            assert(document.text_at("cmd"@) == Some("replace"@));
            assert(document.text_at("media"@) == Some("video"@));
        },
        RequestView::RecordingControl { action } => {
            assert(document.text_at("cmd"@) == Some("recording_control"@));
            lemma_action_names(action);
        },
        RequestView::StartRecording { x, y, w, h, show_frame, audio_enabled } => {
            assert(document.text_at("cmd"@) == Some("record"@));
            assert(document.i64_at("x"@) == Some(x as i64));
            assert(document.i64_at("y"@) == Some(y as i64));
            assert(document.u64_at("w"@) == Some(w as u64));
            assert(document.u64_at("h"@) == Some(h as u64));
        },
        RequestView::StartRecordingOutputs { names, combined } => {
            assert(document.text_at("cmd"@) == Some("record_outputs"@));
            lemma_string_array(names, "names"@);
        },
        _ => {
            assert(document.text_at("cmd"@) is Some);
        },
    }
}

impl Replacement {
    /// What the replacement says.
    pub open spec fn view(&self) -> ReplacementView {
        match self {
            Replacement::Image(png) => ReplacementView::Image(png@),
            Replacement::Video { path, take_ownership } => ReplacementView::Video {
                path: path@,
                take_ownership: *take_ownership,
            },
        }
    }
}

/// An object whose field `cmd` is `name`.
fn command_object(name: &str) -> (r: Document)
    ensures
        r is Object,
        r@ == DocumentView::Object(command(name@)),
        forall|depth: nat| depth > 0 ==> #[trigger] r.plain(depth),
{
    Document::object().with("cmd", Document::text(name))
}

/// `object`, with `output` where there is one.
fn object_with_output(object: Document, output: &Option<String>) -> (r: Document)
    requires
        object is Object,
        object.plain(2),
    ensures
        r is Object,
        r@ == DocumentView::Object(with_output(object@->Object_0, crate::text::view_of(*output))),
        r.plain(2),
{
    match output {
        Some(output) => object.with("output", Document::text(output.as_str())),
        None => object,
    }
}

/// The text in the field `name`, or no text.
fn text_or_empty_at(value: &Document, name: &str) -> (r: String)
    ensures
        r@ == text_or_empty(value@, name@),
{
    match value.text_at(name) {
        Some(text) => text.to_owned(),
        None => String::new(),
    }
}

/// The text in the field `name`, where it is not empty.
fn nonempty_text_at(value: &Document, name: &str) -> (r: Option<String>)
    ensures
        crate::text::view_of(r) == nonempty_text(value@, name@),
{
    match value.text_at(name) {
        Some(text) => if text.is_empty() {
            None
        } else {
            Some(text.to_owned())
        },
        None => None,
    }
}

/// The boolean in the field `name`, or `default`.
fn bool_or_at(value: &Document, name: &str, default: bool) -> (r: bool)
    ensures
        r == bool_or(value@, name@, default),
{
    match value.bool_at(name) {
        Some(value) => value,
        None => default,
    }
}

/// The number in the field `name`, or zero.
fn u64_or_zero_at(value: &Document, name: &str) -> (r: u64)
    ensures
        r == u64_or_zero(value@, name@),
{
    match value.u64_at(name) {
        Some(value) => value,
        None => 0,
    }
}

/// The coordinate in the field `name`.
fn parse_coordinate(value: &Document, name: &str) -> (r: Result<i32, WireError>)
    ensures
        coordinate(value@, name@) == (match r {
            Ok(value) => Ok(value),
            Err(error) => Err(error@),
        }),
{
    match value.i64_at(name) {
        None => Err(invalid_field(name, " must be an integer")),
        Some(value) => if i32::MIN as i64 <= value && value <= i32::MAX as i64 {
            Ok(value as i32)
        } else {
            Err(invalid_field(name, " is out of range"))
        },
    }
}

/// The width or height in the field `name`.
fn parse_dimension(value: &Document, name: &str) -> (r: Result<u32, WireError>)
    ensures
        dimension(value@, name@) == (match r {
            Ok(value) => Ok(value),
            Err(error) => Err(error@),
        }),
{
    match value.u64_at(name) {
        None => Err(invalid_field(name, " must be an unsigned integer")),
        Some(value) => if value > u32::MAX as u64 {
            Err(invalid_field(name, " is out of range"))
        } else if value == 0 {
            Err(invalid_field(name, " must be greater than zero"))
        } else {
            Ok(value as u32)
        },
    }
}

impl Request {
    /// What the request says.
    pub open spec fn view(&self) -> RequestView {
        match self {
            Request::Add { source, png, output } => RequestView::Add {
                source: source@,
                png: png@,
                output: crate::text::view_of(*output),
            },
            Request::AddVideo { source, path, output, take_ownership } => RequestView::AddVideo {
                source: source@,
                path: path@,
                output: crate::text::view_of(*output),
                take_ownership: *take_ownership,
            },
            Request::Replace { id, media } => RequestView::Replace { id: *id, media: media@ },
            Request::Reload { id } => RequestView::Reload { id: *id },
            Request::Ping => RequestView::Ping,
            Request::RecordingStatus => RequestView::RecordingStatus,
            Request::RecordingWatch => RequestView::RecordingWatch,
            Request::ShowRecordingControls => RequestView::ShowRecordingControls,
            Request::RecordingControl { action } => RequestView::RecordingControl {
                action: *action,
            },
            Request::StartDefaultRecording => RequestView::StartDefaultRecording,
            Request::StopRecording => RequestView::StopRecording,
            Request::StartRecording { x, y, w, h, show_frame, audio_enabled } =>
                RequestView::StartRecording {
                x: *x,
                y: *y,
                w: *w,
                h: *h,
                show_frame: *show_frame,
                audio_enabled: *audio_enabled,
            },
            Request::StartRecordingOutput { name } => RequestView::StartRecordingOutput {
                name: name@,
            },
            Request::StartRecordingOutputs { names, combined } =>
                RequestView::StartRecordingOutputs {
                names: crate::text::views(names@),
                combined: *combined,
            },
            Request::RecordingThumb { id, thumb } => RequestView::RecordingThumb {
                id: *id,
                thumb: thumb@,
            },
        }
    }

    /// The request's header.
    fn header(&self) -> (r: Document)
        ensures
            r@ == self@.document(),
            r.plain(2),
    {
        match self {
            Request::Add { source, png: _, output } => object_with_output(
                command_object("add").with("source", Document::text(source.as_str())),
                output,
            ),
            Request::AddVideo { source, path, output, take_ownership } => object_with_output(
                command_object("add_video").with("source", Document::text(source.as_str())).with(
                    "path",
                    Document::text(path.as_str()),
                ).with("take_ownership", Document::Bool(*take_ownership)),
                output,
            ),
            Request::Replace { id, media: Replacement::Image(_) } => command_object("replace").with(
                "id",
                Document::Unsigned(*id),
            ).with("media", Document::text("image")),
            Request::Replace { id, media: Replacement::Video { path, take_ownership } } =>
                command_object("replace").with("id", Document::Unsigned(*id)).with(
                "media",
                Document::text("video"),
            ).with("path", Document::text(path.as_str())).with(
                "take_ownership",
                Document::Bool(*take_ownership),
            ),
            Request::Reload { id } => command_object("reload").with("id", Document::Unsigned(*id)),
            Request::Ping => command_object("ping"),
            Request::RecordingStatus => command_object("recording_status"),
            Request::RecordingWatch => command_object("recording_watch"),
            Request::ShowRecordingControls => command_object("recording_show_controls"),
            Request::RecordingControl { action } => command_object("recording_control").with(
                "action",
                Document::text(recording_action_name(*action)),
            ),
            Request::StartDefaultRecording => command_object("record_default"),
            Request::StopRecording => command_object("stop"),
            Request::StartRecording { x, y, w, h, show_frame, audio_enabled } => command_object(
                "record",
            ).with("x", Document::Signed(*x as i64)).with("y", Document::Signed(*y as i64)).with(
                "w",
                Document::Unsigned(*w as u64),
            ).with("h", Document::Unsigned(*h as u64)).with("show_frame", Document::Bool(*show_frame)).with(
                "audio_enabled",
                Document::Bool(*audio_enabled),
            ),
            Request::StartRecordingOutput { name } => command_object("record_output").with(
                "name",
                Document::text(name.as_str()),
            ),
            Request::StartRecordingOutputs { names, combined } => command_object(
                "record_outputs",
            ).with("names", Document::texts(names)).with("combined", Document::Bool(*combined)),
            Request::RecordingThumb { id, thumb } => command_object("recording_thumb").with(
                "id",
                Document::Unsigned(*id),
            ).with("thumb", Document::text(thumb.as_str())),
        }
    }

    /// The request as bytes. A reader gets a faithful request back, unless its header or payload
    /// is larger than a reader accepts.
    pub fn encode(&self) -> (r: Vec<u8>)
        ensures
            r@ == message(self@.document(), self@.payload()),
            self@.faithful() && fits(self@.document()) && self@.payload().len() <= MAX_PAYLOAD_BYTES
                ==> RequestView::received(r@) == Ok::<RequestView, WireErrorView>(self@),
    {
        let header = self.header();
        proof {
            crate::document::lemma_plain_more(header, 2, 127);
            if self@.faithful() {
                lemma_request_roundtrip(self@);
            }
        }
        match self {
            Request::Add { source: _, png, output: _ } => pack(header, png.as_slice()),
            Request::Replace { id: _, media: Replacement::Image(png) } => pack(
                header,
                png.as_slice(),
            ),
            _ => {
                let empty: Vec<u8> = Vec::new();
                pack(header, empty.as_slice())
            },
        }
    }

    /// The replacement that a header describes.
    fn read_replacement(value: &Document, payload: Vec<u8>) -> (r: Result<Request, WireError>)
        ensures
            RequestView::replacing(value@, payload@) == (match r {
                Ok(request) => Ok(request@),
                Err(error) => Err(error@),
            }),
    {
        let id: u64 = u64_or_zero_at(value, "id");
        let media = value.text_at("media");
        match media {
            Some(name) => if same(name, "image") {
                return Ok(Request::Replace { id, media: Replacement::Image(payload) });
            } else if same(name, "video") {
                return Ok(
                    Request::Replace {
                        id,
                        media: Replacement::Video {
                            path: text_or_empty_at(value, "path"),
                            take_ownership: bool_or_at(value, "take_ownership", true),
                        },
                    },
                );
            },
            None => {},
        }
        Err(invalid_field("unknown replacement media: ", debug_text(media).as_str()))
    }

    /// The recording of an area that a header describes.
    fn read_start(value: &Document) -> (r: Result<Request, WireError>)
        ensures
            RequestView::starting(value@) == (match r {
                Ok(request) => Ok(request@),
                Err(error) => Err(error@),
            }),
    {
        let x: i32 = match parse_coordinate(value, "x") {
            Err(error) => {
                return Err(error);
            },
            Ok(x) => x,
        };
        let y: i32 = match parse_coordinate(value, "y") {
            Err(error) => {
                return Err(error);
            },
            Ok(y) => y,
        };
        let w: u32 = match parse_dimension(value, "w") {
            Err(error) => {
                return Err(error);
            },
            Ok(w) => w,
        };
        let h: u32 = match parse_dimension(value, "h") {
            Err(error) => {
                return Err(error);
            },
            Ok(h) => h,
        };
        Ok(
            Request::StartRecording {
                x,
                y,
                w,
                h,
                show_frame: bool_or_at(value, "show_frame", true),
                audio_enabled: bool_or_at(value, "audio_enabled", true),
            },
        )
    }

    /// The recording of several outputs that a header describes.
    fn read_start_outputs(value: &Document) -> (r: Result<Request, WireError>)
        ensures
            RequestView::starting_outputs(value@) == (match r {
                Ok(request) => Ok(request@),
                Err(error) => Err(error@),
            }),
    {
        match value.get("names") {
            None => Err(invalid_data("missing output names".to_owned())),
            Some(names) => match parse_string_array(names, "names") {
                Err(error) => Err(error),
                Ok(names) => match value.bool_at("combined") {
                    None => Err(invalid_data("combined must be a boolean".to_owned())),
                    Some(combined) => Ok(Request::StartRecordingOutputs { names, combined }),
                },
            },
        }
    }

    /// The control of a recording that a header describes.
    fn read_control(value: &Document) -> (r: Result<Request, WireError>)
        ensures
            RequestView::controlling(value@) == (match r {
                Ok(request) => Ok(request@),
                Err(error) => Err(error@),
            }),
    {
        match value.text_at("action") {
            None => Err(invalid_data("recording action must be a string".to_owned())),
            Some(name) => match parse_recording_action(name) {
                Err(error) => Err(error),
                Ok(action) => Ok(Request::RecordingControl { action }),
            },
        }
    }

    /// The request that a header and a payload describe.
    pub fn from_header(value: &Document, payload: Vec<u8>) -> (r: Result<Request, WireError>)
        ensures
            RequestView::described(value@, payload@) == (match r {
                Ok(request) => Ok(request@),
                Err(error) => Err(error@),
            }),
    {
        let cmd = match value.text_at("cmd") {
            None => {
                return Err(invalid_field("unknown cmd: ", debug_text(None).as_str()));
            },
            Some(cmd) => cmd,
        };
        if same(cmd, "add") {
            Ok(
                Request::Add {
                    source: text_or_empty_at(value, "source"),
                    png: payload,
                    output: nonempty_text_at(value, "output"),
                },
            )
        } else if same(cmd, "add_video") {
            Ok(
                Request::AddVideo {
                    source: text_or_empty_at(value, "source"),
                    path: text_or_empty_at(value, "path"),
                    output: nonempty_text_at(value, "output"),
                    take_ownership: bool_or_at(value, "take_ownership", false),
                },
            )
        } else if same(cmd, "replace") {
            Request::read_replacement(value, payload)
        } else if same(cmd, "reload") {
            Ok(Request::Reload { id: u64_or_zero_at(value, "id") })
        } else if same(cmd, "ping") {
            Ok(Request::Ping)
        } else if same(cmd, "recording_status") {
            Ok(Request::RecordingStatus)
        } else if same(cmd, "recording_watch") {
            Ok(Request::RecordingWatch)
        } else if same(cmd, "recording_show_controls") {
            Ok(Request::ShowRecordingControls)
        } else if same(cmd, "recording_control") {
            Request::read_control(value)
        } else if same(cmd, "record_default") {
            Ok(Request::StartDefaultRecording)
        } else if same(cmd, "stop") {
            Ok(Request::StopRecording)
        } else if same(cmd, "record") {
            Request::read_start(value)
        } else if same(cmd, "record_output") {
            Ok(Request::StartRecordingOutput { name: text_or_empty_at(value, "name") })
        } else if same(cmd, "record_outputs") {
            Request::read_start_outputs(value)
        } else if same(cmd, "recording_thumb") {
            Ok(
                Request::RecordingThumb {
                    id: u64_or_zero_at(value, "id"),
                    thumb: text_or_empty_at(value, "thumb"),
                },
            )
        } else {
            Err(invalid_field("unknown cmd: ", debug_text(Some(cmd)).as_str()))
        }
    }

    /// The request in the first frame of `bytes`.
    pub fn read(bytes: &[u8]) -> (r: Result<Request, WireError>)
        ensures
            RequestView::received(bytes@) == (match r {
                Ok(request) => Ok(request@),
                Err(error) => Err(error@),
            }),
    {
        match unpack(bytes) {
            Err(error) => Err(error),
            Ok((value, payload)) => Request::from_header(&value, payload),
        }
    }
}

/// A length is four bytes, the highest first.
pub proof fn lemma_length_bytes(value: u32)
    ensures
        be32(value).len() == 4,
        from_be32(be32(value)) == value,
        value < 256 ==> be32(value) == seq![0u8, 0u8, 0u8, value as u8],
        value >= 16777216 ==> be32(value)[0] > 0,
{
}

/// A frame is the length of its header, that of its payload, the header and the payload, in that
/// order.
pub proof fn lemma_frame_parts(header: Seq<u8>, payload: Seq<u8>)
    requires
        header.len() <= u32::MAX,
        payload.len() <= u32::MAX,
    ensures
        ({
            let bytes = frame(header, payload);
            &&& bytes.len() == 8 + header.len() + payload.len()
            &&& from_be32(bytes) == header.len()
            &&& from_be32(bytes.skip(4)) == payload.len()
            &&& bytes.subrange(8, 8 + header.len() as int) == header
            &&& bytes.skip(8 + header.len() as int) == payload
        }),
{
    let bytes = frame(header, payload);
    lemma_length_bytes(header.len() as u32);
    lemma_length_bytes(payload.len() as u32);
    let first = be32(header.len() as u32);
    let second = be32(payload.len() as u32);
    assert(bytes[0] == first[0] && bytes[1] == first[1] && bytes[2] == first[2] && bytes[3]
        == first[3]);
    assert(bytes.skip(4)[0] == second[0] && bytes.skip(4)[1] == second[1] && bytes.skip(4)[2]
        == second[2] && bytes.skip(4)[3] == second[3]);
    assert(bytes.subrange(8, 8 + header.len() as int) =~= header);
    assert(bytes.skip(8 + header.len() as int) =~= payload);
}

/// Bytes are a frame where the lengths in front hold and are within the limits, and what is read of
/// it are the parts that they tell.
pub proof fn lemma_unframed(bytes: Seq<u8>)
    ensures
        unframed(bytes) is Ok <==> bytes.len() >= 8 && from_be32(bytes) <= 65536 && from_be32(
            bytes.skip(4),
        ) <= 268435456 && bytes.len() >= 8 + from_be32(bytes) + from_be32(bytes.skip(4)),
        unframed(bytes) matches Ok((header, payload)) ==> header.len() == from_be32(bytes)
            && payload.len() == from_be32(bytes.skip(4)) && bytes.skip(8).take(
            (header.len() + payload.len()) as int,
        ) == header + payload,
        bytes.len() < 8 ==> (unframed(bytes) matches Err(error) && error.kind
            == ErrorKind::UnexpectedEof),
        bytes.len() >= 8 && (from_be32(bytes) > 65536 || from_be32(bytes.skip(4)) > 268435456)
            ==> (unframed(bytes) matches Err(error) && error.kind == ErrorKind::InvalidData),
        bytes.len() >= 8 && from_be32(bytes) <= 65536 && from_be32(bytes.skip(4)) <= 268435456
            && bytes.len() < 8 + from_be32(bytes) + from_be32(bytes.skip(4)) ==> (unframed(bytes)
            matches Err(error) && error.kind == ErrorKind::UnexpectedEof),
{
    if let Ok((header, payload)) = unframed(bytes) {
        assert(bytes.skip(8).take((header.len() + payload.len()) as int) =~= header + payload);
    }
}

/// States and actions go by these names on the wire, and by no others.
pub proof fn lemma_wire_names(state: PublicRecordingState, action: RecordingAction, name: Seq<char>)
    ensures
        PublicRecordingState::Idle.name() == "idle"@,
        PublicRecordingState::Recording.name() == "recording"@,
        PublicRecordingState::Paused.name() == "paused"@,
        PublicRecordingState::Finalizing.name() == "finalizing"@,
        RecordingAction::Pause.name() == "pause"@,
        RecordingAction::Resume.name() == "resume"@,
        RecordingAction::SaveShelf.name() == "save-shelf"@,
        RecordingAction::SaveDisk.name() == "save-disk"@,
        RecordingAction::Discard.name() == "discard"@,
        PublicRecordingState::named(name) matches Ok(known) ==> known.name() == name,
        RecordingAction::named(name) matches Ok(known) ==> known.name() == name,
{
}

/// What a recording does is told in the fields of these names, and read from them.
pub proof fn lemma_snapshot_fields(snapshot: SnapshotView, value: DocumentView)
    ensures
        ({
            let told = snapshot.document();
            &&& told.field("state"@) == Some(DocumentView::Text(snapshot.state.name()))
            &&& told.field("elapsed_ms"@) == Some(DocumentView::Number(snapshot.elapsed_ms as int))
            &&& told.field("scope"@) == Some(DocumentView::Text(snapshot.scope))
            &&& told.field("outputs"@) == Some(DocumentView::texts(snapshot.outputs))
            &&& told.field("actions_enabled"@) == Some(
                DocumentView::Bool(snapshot.actions_enabled),
            )
            &&& snapshot.error matches Some(error) ==> told.field("error"@) == Some(
                DocumentView::Text(error),
            )
            &&& snapshot.error is None ==> told.field("error"@) == Some(DocumentView::Null)
        }),
        SnapshotView::described(value) matches Ok(read) ==> {
            &&& value.field("state"@) == Some(DocumentView::Text(read.state.name()))
            &&& value.field("elapsed_ms"@) == Some(DocumentView::Number(read.elapsed_ms as int))
            &&& value.field("scope"@) == Some(DocumentView::Text(read.scope))
            &&& value.field("actions_enabled"@) == Some(DocumentView::Bool(read.actions_enabled))
            &&& read.error matches Some(error) ==> value.field("error"@) == Some(
                DocumentView::Text(error),
            )
            &&& read.error is None ==> value.field("error"@) == Some(DocumentView::Null)
        },
{
    reveal_strlit("state");
    reveal_strlit("elapsed_ms");
    reveal_strlit("scope");
    reveal_strlit("outputs");
    reveal_strlit("actions_enabled");
    reveal_strlit("error");
    assert("state"@.len() == 5);
    assert("elapsed_ms"@.len() == 10);
    assert("scope"@.len() == 5);
    assert("outputs"@.len() == 7);
    assert("actions_enabled"@.len() == 15);
    assert("error"@.len() == 5);
    assert("state"@[1] != "scope"@[1]);
    assert("state"@[0] != "error"@[0]);
    assert("scope"@[0] != "error"@[0]);
    if let Ok(read) = SnapshotView::described(value) {
        lemma_wire_names(read.state, RecordingAction::Pause, value.text_at("state"@)->0);
    }
}

/// A line about a recording tells its fields in their order, each behind its name, and ends.
pub proof fn lemma_snapshot_line(snapshot: &RecordingSnapshot, line: String)
    requires
        call_ensures(RecordingSnapshot::to_json_line, (snapshot,), line),
    ensures
        line@ == "{\"state\":"@ + crate::json::printed_json(
            DocumentView::Text(snapshot.state.name()),
        ) + ",\"elapsed_ms\":"@ + crate::text::decimal(snapshot.elapsed_ms as nat)
            + ",\"scope\":"@ + crate::json::printed_json(DocumentView::Text(snapshot.scope@))
            + ",\"outputs\":"@ + crate::json::printed_json(
            DocumentView::texts(crate::text::views(snapshot.outputs@)),
        ) + ",\"actions_enabled\":"@ + (if snapshot.actions_enabled {
            "true"@
        } else {
            "false"@
        }) + ",\"error\":"@ + crate::json::printed_json(
            DocumentView::text_or_null(crate::text::view_of(snapshot.error)),
        ) + "}\n"@,
{
}

/// An answer tells whether it is one, its error, what a recording does and a path, in the fields of
/// these names.
pub proof fn lemma_response_fields(response: ResponseView, value: DocumentView)
    ensures
        ({
            let told = response.document();
            &&& told.field("ok"@) == Some(DocumentView::Bool(response.ok))
            &&& response.error matches Some(error) ==> told.field("error"@) == Some(
                DocumentView::Text(error),
            )
            &&& response.error is None ==> told.field("error"@) == Some(DocumentView::Null)
            &&& response.snapshot matches Some(snapshot) ==> told.field("snapshot"@) == Some(
                snapshot.document(),
            )
            &&& response.snapshot is None ==> told.field("snapshot"@) == Some(DocumentView::Null)
            &&& response.path matches Some(path) ==> told.field("path"@) == Some(
                DocumentView::Text(path),
            )
            &&& response.path is None ==> told.field("path"@) == Some(DocumentView::Null)
        }),
        ResponseView::described(value) matches Ok(read) ==> {
            &&& value.field("ok"@) == Some(DocumentView::Bool(read.ok))
            &&& read.error matches Some(error) ==> value.field("error"@) == Some(
                DocumentView::Text(error),
            )
            &&& read.path matches Some(path) ==> value.field("path"@) == Some(
                DocumentView::Text(path),
            )
            &&& read.snapshot matches Some(snapshot) ==> (value.field("snapshot"@) matches Some(told)
                && SnapshotView::described(told) == Ok::<SnapshotView, WireErrorView>(snapshot))
        },
{
    reveal_strlit("ok");
    reveal_strlit("error");
    reveal_strlit("snapshot");
    reveal_strlit("path");
    assert("ok"@.len() == 2);
    assert("error"@.len() == 5);
    assert("snapshot"@.len() == 8);
    assert("path"@.len() == 4);
}

/// What each request is called on the wire.
pub open spec fn command_name(request: RequestView) -> Seq<char> {
    match request {
        RequestView::Add { .. } => "add"@,
        RequestView::AddVideo { .. } => "add_video"@,
        RequestView::Replace { .. } => "replace"@,
        RequestView::Reload { .. } => "reload"@,
        RequestView::Ping => "ping"@,
        RequestView::RecordingStatus => "recording_status"@,
        RequestView::RecordingWatch => "recording_watch"@,
        RequestView::ShowRecordingControls => "recording_show_controls"@,
        RequestView::RecordingControl { .. } => "recording_control"@,
        RequestView::StartDefaultRecording => "record_default"@,
        RequestView::StopRecording => "stop"@,
        RequestView::StartRecording { .. } => "record"@,
        RequestView::StartRecordingOutput { .. } => "record_output"@,
        RequestView::StartRecordingOutputs { .. } => "record_outputs"@,
        RequestView::RecordingThumb { .. } => "recording_thumb"@,
    }
}

/// A request tells its command, and everything that it asks in the field of its name.
pub proof fn lemma_request_fields(request: RequestView)
    ensures
        ({
            let told = request.document();
            &&& told.field("cmd"@) == Some(DocumentView::Text(command_name(request)))
            &&& request matches RequestView::Add { source, png, output } ==> {
                &&& told.field("source"@) == Some(DocumentView::Text(source))
                &&& output matches Some(output) ==> told.field("output"@) == Some(
                    DocumentView::Text(output),
                )
                &&& output is None ==> told.field("output"@) is None
                &&& request.payload() == png
            }
            &&& request matches RequestView::AddVideo { source, path, output, take_ownership } ==> {
                &&& told.field("source"@) == Some(DocumentView::Text(source))
                &&& told.field("path"@) == Some(DocumentView::Text(path))
                &&& told.field("take_ownership"@) == Some(DocumentView::Bool(take_ownership))
                &&& output matches Some(output) ==> told.field("output"@) == Some(
                    DocumentView::Text(output),
                )
            }
            &&& request matches RequestView::Replace { id, media } ==> {
                &&& told.field("id"@) == Some(DocumentView::Number(id as int))
                &&& media matches ReplacementView::Image(png) ==> told.field("media"@) == Some(
                    DocumentView::Text("image"@),
                ) && request.payload() == png
                &&& media matches ReplacementView::Video { path, take_ownership } ==> told.field(
                    "media"@,
                ) == Some(DocumentView::Text("video"@)) && told.field("path"@) == Some(
                    DocumentView::Text(path),
                ) && told.field("take_ownership"@) == Some(DocumentView::Bool(take_ownership))
            }
            &&& request matches RequestView::Reload { id } ==> told.field("id"@) == Some(
                DocumentView::Number(id as int),
            )
            &&& request matches RequestView::RecordingControl { action } ==> told.field("action"@)
                == Some(DocumentView::Text(action.name()))
            &&& request matches RequestView::StartRecording {
                x,
                y,
                w,
                h,
                show_frame,
                audio_enabled,
            } ==> {
                &&& told.field("x"@) == Some(DocumentView::Number(x as int))
                &&& told.field("y"@) == Some(DocumentView::Number(y as int))
                &&& told.field("w"@) == Some(DocumentView::Number(w as int))
                &&& told.field("h"@) == Some(DocumentView::Number(h as int))
                &&& told.field("show_frame"@) == Some(DocumentView::Bool(show_frame))
                &&& told.field("audio_enabled"@) == Some(DocumentView::Bool(audio_enabled))
            }
            &&& request matches RequestView::StartRecordingOutput { name } ==> told.field("name"@)
                == Some(DocumentView::Text(name))
            &&& request matches RequestView::StartRecordingOutputs { names, combined } ==> told.field(
                "names"@,
            ) == Some(DocumentView::texts(names)) && told.field("combined"@) == Some(
                DocumentView::Bool(combined),
            )
            &&& request matches RequestView::RecordingThumb { id, thumb } ==> told.field("id"@)
                == Some(DocumentView::Number(id as int)) && told.field("thumb"@) == Some(
                DocumentView::Text(thumb),
            )
        }),
{
    reveal_strlit("cmd");
    reveal_strlit("source");
    reveal_strlit("output");
    reveal_strlit("path");
    reveal_strlit("take_ownership");
    reveal_strlit("id");
    reveal_strlit("media");
    reveal_strlit("action");
    reveal_strlit("x");
    reveal_strlit("y");
    reveal_strlit("w");
    reveal_strlit("h");
    reveal_strlit("show_frame");
    reveal_strlit("audio_enabled");
    reveal_strlit("name");
    reveal_strlit("names");
    reveal_strlit("combined");
    reveal_strlit("thumb");
    assert("cmd"@.len() == 3);
    assert("source"@.len() == 6);
    assert("output"@.len() == 6);
    assert("path"@.len() == 4);
    assert("take_ownership"@.len() == 14);
    assert("id"@.len() == 2);
    assert("media"@.len() == 5);
    assert("action"@.len() == 6);
    assert("x"@.len() == 1);
    assert("y"@.len() == 1);
    assert("w"@.len() == 1);
    assert("h"@.len() == 1);
    assert("show_frame"@.len() == 10);
    assert("audio_enabled"@.len() == 13);
    assert("name"@.len() == 4);
    assert("names"@.len() == 5);
    assert("combined"@.len() == 8);
    assert("thumb"@.len() == 5);
    assert("source"@[0] != "output"@[0]);
    assert("source"@[0] != "action"@[0]);
    assert("output"@[0] != "action"@[0]);
    assert("path"@[0] != "name"@[0]);
    assert("media"@[0] != "names"@[0]);
    assert("media"@[0] != "thumb"@[0]);
    assert("x"@[0] != "y"@[0]);
    assert("x"@[0] != "w"@[0]);
    assert("x"@[0] != "h"@[0]);
    assert("y"@[0] != "w"@[0]);
    assert("y"@[0] != "h"@[0]);
    assert("w"@[0] != "h"@[0]);
    assert("names"@[0] != "thumb"@[0]);
}

/// What is read of a request: the command says which one it is, and each part is read from the field
/// of its name. A video that is added stays its owner's unless the request says otherwise, one that
/// replaces another is taken over unless it says otherwise, and a recording shows its frame and
/// takes sound unless it says otherwise.
pub proof fn lemma_request_read(value: DocumentView, payload: Seq<u8>)
    ensures
        RequestView::described(value, payload) matches Ok(request) ==> {
            &&& value.field("cmd"@) == Some(DocumentView::Text(command_name(request)))
            &&& request matches RequestView::Add { source, png, output } ==> {
                &&& png == payload
                &&& value.text_at("source"@) matches Some(text) ==> source == text
                &&& output matches Some(output) ==> output.len() > 0 && value.field("output"@)
                    == Some(DocumentView::Text(output))
                &&& value.text_at("output"@) matches Some(text) ==> (text.len() > 0 ==> output
                    is Some)
            }
            &&& request matches RequestView::AddVideo { source, path, output, take_ownership } ==> {
                &&& value.text_at("source"@) matches Some(text) ==> source == text
                &&& value.text_at("path"@) matches Some(text) ==> path == text
                &&& take_ownership <==> value.field("take_ownership"@) == Some(
                    DocumentView::Bool(true),
                )
                &&& output matches Some(output) ==> output.len() > 0 && value.field("output"@)
                    == Some(DocumentView::Text(output))
                &&& value.text_at("output"@) matches Some(text) ==> (text.len() > 0 ==> output
                    is Some)
            }
            &&& request matches RequestView::Replace { id, media } ==> {
                &&& value.u64_at("id"@) matches Some(told) ==> id == told
                &&& value.u64_at("id"@) is None ==> id == 0
                &&& media matches ReplacementView::Image(png) ==> png == payload && value.field(
                    "media"@,
                ) == Some(DocumentView::Text("image"@))
                &&& media matches ReplacementView::Video { path, take_ownership } ==> value.field(
                    "media"@,
                ) == Some(DocumentView::Text("video"@)) && (!take_ownership <==> value.field(
                    "take_ownership"@,
                ) == Some(DocumentView::Bool(false))) && (value.text_at("path"@) matches Some(text)
                    ==> path == text)
            }
            &&& request matches RequestView::Reload { id } ==> (value.u64_at("id"@) matches Some(told)
                ==> id == told)
            &&& request matches RequestView::RecordingControl { action } ==> value.field("action"@)
                == Some(DocumentView::Text(action.name()))
            &&& request matches RequestView::StartRecording {
                x,
                y,
                w,
                h,
                show_frame,
                audio_enabled,
            } ==> {
                &&& value.field("x"@) == Some(DocumentView::Number(x as int))
                &&& value.field("y"@) == Some(DocumentView::Number(y as int))
                &&& value.field("w"@) == Some(DocumentView::Number(w as int)) && w > 0
                &&& value.field("h"@) == Some(DocumentView::Number(h as int)) && h > 0
                &&& !show_frame <==> value.field("show_frame"@) == Some(DocumentView::Bool(false))
                &&& !audio_enabled <==> value.field("audio_enabled"@) == Some(
                    DocumentView::Bool(false),
                )
            }
            &&& request matches RequestView::StartRecordingOutput { name } ==> (value.text_at(
                "name"@,
            ) matches Some(text) ==> name == text)
            &&& request matches RequestView::StartRecordingOutputs { names, combined } ==> value.field(
                "combined"@,
            ) == Some(DocumentView::Bool(combined)) && (value.field("names"@)
                matches Some(DocumentView::Array(items)) && items.len() == names.len() && (forall|
                i: int,
            |
                0 <= i < names.len() ==> #[trigger] items[i] == DocumentView::Text(names[i])))
            &&& request matches RequestView::RecordingThumb { id, thumb } ==> (value.u64_at("id"@)
                matches Some(told) ==> id == told) && (value.text_at("thumb"@) matches Some(text)
                ==> thumb == text)
        },
{
    reveal_strlit("add");
    reveal_strlit("add_video");
    reveal_strlit("replace");
    reveal_strlit("reload");
    reveal_strlit("ping");
    reveal_strlit("recording_status");
    reveal_strlit("recording_watch");
    reveal_strlit("recording_show_controls");
    reveal_strlit("recording_control");
    reveal_strlit("record_default");
    reveal_strlit("stop");
    reveal_strlit("record");
    reveal_strlit("record_output");
    reveal_strlit("record_outputs");
    reveal_strlit("recording_thumb");
    assert("add"@.len() == 3);
    assert("add_video"@.len() == 9);
    assert("replace"@.len() == 7);
    assert("reload"@.len() == 6);
    assert("ping"@.len() == 4);
    assert("recording_status"@.len() == 16);
    assert("recording_watch"@.len() == 15);
    assert("recording_show_controls"@.len() == 23);
    assert("recording_control"@.len() == 17);
    assert("record_default"@.len() == 14);
    assert("stop"@.len() == 4);
    assert("record"@.len() == 6);
    assert("record_output"@.len() == 13);
    assert("record_outputs"@.len() == 14);
    assert("recording_thumb"@.len() == 15);
    assert("reload"@[2] != "record"@[2]);
    assert("ping"@[0] != "stop"@[0]);
    assert("recording_watch"@[10] != "recording_thumb"@[10]);
    assert("record_default"@[7] != "record_outputs"@[7]);
    lemma_wire_names(
        PublicRecordingState::Idle,
        RecordingAction::Pause,
        text_or_empty(value, "action"@),
    );
}

/// Which requests are understood: every command of these, but for those whose parts do not hold.
pub proof fn lemma_request_understood(value: DocumentView, payload: Seq<u8>)
    ensures
        ({
            let read = RequestView::described(value, payload);
            let cmd = value.text_at("cmd"@);
            &&& cmd == Some("add"@) || cmd == Some("add_video"@) || cmd == Some("reload"@) || cmd
                == Some("ping"@) || cmd == Some("recording_status"@) || cmd == Some(
                "recording_watch"@,
            ) || cmd == Some("recording_show_controls"@) || cmd == Some("record_default"@) || cmd
                == Some("stop"@) || cmd == Some("record_output"@) || cmd == Some("recording_thumb"@)
                ==> read is Ok
            &&& cmd == Some("replace"@) ==> (read is Ok <==> value.text_at("media"@) == Some(
                "image"@,
            ) || value.text_at("media"@) == Some("video"@))
            &&& cmd == Some("record"@) ==> (read is Ok <==> coordinate(value, "x"@) is Ok
                && coordinate(value, "y"@) is Ok && dimension(value, "w"@) is Ok && dimension(
                value,
                "h"@,
            ) is Ok)
            &&& cmd is None ==> read is Err
            &&& read matches Err(error) ==> error.kind == ErrorKind::InvalidData
        }),
{
    reveal_strlit("add");
    reveal_strlit("add_video");
    reveal_strlit("replace");
    reveal_strlit("reload");
    reveal_strlit("ping");
    reveal_strlit("recording_status");
    reveal_strlit("recording_watch");
    reveal_strlit("recording_show_controls");
    reveal_strlit("recording_control");
    reveal_strlit("record_default");
    reveal_strlit("stop");
    reveal_strlit("record");
    reveal_strlit("record_output");
    reveal_strlit("record_outputs");
    reveal_strlit("recording_thumb");
    assert("add"@.len() == 3);
    assert("add_video"@.len() == 9);
    assert("replace"@.len() == 7);
    assert("reload"@.len() == 6);
    assert("ping"@.len() == 4);
    assert("recording_status"@.len() == 16);
    assert("recording_watch"@.len() == 15);
    assert("recording_show_controls"@.len() == 23);
    assert("recording_control"@.len() == 17);
    assert("record_default"@.len() == 14);
    assert("stop"@.len() == 4);
    assert("record"@.len() == 6);
    assert("record_output"@.len() == 13);
    assert("record_outputs"@.len() == 14);
    assert("recording_thumb"@.len() == 15);
    assert("reload"@[2] != "record"@[2]);
    assert("ping"@[0] != "stop"@[0]);
    assert("recording_watch"@[10] != "recording_thumb"@[10]);
    assert("record_default"@[7] != "record_outputs"@[7]);
}

/// What an answer is made of: one that grants has no error, and one that refuses has only that.
pub proof fn lemma_answers(
    snapshot: Option<RecordingSnapshot>,
    granted: Response,
    path: String,
    placed: Response,
    error: &str,
    refused: Response,
    nothing: RecordingSnapshot,
)
    requires
        call_ensures(Response::ok, (snapshot,), granted),
        call_ensures(Response::ok_path, (path,), placed),
        call_ensures(Response::error, (error,), refused),
        call_ensures(RecordingSnapshot::idle, (), nothing),
    ensures
        granted.ok && granted.error is None && granted.snapshot == snapshot && granted.path is None,
        placed.ok && placed.error is None && placed.snapshot is None && placed.path == Some(path),
        !refused.ok && refused@.error == Some(error@) && refused.snapshot is None && refused.path
            is None,
        nothing.state == PublicRecordingState::Idle && nothing.elapsed_ms == 0 && nothing.scope@
            == "none"@ && nothing.outputs@.len() == 0 && !nothing.actions_enabled && nothing.error
            is None,
{
}

/// What is received is what the frame holds: its header is read as a document, and an answer has no
/// payload.
pub proof fn lemma_received(bytes: Seq<u8>)
    ensures
        unframed(bytes) matches Err(error) ==> RequestView::received(bytes) == Err::<
            RequestView,
            WireErrorView,
        >(error) && ResponseView::received(bytes) == Err::<ResponseView, WireErrorView>(error),
        unframed(bytes) matches Ok((header, payload)) ==> {
            &&& crate::json::parsed_json(header) matches Parsed::Document(document) ==> {
                &&& RequestView::received(bytes) == RequestView::described(document, payload)
                &&& payload.len() == 0 ==> ResponseView::received(bytes) == ResponseView::described(
                    document,
                )
            }
            &&& crate::json::parsed_json(header) is Refused ==> RequestView::received(bytes) is Err
                && ResponseView::received(bytes) is Err
            &&& payload.len() > 0 ==> ResponseView::received(bytes) is Err
        },
{
}

/// A place is any whole number that fits, and a size one above zero.
pub proof fn lemma_numbers_read(value: DocumentView, name: Seq<char>, number: int)
    requires
        value.field(name) == Some(DocumentView::Number(number)),
    ensures
        coordinate(value, name) is Ok <==> i32::MIN <= number <= i32::MAX,
        coordinate(value, name) matches Ok(read) ==> read == number,
        dimension(value, name) is Ok <==> 1 <= number <= u32::MAX,
        dimension(value, name) matches Ok(read) ==> read == number,
{
}

} // verus!
