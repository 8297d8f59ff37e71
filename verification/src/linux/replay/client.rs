//! Requests to the replay, and what is made of the answers.
use vstd::prelude::*;
use vstd::string::StringExecFns;

use crate::document::{Document, DocumentView};
use crate::picture::read_png_within;
use crate::pixels::{Image, Rgba};
use crate::text::{push_word, same};

verus! {

/// What is shown of a command that is not understood.
pub const USAGE: &'static str = "usage: boltsnap replay start|stop|status|save";

/// How much memory a preview may take.
pub const PREVIEW_MEMORY: u64 = 268_435_456;

/// The request of a command.
pub open spec fn request_view(command: Seq<char>) -> DocumentView {
    DocumentView::Object(
        Map::empty().insert("version"@, DocumentView::Number(1)).insert(
            "command"@,
            DocumentView::Text(command),
        ),
    )
}

/// The request of a command.
pub fn request(command: &str) -> (r: Document)
    ensures
        r is Object,
        r@ == request_view(command@),
        forall|depth: nat| depth > 0 ==> #[trigger] r.plain(depth),
{
    Document::object().with("version", Document::Unsigned(1)).with(
        "command",
        Document::text(command),
    )
}

/// How many seconds an answer may take.
pub open spec fn patience(request: DocumentView) -> u64 {
    match request.text_at("command"@) {
        Some(command) => if command == "save"@ {
            1900
        } else if command == "start"@ {
            120
        } else if command == "freeze"@ {
            15
        } else {
            5
        },
        None => 5,
    }
}

/// How many seconds an answer may take.
pub fn timeout(request: &Document) -> (r: u64)
    ensures
        r == patience(request@),
{
    match request.text_at("command") {
        Some(command) => if same(command, "save") {
            1900
        } else if same(command, "start") {
            120
        } else if same(command, "freeze") {
            15
        } else {
            5
        },
        None => 5,
    }
}

/// Why an answer is a refusal.
pub open spec fn refusal(answer: DocumentView) -> Option<Seq<char>> {
    if answer.bool_at("ok"@) == Some(true) {
        None
    } else {
        match answer.text_at("error"@) {
            Some(error) => Some(error),
            None => Some("replay request failed"@),
        }
    }
}

/// Whether an answer grants the request.
pub fn granted(answer: &Document) -> (r: Result<(), String>)
    ensures
        match refusal(answer@) {
            Some(error) => r matches Err(message) && message@ == error,
            None => r is Ok,
        },
{
    match answer.bool_at("ok") {
        Some(true) => Ok(()),
        _ => match answer.text_at("error") {
            Some(error) => Err(error.to_owned()),
            None => Err("replay request failed".to_owned()),
        },
    }
}

/// The request that a command line stands for.
pub fn cli(args: &[String]) -> (r: Result<Document, String>)
    ensures
        if args@.len() == 1 && (args@[0]@ == "start"@ || args@[0]@ == "stop"@ || args@[0]@
            == "status"@ || args@[0]@ == "save"@) {
            r matches Ok(request) && request@ == request_view(args@[0]@)
        } else {
            r matches Err(message) && message@ == USAGE@
        },
{
    if args.len() == 1 {
        let command = args[0].as_str();
        if same(command, "start") || same(command, "stop") || same(command, "status") || same(
            command,
            "save",
        ) {
            return Ok(request(command));
        }
    }
    Err(USAGE.to_owned())
}

/// The words that tell the user of an error.
pub fn notification(error: &str) -> (r: Vec<String>)
    ensures
        crate::text::views(r@) == seq!["Boltsnap replay"@, error@],
{
    let mut words: Vec<String> = Vec::new();
    push_word(&mut words, "Boltsnap replay");
    push_word(&mut words, error);
    proof {
        assert(crate::text::views(words@) =~= seq!["Boltsnap replay"@, error@]);
    }
    words
}

/// The output and the session that a preview can be asked of.
#[derive(Clone, Debug, PartialEq, Eq)]
pub struct PreviewTarget {
    pub output: String,
    pub session: String,
}

/// What a preview can be asked of, given the replay's status: an output that is recorded and not
/// at work.
pub fn preview_target(status: &Document) -> (r: Option<PreviewTarget>)
    ensures
        ({
            let free = status@.bool_at("ok"@) == Some(true) && status@.bool_at("ready"@) == Some(
                true,
            ) && status@.bool_at("busy"@) != Some(true);
            match (status@.text_at("output"@), status@.text_at("session"@)) {
                (Some(output), Some(session)) if free => r matches Some(target) && target.output@
                    == output && target.session@ == session,
                _ => r is None,
            }
        }),
{
    match (status.bool_at("ok"), status.bool_at("ready")) {
        (Some(true), Some(true)) => {},
        _ => {
            return None;
        },
    }
    match status.bool_at("busy") {
        Some(true) => {
            return None;
        },
        _ => {},
    }
    match (status.text_at("output"), status.text_at("session")) {
        (Some(output), Some(session)) => Some(
            PreviewTarget { output: output.to_owned(), session: session.to_owned() },
        ),
        _ => None,
    }
}

/// A selection that the replay holds.
pub struct FrozenSelection {
    pub id: u64,
    pub session: String,
    pub output: String,
    pub preview: Option<Image<Rgba>>,
    pub width: u32,
    pub height: u32,
}

/// What the answer to a request for a selection says of it.
pub struct SelectionView {
    pub id: u64,
    pub session: Seq<char>,
    pub output: Seq<char>,
    pub width: u32,
    pub height: u32,
}

/// What the answer to a request for a selection says of it.
pub open spec fn selection_in(answer: DocumentView) -> Option<SelectionView> {
    match (
        answer.u64_at("snapshot"@),
        answer.text_at("session"@),
        answer.text_at("output"@),
        answer.u64_at("width"@),
        answer.u64_at("height"@),
    ) {
        (Some(id), Some(session), Some(output), Some(width), Some(height)) => if width <= u32::MAX
            && height <= u32::MAX {
            Some(
                SelectionView { id, session, output, width: width as u32, height: height as u32 },
            )
        } else {
            None
        },
        _ => None,
    }
}

impl FrozenSelection {
    /// The request for a selection of what is recorded.
    pub fn freeze_request(target: &PreviewTarget) -> (r: Document)
        ensures
            r@ == DocumentView::Object(
                request_view("freeze"@)->Object_0.insert(
                    "session"@,
                    DocumentView::Text(target.session@),
                ),
            ),
    {
        request("freeze").with("session", Document::text(target.session.as_str()))
    }

    /// The selection that an answer and the preview behind it give. A preview that is not as large
    /// as the answer says is no preview.
    pub fn prepare(answer: &Document, preview: &[u8]) -> (r: Option<FrozenSelection>)
        ensures
            match selection_in(answer@) {
                None => r is None,
                Some(selection) => match crate::picture::limited_picture(
                    preview@,
                    selection.width,
                    selection.height,
                    PREVIEW_MEMORY,
                ) {
                    Some(picture) if picture.width == selection.width && picture.height
                        == selection.height => {
                        &&& r matches Some(frozen)
                        &&& frozen.id == selection.id
                        &&& frozen.session@ == selection.session
                        &&& frozen.output@ == selection.output
                        &&& frozen.width == selection.width
                        &&& frozen.height == selection.height
                        &&& crate::picture::reads(Some(picture), frozen.preview)
                    },
                    _ => r is None,
                },
            },
    {
        let id: u64 = match answer.u64_at("snapshot") {
            Some(id) => id,
            None => {
                return None;
            },
        };
        let session = match answer.text_at("session") {
            Some(session) => session.to_owned(),
            None => {
                return None;
            },
        };
        let output = match answer.text_at("output") {
            Some(output) => output.to_owned(),
            None => {
                return None;
            },
        };
        let (width, height): (u64, u64) = match (answer.u64_at("width"), answer.u64_at("height")) {
            (Some(width), Some(height)) => (width, height),
            _ => {
                return None;
            },
        };
        if width > u32::MAX as u64 || height > u32::MAX as u64 {
            return None;
        }
        let width: u32 = width as u32;
        let height: u32 = height as u32;
        match read_png_within(preview, width, height, PREVIEW_MEMORY) {
            Some(image) => {
                if image.width != width || image.height != height {
                    return None;
                }
                Some(FrozenSelection { id, session, output, preview: Some(image), width, height })
            },
            None => None,
        }
    }

    /// The request to save a part of the selection.
    pub fn save_request(&self, x: u32, y: u32, width: u32, height: u32) -> (r: Document)
        ensures
            r@ == DocumentView::Object(
                request_view("save"@)->Object_0.insert(
                    "snapshot"@,
                    DocumentView::Number(self.id as int),
                ).insert("session"@, DocumentView::Text(self.session@)).insert(
                    "crop"@,
                    DocumentView::Object(
                        Map::empty().insert("x"@, DocumentView::Number(x as int)).insert(
                            "y"@,
                            DocumentView::Number(y as int),
                        ).insert("width"@, DocumentView::Number(width as int)).insert(
                            "height"@,
                            DocumentView::Number(height as int),
                        ),
                    ),
                ),
            ),
    {
        let crop = Document::object().with("x", Document::Unsigned(x as u64)).with(
            "y",
            Document::Unsigned(y as u64),
        ).with("width", Document::Unsigned(width as u64)).with(
            "height",
            Document::Unsigned(height as u64),
        );
        request("save").with("snapshot", Document::Unsigned(self.id)).with(
            "session",
            Document::text(self.session.as_str()),
        ).with("crop", crop)
    }

    /// The request to give the selection up.
    pub fn cancel_request(&self) -> (r: Document)
        ensures
            r@ == DocumentView::Object(
                request_view("cancel"@)->Object_0.insert(
                    "snapshot"@,
                    DocumentView::Number(self.id as int),
                ).insert("session"@, DocumentView::Text(self.session@)),
            ),
    {
        request("cancel").with("snapshot", Document::Unsigned(self.id)).with(
            "session",
            Document::text(self.session.as_str()),
        )
    }
}

/// A request tells its version and its command; how long its answer may take depends on the command
/// alone.
pub proof fn lemma_request(command: &str, asked: Document, patience: u64)
    requires
        call_ensures(request, (command,), asked),
        call_ensures(timeout, (&asked,), patience),
    ensures
        asked@.field("version"@) == Some(DocumentView::Number(1)),
        asked@.field("command"@) == Some(DocumentView::Text(command@)),
        patience == 1900 <==> command@ == "save"@,
        patience == 120 <==> command@ == "start"@,
        patience == 15 <==> command@ == "freeze"@,
        patience == 5 <==> command@ != "save"@ && command@ != "start"@ && command@ != "freeze"@,
{
    reveal_strlit("version");
    reveal_strlit("command");
    reveal_strlit("save");
    reveal_strlit("start");
    reveal_strlit("freeze");
    assert("version"@.len() == 7);
    assert("command"@.len() == 7);
    assert("save"@.len() == 4);
    assert("start"@.len() == 5);
    assert("freeze"@.len() == 6);
    assert("version"@[0] != "command"@[0]);
}

/// A request is granted only where the answer says so; otherwise its error is told where it has one.
pub proof fn lemma_granted(answer: &Document, r: Result<(), String>)
    requires
        call_ensures(granted, (answer,), r),
    ensures
        r is Ok <==> answer@.field("ok"@) == Some(DocumentView::Bool(true)),
        r is Err ==> (answer@.text_at("error"@) matches Some(error) ==> r->Err_0@ == error),
{
}

/// One of four commands is asked for, and what is asked is that command.
pub proof fn lemma_cli(args: &[String], asked: Result<Document, String>)
    requires
        call_ensures(cli, (args,), asked),
    ensures
        asked is Ok ==> args@.len() == 1,
        args@.len() == 1 ==> (asked is Ok <==> crate::text::is_among(
            seq!["start"@, "stop"@, "status"@, "save"@],
            args@[0]@,
        )),
        asked matches Ok(request) ==> request@.field("command"@) == Some(
            DocumentView::Text(args@[0]@),
        ) && request@.field("version"@) == Some(DocumentView::Number(1)),
{
    reveal_strlit("version");
    reveal_strlit("command");
    assert("version"@.len() == 7);
    assert("command"@.len() == 7);
    assert("version"@[0] != "command"@[0]);
    if args@.len() == 1 {
        let names = seq!["start"@, "stop"@, "status"@, "save"@];
        if args@[0]@ == "start"@ {
            assert(names[0] == args@[0]@);
        } else if args@[0]@ == "stop"@ {
            assert(names[1] == args@[0]@);
        } else if args@[0]@ == "status"@ {
            assert(names[2] == args@[0]@);
        } else if args@[0]@ == "save"@ {
            assert(names[3] == args@[0]@);
        }
    }
}

/// A preview is taken of the output and the session that replay runs on, where it is ready and free.
pub proof fn lemma_preview_target(status: &Document, target: Option<PreviewTarget>)
    requires
        call_ensures(preview_target, (status,), target),
    ensures
        target is Some <==> {
            &&& status@.field("ok"@) == Some(DocumentView::Bool(true))
            &&& status@.field("ready"@) == Some(DocumentView::Bool(true))
            &&& status@.field("busy"@) != Some(DocumentView::Bool(true))
            &&& status@.text_at("output"@) is Some
            &&& status@.text_at("session"@) is Some
        },
        target matches Some(target) ==> status@.field("output"@) == Some(
            DocumentView::Text(target.output@),
        ) && status@.field("session"@) == Some(DocumentView::Text(target.session@)),
{
}

/// What is frozen is what the answer tells, each part in the field of its name.
pub proof fn lemma_selection_in(answer: DocumentView)
    ensures
        selection_in(answer) matches Some(selection) ==> {
            &&& answer.field("snapshot"@) == Some(DocumentView::Number(selection.id as int))
            &&& answer.field("session"@) == Some(DocumentView::Text(selection.session))
            &&& answer.field("output"@) == Some(DocumentView::Text(selection.output))
            &&& answer.field("width"@) == Some(DocumentView::Number(selection.width as int))
            &&& answer.field("height"@) == Some(DocumentView::Number(selection.height as int))
        },
        selection_in(answer) is Some <==> {
            &&& answer.u64_at("snapshot"@) is Some
            &&& answer.text_at("session"@) is Some
            &&& answer.text_at("output"@) is Some
            &&& answer.u64_at("width"@) matches Some(width) && width <= u32::MAX
            &&& answer.u64_at("height"@) matches Some(height) && height <= u32::MAX
        },
{
}

/// A frozen selection is of the snapshot that the answer tells, and its preview has the size that
/// the answer tells.
pub proof fn lemma_prepared(answer: &Document, preview: &[u8], frozen: Option<FrozenSelection>)
    requires
        call_ensures(FrozenSelection::prepare, (answer, preview), frozen),
    ensures
        frozen matches Some(frozen) ==> {
            &&& answer@.field("snapshot"@) == Some(DocumentView::Number(frozen.id as int))
            &&& answer@.field("session"@) == Some(DocumentView::Text(frozen.session@))
            &&& answer@.field("output"@) == Some(DocumentView::Text(frozen.output@))
            &&& answer@.field("width"@) == Some(DocumentView::Number(frozen.width as int))
            &&& answer@.field("height"@) == Some(DocumentView::Number(frozen.height as int))
            &&& frozen.preview matches Some(image) && image.width == frozen.width && image.height
                == frozen.height
        },
{
    lemma_selection_in(answer@);
}

/// What is asked of a frozen selection names its snapshot and its session; a crop is told by the
/// fields of its place and its size.
pub proof fn lemma_selection_requests(
    frozen: &FrozenSelection,
    target: &PreviewTarget,
    x: u32,
    y: u32,
    width: u32,
    height: u32,
    freeze: Document,
    save: Document,
    cancel: Document,
)
    requires
        call_ensures(FrozenSelection::freeze_request, (target,), freeze),
        call_ensures(FrozenSelection::save_request, (frozen, x, y, width, height), save),
        call_ensures(FrozenSelection::cancel_request, (frozen,), cancel),
    ensures
        freeze@.field("command"@) == Some(DocumentView::Text("freeze"@)),
        freeze@.field("session"@) == Some(DocumentView::Text(target.session@)),
        freeze@.field("version"@) == Some(DocumentView::Number(1)),
        save@.field("command"@) == Some(DocumentView::Text("save"@)),
        save@.field("version"@) == Some(DocumentView::Number(1)),
        save@.field("snapshot"@) == Some(DocumentView::Number(frozen.id as int)),
        save@.field("session"@) == Some(DocumentView::Text(frozen.session@)),
        save@.field("crop"@) matches Some(crop) && crop.field("x"@) == Some(
            DocumentView::Number(x as int),
        ) && crop.field("y"@) == Some(DocumentView::Number(y as int)) && crop.field("width"@)
            == Some(DocumentView::Number(width as int)) && crop.field("height"@) == Some(
            DocumentView::Number(height as int),
        ),
        cancel@.field("command"@) == Some(DocumentView::Text("cancel"@)),
        cancel@.field("version"@) == Some(DocumentView::Number(1)),
        cancel@.field("snapshot"@) == Some(DocumentView::Number(frozen.id as int)),
        cancel@.field("session"@) == Some(DocumentView::Text(frozen.session@)),
{
    reveal_strlit("version");
    reveal_strlit("command");
    reveal_strlit("session");
    reveal_strlit("snapshot");
    reveal_strlit("crop");
    reveal_strlit("x");
    reveal_strlit("y");
    reveal_strlit("width");
    reveal_strlit("height");
    assert("version"@.len() == 7);
    assert("command"@.len() == 7);
    assert("session"@.len() == 7);
    assert("snapshot"@.len() == 8);
    assert("crop"@.len() == 4);
    assert("x"@.len() == 1);
    assert("y"@.len() == 1);
    assert("width"@.len() == 5);
    assert("height"@.len() == 6);
    assert("version"@[0] != "command"@[0]);
    assert("version"@[0] != "session"@[0]);
    assert("command"@[0] != "session"@[0]);
    assert("x"@[0] != "y"@[0]);
}

} // verus!
