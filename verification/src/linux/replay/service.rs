//! The service that starts and stops the replay and hands requests on to its worker.
use vstd::prelude::*;
use vstd::string::StringExecFns;

use crate::document::{Document, DocumentView};
use crate::text::{joined, same};

verus! {

/// How many requests are served at a time.
pub const MAX_ACTIVE: usize = 8;

/// The requests that are being served.
pub struct Connections {
    pub active: usize,
}

/// What is done about a new connection.
#[derive(Clone, Copy, Debug, PartialEq, Eq, Structural)]
pub enum Admission {
    /// The service ends.
    Stop,
    /// The connection is dropped.
    Drop,
    Serve,
}

impl Connections {
    /// No more requests are served than may be.
    pub open spec fn well_formed(&self) -> bool {
        self.active <= MAX_ACTIVE
    }

    /// Nothing is being served.
    pub fn new() -> (r: Self)
        ensures
            r.active == 0,
            r.well_formed(),
    {
        Connections { active: 0 }
    }

    /// What is done about a new connection. One that cannot be configured is dropped.
    pub fn connected(&mut self, stopping: bool, configured: bool) -> (r: Admission)
        requires
            old(self).well_formed(),
        ensures
            final(self).well_formed(),
            r == (if stopping {
                Admission::Stop
            } else if !configured || old(self).active == MAX_ACTIVE {
                Admission::Drop
            } else {
                Admission::Serve
            }),
            final(self).active == (if r == Admission::Serve {
                old(self).active + 1
            } else {
                old(self).active as int
            }),
            r == Admission::Serve <==> !stopping && configured && old(self).active < 8,
            r == Admission::Stop <==> stopping,
            r != Admission::Serve ==> final(self).active == old(self).active,
    {
        if stopping {
            Admission::Stop
        } else if !configured || self.active >= MAX_ACTIVE {
            Admission::Drop
        } else {
            self.active = self.active + 1;
            Admission::Serve
        }
    }

    /// A request was served.
    pub fn served(&mut self)
        requires
            old(self).active > 0,
            old(self).well_formed(),
        ensures
            final(self).active == old(self).active - 1,
            final(self).well_formed(),
    {
        self.active = self.active - 1;
    }
}

/// A replay that runs.
#[derive(Clone, Debug, PartialEq, Eq)]
pub struct Session {
    /// The name of the worker's socket.
    pub name: String,
    pub output: String,
    /// How large a clip may become.
    pub output_limit: u64,
}

/// What the service knows of the replay.
pub struct Control {
    pub session: Option<Session>,
    pub starting: bool,
    pub cancel_start: bool,
}

/// Where a request goes.
pub enum Route {
    Answer(Document),
    Forward { name: String, output: String, output_limit: u64 },
}

/// What a [`Route`] says.
pub enum RouteView {
    Answer(DocumentView),
    Forward { name: Seq<char>, output: Seq<char>, output_limit: u64 },
}

impl Route {
    /// Where the request goes.
    pub open spec fn view(&self) -> RouteView {
        match self {
            Route::Answer(answer) => RouteView::Answer(answer@),
            Route::Forward { name, output, output_limit } => RouteView::Forward {
                name: name@,
                output: output@,
                output_limit: *output_limit,
            },
        }
    }
}

/// Whether a replay really records: two processes that run are not enough, as the capture program
/// can lose its picture and keep its sound. `status` is what the worker says of itself.
pub fn is_capturing(capture_alive: bool, worker_alive: bool, status: Option<&Document>) -> (r: bool)
    ensures
        r == (capture_alive && worker_alive && (status matches Some(status) && status@.bool_at(
            "ready"@,
        ) == Some(true))),
{
    match status {
        Some(status) => match status.bool_at("ready") {
            Some(true) => capture_alive && worker_alive,
            _ => false,
        },
        None => false,
    }
}

impl Control {
    /// What is said where no replay runs.
    pub open spec fn idle_status(&self) -> DocumentView {
        DocumentView::Object(
            Map::empty().insert("ok"@, DocumentView::Bool(true)).insert(
                "ready"@,
                DocumentView::Bool(false),
            ).insert(
                "state"@,
                DocumentView::Text(
                    if self.starting {
                        "starting"@
                    } else {
                        "stopped"@
                    },
                ),
            ),
        )
    }

    /// Where a request goes that neither starts nor stops the replay.
    pub open spec fn routed(&self, command: Seq<char>, request: DocumentView) -> Result<
        RouteView,
        Seq<char>,
    > {
        match self.session {
            None => if command == "status"@ {
                Ok(RouteView::Answer(self.idle_status()))
            } else {
                Err("replay is stopped; start it from the tray first"@)
            },
            Some(session) => if request.field("session"@) is Some && request.text_at("session"@)
                != Some(session.name@) {
                Err("replay session changed; open the selector again"@)
            } else {
                Ok(
                    RouteView::Forward {
                        name: session.name@,
                        output: session.output@,
                        output_limit: session.output_limit,
                    },
                )
            },
        }
    }

    /// No replay runs and none is starting.
    pub fn new() -> (r: Self)
        ensures
            r.session is None,
            !r.starting,
            !r.cancel_start,
    {
        Control { session: None, starting: false, cancel_start: false }
    }

    /// Whether a replay is held.
    pub fn running(&self) -> (r: bool)
        ensures
            r == (self.session is Some),
    {
        self.session.is_some()
    }

    /// Begins a start. `capturing` says of the replay that is held whether it really records;
    /// `settings` says whether the settings can be read. A replay that no longer records gives way.
    pub fn begin_start(
        &mut self,
        capturing: Result<bool, String>,
        settings: Result<(), String>,
    ) -> (r: Result<(), String>)
        ensures
            if old(self).starting {
                &&& r matches Err(message) && message@ == "replay is already starting or stopping"@
                &&& *final(self) == *old(self)
            } else if old(self).session is Some && capturing is Err {
                &&& r == Err::<(), String>(capturing->Err_0)
                &&& *final(self) == *old(self)
            } else if old(self).session is Some && capturing == Ok::<bool, String>(true) {
                &&& r matches Err(message) && message@ == "replay is already running"@
                &&& *final(self) == *old(self)
            } else if settings is Err {
                &&& r == settings
                &&& *final(self) == (Control { session: None, ..*old(self) })
            } else {
                &&& r is Ok
                &&& *final(self) == (Control { session: None, starting: true, cancel_start: false })
            },
            r is Ok <==> !old(self).starting && settings is Ok && (old(self).session is None || capturing
                == Ok::<bool, String>(false)),
            r is Ok ==> final(self).starting && !final(self).cancel_start && final(self).session is None,
            r is Err ==> final(self).starting == old(self).starting,
    {
        if self.starting {
            return Err("replay is already starting or stopping".to_owned());
        }
        if self.session.is_some() {
            match capturing {
                Err(message) => {
                    return Err(message);
                },
                Ok(capturing) => {
                    if capturing {
                        return Err("replay is already running".to_owned());
                    }
                },
            }
            self.session = None;
        }
        match settings {
            Err(message) => {
                return Err(message);
            },
            Ok(_) => {},
        }
        self.starting = true;
        self.cancel_start = false;
        Ok(())
    }

    /// Ends a start. One that was cancelled meanwhile holds nothing.
    pub fn end_start(&mut self, started: Result<Session, String>) -> (r: Result<(), String>)
        ensures
            !final(self).starting,
            final(self).cancel_start == old(self).cancel_start,
            if old(self).cancel_start {
                &&& r matches Err(message) && message@ == "replay start cancelled"@
                &&& final(self).session == old(self).session
            } else {
                match started {
                    Ok(session) => r is Ok && final(self).session == Some(session),
                    Err(message) => {
                        &&& r == Err::<(), String>(message)
                        &&& final(self).session == old(self).session
                    },
                }
            },
            r is Ok <==> !old(self).cancel_start && started is Ok,
            r is Ok ==> final(self).session == Some(started->Ok_0),
            r is Err ==> final(self).session == old(self).session,
    {
        self.starting = false;
        if self.cancel_start {
            return Err("replay start cancelled".to_owned());
        }
        match started {
            Ok(session) => {
                self.session = Some(session);
                Ok(())
            },
            Err(message) => Err(message),
        }
    }

    /// Stops the replay, and one that is starting. What was held is handed out to be ended.
    pub fn stop(&mut self) -> (r: Option<Session>)
        ensures
            r == old(self).session,
            final(self).session is None,
            final(self).cancel_start,
            final(self).starting == old(self).starting,
    {
        self.cancel_start = true;
        self.session.take()
    }

    /// Where a request goes that neither starts nor stops the replay.
    pub fn route(&self, command: &str, request: &Document) -> (r: Result<Route, String>)
        ensures
            self.routed(command@, request@) == (match r {
                Ok(route) => Ok(route@),
                Err(message) => Err(message@),
            }),
    {
        match &self.session {
            None => {
                if same(command, "status") {
                    let state = if self.starting {
                        "starting"
                    } else {
                        "stopped"
                    };
                    Ok(
                        Route::Answer(
                            Document::object().with("ok", Document::Bool(true)).with(
                                "ready",
                                Document::Bool(false),
                            ).with("state", Document::text(state)),
                        ),
                    )
                } else {
                    Err("replay is stopped; start it from the tray first".to_owned())
                }
            },
            Some(session) => {
                if request.get("session").is_some() {
                    let named = match request.text_at("session") {
                        Some(name) => same(name, session.name.as_str()),
                        None => false,
                    };
                    if !named {
                        return Err("replay session changed; open the selector again".to_owned());
                    }
                }
                Ok(
                    Route::Forward {
                        name: session.name.as_str().to_owned(),
                        output: session.output.as_str().to_owned(),
                        output_limit: session.output_limit,
                    },
                )
            },
        }
    }

    /// Takes the session `name` away because it no longer records, and begins a start in its
    /// place. Nothing happens where another session is held by now.
    pub fn begin_replace(&mut self, name: &str) -> (r: Option<Session>)
        ensures
            match old(self).session {
                Some(session) if session.name@ == name@ => {
                    &&& r == Some(session)
                    &&& *final(self) == (Control {
                        session: None,
                        starting: true,
                        cancel_start: false,
                    })
                },
                _ => r is None && *final(self) == *old(self),
            },
            r matches Some(session) ==> session.name@ == name@ && old(self).session == r
                && final(self).session is None && final(self).starting,
            r is None ==> final(self).session == old(self).session,
            old(self).session is Some && old(self).session->Some_0.name@ == name@ ==> r is Some,
    {
        let held = match &self.session {
            Some(session) => same(session.name.as_str(), name),
            None => false,
        };
        if !held {
            return None;
        }
        self.starting = true;
        self.cancel_start = false;
        self.session.take()
    }

    /// Ends a start that took a session's place, and says what is to be shown to the user.
    pub fn end_replace(&mut self, started: Result<Session, String>) -> (r: Option<String>)
        ensures
            !final(self).starting,
            final(self).cancel_start == old(self).cancel_start,
            if old(self).cancel_start {
                r is None && final(self).session == old(self).session
            } else {
                match started {
                    Ok(session) => r is None && final(self).session == Some(session),
                    Err(error) => {
                        &&& r matches Some(message) && message@
                            == "replay capture stopped and could not restart: "@ + error@
                        &&& final(self).session == old(self).session
                    },
                }
            },
            r is Some <==> !old(self).cancel_start && started is Err,
            !old(self).cancel_start && started is Ok ==> final(self).session == Some(started->Ok_0),
    {
        self.starting = false;
        if self.cancel_start {
            return None;
        }
        match started {
            Ok(session) => {
                self.session = Some(session);
                None
            },
            Err(error) => Some(
                joined("replay capture stopped and could not restart: ", error.as_str()),
            ),
        }
    }
}

/// The worker's answer as it is handed on: it says which output and which session it is of, and of
/// a status whether pictures still arrive.
pub open spec fn handed_on(
    command: Seq<char>,
    answer: Map<Seq<char>, DocumentView>,
    name: Seq<char>,
    output: Seq<char>,
) -> DocumentView {
    let fields = answer.insert("output"@, DocumentView::Text(output)).insert(
        "session"@,
        DocumentView::Text(name),
    );
    if command == "status"@ {
        let ready = DocumentView::Object(answer).bool_at("ready"@) == Some(true);
        DocumentView::Object(
            fields.insert(
                "state"@,
                DocumentView::Text(
                    if ready {
                        "running"@
                    } else {
                        "stalled"@
                    },
                ),
            ),
        )
    } else {
        DocumentView::Object(fields)
    }
}

/// The worker's answer as it is handed on.
pub fn hand_on(command: &str, answer: Document, name: &str, output: &str) -> (r: Document)
    requires
        answer is Object,
    ensures
        r is Object,
        r@ == handed_on(command@, answer@->Object_0, name@, output@),
{
    let ready = match answer.bool_at("ready") {
        Some(true) => true,
        _ => false,
    };
    let handed = answer.with("output", Document::text(output)).with(
        "session",
        Document::text(name),
    );
    if same(command, "status") {
        let state = if ready {
            "running"
        } else {
            "stalled"
        };
        handed.with("state", Document::text(state))
    } else {
        handed
    }
}

/// The number of a byte in a document.
pub open spec fn byte_in(item: DocumentView) -> Option<u8> {
    match item {
        DocumentView::Number(value) if 0 <= value <= 255 => Some(value as u8),
        _ => None,
    }
}

/// The bytes that an array lists.
pub open spec fn bytes_in(items: Seq<DocumentView>) -> Option<Seq<u8>> {
    if forall|i: int| 0 <= i < items.len() ==> byte_in(#[trigger] items[i]) is Some {
        Some(Seq::new(items.len(), |i: int| byte_in(items[i])->Some_0))
    } else {
        None
    }
}

/// The end of the part of a path that begins at `at`.
pub open spec fn part_end(path: Seq<u8>, at: int) -> int
    decreases path.len() - at,
{
    if at < 0 || at >= path.len() || path[at] == 0x2f {
        at
    } else {
        part_end(path, at + 1)
    }
}

/// A part of a path that names something: repeated separators, and `.` behind the first part, do
/// not.
pub open spec fn names_something(part: Seq<u8>, at: int) -> bool {
    part.len() > 0 && !(at > 0 && part == seq![0x2eu8])
}

/// The end of a part lies in the path.
pub proof fn lemma_part_end(path: Seq<u8>, at: int)
    requires
        0 <= at <= path.len(),
    ensures
        at <= part_end(path, at) <= path.len(),
    decreases path.len() - at,
{
    if at < path.len() && path[at] != 0x2f {
        lemma_part_end(path, at + 1);
    }
}

/// The parts of a path from `at` on that name something.
pub open spec fn parts_from(path: Seq<u8>, at: int) -> Seq<Seq<u8>>
    decreases path.len() + 1 - at,
{
    if at < 0 || at >= path.len() {
        Seq::empty()
    } else {
        let end = part_end(path, at);
        proof {
            lemma_part_end(path, at);
        }
        let part = path.subrange(at, end);
        let rest = parts_from(path, end + 1);
        if names_something(part, at) {
            seq![part] + rest
        } else {
            rest
        }
    }
}

/// The path begins at the root.
pub open spec fn rooted(path: Seq<u8>) -> bool {
    path.len() > 0 && path[0] == 0x2f
}

/// `path` stands directly in `directory`.
pub open spec fn is_in(path: Seq<u8>, directory: Seq<u8>) -> bool {
    let parts = parts_from(path, 0);
    &&& parts.len() > 0
    &&& parts.drop_last() == parts_from(directory, 0)
    &&& rooted(path) == rooted(directory)
}

/// The name of a clip: anything before `.mkv`.
pub open spec fn is_clip_name(name: Seq<u8>) -> bool {
    name.len() > 4 && name.skip(name.len() - 4) == seq![0x2eu8, 0x6d, 0x6b, 0x76]
}

/// The path in the worker's answer about a clip.
pub open spec fn clip_in(answer: DocumentView, directory: Seq<u8>) -> Result<Seq<u8>, Seq<char>> {
    match answer.field("path_bytes"@) {
        Some(DocumentView::Array(items)) => match bytes_in(items) {
            None => Err("invalid clip path byte"@),
            Some(path) => if is_in(path, directory) && is_clip_name(parts_from(path, 0).last()) {
                Ok(path)
            } else {
                Err("clip response is outside the recording cache"@)
            },
        },
        _ => Err("clip response has no native path"@),
    }
}

/// Whether two runs of bytes are the same.
fn same_bytes(a: &Vec<u8>, b: &Vec<u8>) -> (r: bool)
    ensures
        r == (a@ == b@),
{
    if a.len() != b.len() {
        return false;
    }
    let mut i: usize = 0;
    while i < a.len()
        invariant
            a.len() == b.len(),
            i <= a.len(),
            forall|j: int| 0 <= j < i ==> a@[j] == b@[j],
        decreases a.len() - i,
    {
        if a[i] != b[i] {
            return false;
        }
        i = i + 1;
    }
    proof {
        assert(a@ =~= b@);
    }
    true
}

/// What runs of bytes hold.
pub open spec fn byte_views(parts: Seq<Vec<u8>>) -> Seq<Seq<u8>> {
    Seq::new(parts.len(), |i: int| parts[i]@)
}

/// The parts of a path that name something.
fn path_parts(path: &[u8]) -> (r: Vec<Vec<u8>>)
    ensures
        byte_views(r@) == parts_from(path@, 0),
{
    let mut parts: Vec<Vec<u8>> = Vec::new();
    let mut at: usize = 0;
    proof {
        assert(byte_views(parts@) + parts_from(path@, 0) =~= parts_from(path@, 0));
    }
    while at < path.len()
        invariant
            at <= path.len() + 1,
            byte_views(parts@) + parts_from(path@, at as int) == parts_from(path@, 0),
        decreases path.len() + 1 - at,
    {
        let mut end: usize = at;
        let mut part: Vec<u8> = Vec::new();
        while end < path.len() && path[end] != 0x2f
            invariant
                at <= end <= path.len(),
                part@ == path@.subrange(at as int, end as int),
                part_end(path@, at as int) == part_end(path@, end as int),
            decreases path.len() - end,
        {
            part.push(path[end]);
            proof {
                assert(path@.subrange(at as int, end + 1) =~= path@.subrange(
                    at as int,
                    end as int,
                ).push(path@[end as int]));
            }
            end = end + 1;
        }
        let dot = at > 0 && part.len() == 1 && part[0] == 0x2e;
        proof {
            assert(dot == (at > 0 && part@ == seq![0x2eu8])) by {
                if part@.len() == 1 && part@[0] == 0x2e {
                    assert(part@ =~= seq![0x2eu8]);
                }
            }
        }
        let ghost before = byte_views(parts@);
        if part.len() > 0 && !dot {
            let ghost named = part@;
            parts.push(part);
            proof {
                assert(byte_views(parts@) =~= before.push(named));
                assert(before.push(named) + parts_from(path@, end + 1) =~= before + parts_from(
                    path@,
                    at as int,
                ));
            }
        }
        if end == path.len() {
            proof {
                assert(parts_from(path@, end + 1) =~= Seq::empty());
                assert(byte_views(parts@) + parts_from(path@, end + 1) =~= byte_views(parts@));
            }
            return parts;
        }
        at = end + 1;
    }
    proof {
        assert(byte_views(parts@) + parts_from(path@, at as int) =~= byte_views(parts@));
    }
    parts
}

/// Whether a clip stands directly in a directory.
fn clip_stands_in(path: &Vec<u8>, directory: &[u8]) -> (r: bool)
    ensures
        r == (is_in(path@, directory@) && is_clip_name(parts_from(path@, 0).last())),
{
    let parts = path_parts(path.as_slice());
    let expected = path_parts(directory);
    let ghost views = byte_views(parts@);
    let ghost wanted = byte_views(expected@);
    let path_rooted = path.len() > 0 && path[0] == 0x2f;
    let directory_rooted = directory.len() > 0 && directory[0] == 0x2f;
    if parts.len() == 0 || path_rooted != directory_rooted || parts.len() - 1 != expected.len() {
        proof {
            if views.len() > 0 {
                assert(views.drop_last().len() == views.len() - 1);
            }
        }
        return false;
    }
    let mut i: usize = 0;
    while i < expected.len()
        invariant
            parts.len() == expected.len() + 1,
            views == byte_views(parts@),
            wanted == byte_views(expected@),
            views == parts_from(path@, 0),
            wanted == parts_from(directory@, 0),
            i <= expected.len(),
            forall|j: int| 0 <= j < i ==> views[j] == #[trigger] wanted[j],
        decreases expected.len() - i,
    {
        if !same_bytes(&parts[i], &expected[i]) {
            proof {
                assert(views.drop_last()[i as int] == parts@[i as int]@);
                assert(wanted[i as int] == expected@[i as int]@);
            }
            return false;
        }
        i = i + 1;
    }
    proof {
        assert(views.drop_last() =~= wanted);
    }
    let name = &parts[parts.len() - 1];
    proof {
        assert(views.last() == name@);
    }
    let length: usize = name.len();
    if length <= 4 {
        return false;
    }
    proof {
        let tail = name@.skip(length - 4);
        let mkv = seq![0x2eu8, 0x6d, 0x6b, 0x76];
        if name@[length - 4] == 0x2e && name@[length - 3] == 0x6d && name@[length - 2] == 0x6b
            && name@[length - 1] == 0x76 {
            assert(tail =~= mkv);
        } else {
            assert(tail[0] == name@[length - 4]);
            assert(tail[1] == name@[length - 3]);
            assert(tail[2] == name@[length - 2]);
            assert(tail[3] == name@[length - 1]);
        }
    }
    name[length - 4] == 0x2e && name[length - 3] == 0x6d && name[length - 2] == 0x6b && name[length
        - 1] == 0x76
}

/// The path of a clip that the worker saved. Only clips in the directory of recordings are taken.
pub fn clip_path(answer: &Document, directory: &[u8]) -> (r: Result<Vec<u8>, String>)
    ensures
        clip_in(answer@, directory@) == (match r {
            Ok(path) => Ok(path@),
            Err(message) => Err(message@),
        }),
{
    match answer.get("path_bytes") {
        Some(Document::Array(items)) => {
            let ghost all = crate::document::item_views(items@);
            proof {
                crate::document::lemma_item_views(items@);
            }
            let mut path: Vec<u8> = Vec::new();
            let mut i: usize = 0;
            while i < items.len()
                invariant
                    i <= items.len(),
                    path.len() == i,
                    all == crate::document::item_views(items@),
                    all.len() == items.len(),
                    forall|j: int| 0 <= j < items.len() ==> #[trigger] all[j] == items@[j]@,
                    forall|j: int| 0 <= j < i ==> byte_in(#[trigger] all[j]) == Some(path@[j]),
                    answer@.field("path_bytes"@) == Some(DocumentView::Array(all)),
                decreases items.len() - i,
            {
                let byte: Option<u8> = match &items[i] {
                    Document::Unsigned(value) => if *value <= 255 {
                        Some(*value as u8)
                    } else {
                        None
                    },
                    Document::Signed(value) => if 0 <= *value && *value <= 255 {
                        Some(*value as u8)
                    } else {
                        None
                    },
                    _ => None,
                };
                proof {
                    assert(all[i as int] == items@[i as int]@);
                    assert(byte == byte_in(all[i as int]));
                }
                match byte {
                    Some(byte) => {
                        path.push(byte);
                    },
                    None => {
                        return Err("invalid clip path byte".to_owned());
                    },
                }
                i = i + 1;
            }
            proof {
                assert(path@ =~= bytes_in(all)->Some_0);
            }
            if clip_stands_in(&path, directory) {
                Ok(path)
            } else {
                Err("clip response is outside the recording cache".to_owned())
            }
        },
        _ => Err("clip response has no native path".to_owned()),
    }
}

/// The selection that an answer was about, where the answer did not reach the one who asked: it is
/// to be cancelled.
pub fn undelivered(answer: &Document) -> (r: Option<(String, u64)>)
    ensures
        match (answer@.u64_at("snapshot"@), answer@.text_at("session"@)) {
            (Some(id), Some(name)) => r matches Some((session, snapshot)) && session@ == name
                && snapshot == id,
            _ => r is None,
        },
{
    match (answer.u64_at("snapshot"), answer.text_at("session")) {
        (Some(id), Some(name)) => Some((name.to_owned(), id)),
        _ => None,
    }
}

/// How many looks in a row a replay may fail before it is replaced.
pub const WATCHDOG_STRIKES: u32 = 3;

/// What the watchdog sees.
#[derive(Clone, Copy, Debug, PartialEq, Eq, Structural)]
pub enum Watched {
    /// A start is under way.
    Starting,
    /// No replay is held.
    Nothing,
    /// The replay is ready, or at work on a selection or a clip.
    Healthy,
    /// The replay answers neither.
    Dead,
}

/// What one look makes of the count of failed looks, and whether the replay is replaced.
pub open spec fn watched(strikes: int, look: Watched) -> (int, bool) {
    if look != Watched::Dead {
        (0, false)
    } else if strikes + 1 < WATCHDOG_STRIKES {
        (strikes + 1, false)
    } else {
        (0, true)
    }
}

/// The count of failed looks after a run of looks.
pub open spec fn strikes_after(looks: Seq<Watched>) -> int
    decreases looks.len(),
{
    if looks.len() == 0 {
        0
    } else {
        watched(strikes_after(looks.drop_last()), looks.last()).0
    }
}

/// Looks after a replay that runs.
pub struct Watchdog {
    pub strikes: u32,
}

impl Watchdog {
    /// A count that has room for a look.
    pub open spec fn well_formed(&self) -> bool {
        self.strikes < WATCHDOG_STRIKES
    }

    /// No look has failed yet.
    pub fn new() -> (r: Self)
        ensures
            r.strikes == strikes_after(Seq::empty()),
            r.well_formed(),
    {
        Watchdog { strikes: 0 }
    }

    /// Counts a look, and says whether the replay is to be replaced.
    pub fn look(&mut self, look: Watched) -> (r: bool)
        requires
            old(self).well_formed(),
        ensures
            final(self).well_formed(),
            (final(self).strikes as int, r) == watched(old(self).strikes as int, look),
    {
        match look {
            Watched::Dead => {
                if self.strikes + 1 < WATCHDOG_STRIKES {
                    self.strikes = self.strikes + 1;
                    false
                } else {
                    self.strikes = 0;
                    true
                }
            },
            _ => {
                self.strikes = 0;
                false
            },
        }
    }
}

/// What the watchdog sees of a replay that is held; `status` is what the worker says of itself.
pub fn watch(starting: bool, held: bool, status: Option<&Document>) -> (r: Watched)
    ensures
        r == (if starting {
            Watched::Starting
        } else if !held {
            Watched::Nothing
        } else if (status matches Some(status) && (status@.bool_at("ready"@) == Some(true)
            || status@.bool_at("busy"@) == Some(true))) {
            Watched::Healthy
        } else {
            Watched::Dead
        }),
{
    if starting {
        return Watched::Starting;
    }
    if !held {
        return Watched::Nothing;
    }
    match status {
        Some(status) => match (status.bool_at("ready"), status.bool_at("busy")) {
            (Some(true), _) => Watched::Healthy,
            (_, Some(true)) => Watched::Healthy,
            _ => Watched::Dead,
        },
        None => Watched::Dead,
    }
}

/// The looks that a count stands for all failed.
proof fn lemma_strikes(looks: Seq<Watched>)
    ensures
        0 <= strikes_after(looks) < WATCHDOG_STRIKES,
        strikes_after(looks) <= looks.len(),
        forall|i: int|
            looks.len() - strikes_after(looks) <= i < looks.len() ==> #[trigger] looks[i]
                == Watched::Dead,
    decreases looks.len(),
{
    if looks.len() > 0 {
        let before = looks.drop_last();
        lemma_strikes(before);
        assert forall|i: int|
            looks.len() - strikes_after(looks) <= i < looks.len() implies #[trigger] looks[i]
            == Watched::Dead by {
            if i < looks.len() - 1 {
                assert(looks[i] == before[i]);
            }
        }
    }
}

/// A replay is replaced only after it failed three looks in a row.
pub proof fn lemma_replaced_after_three(looks: Seq<Watched>)
    requires
        looks.len() > 0,
        watched(strikes_after(looks.drop_last()), looks.last()).1,
    ensures
        looks.len() >= WATCHDOG_STRIKES,
        forall|i: int|
            looks.len() - WATCHDOG_STRIKES <= i < looks.len() ==> #[trigger] looks[i]
                == Watched::Dead,
{
    let before = looks.drop_last();
    lemma_strikes(before);
    assert forall|i: int|
        looks.len() - WATCHDOG_STRIKES <= i < looks.len() implies #[trigger] looks[i]
        == Watched::Dead by {
        if i < looks.len() - 1 {
            assert(looks[i] == before[i]);
        }
    }
}

/// A replay that fails three looks in a row, after a look that did not, is replaced.
pub proof fn lemma_three_failures_replace(looks: Seq<Watched>)
    requires
        looks.len() == 0 || looks.last() != Watched::Dead,
    ensures
        ({
            let one = looks.push(Watched::Dead);
            let two = one.push(Watched::Dead);
            watched(strikes_after(two), Watched::Dead).1
        }),
{
    let one = looks.push(Watched::Dead);
    let two = one.push(Watched::Dead);
    assert(one.drop_last() =~= looks);
    assert(two.drop_last() =~= one);
    assert(strikes_after(looks) == 0);
    assert(strikes_after(one) == 1);
    assert(strikes_after(two) == 2);
}

/// Where a program of the same installation is: beside this one where it is there, and wherever
/// the shell finds it otherwise. `directory` is the one of this program; `is_file` says whether the
/// other is there.
pub fn companion_path(name: &str, directory: Option<&str>, is_file: bool) -> (r: String)
    ensures
        r@ == (match directory {
            Some(directory) if is_file => crate::paths::joined(directory@, name@),
            _ => name@,
        }),
{
    match directory {
        Some(directory) if is_file => crate::paths::join(directory, name),
        _ => name.to_owned(),
    }
}

/// A request goes to the session that runs, with its own name, output and limit, unless it was meant
/// for another; without a session only the state is told.
pub proof fn lemma_routed(control: Control, command: Seq<char>, request: DocumentView)
    ensures
        control.session is None ==> {
            &&& control.routed(command, request) is Ok <==> command == "status"@
            &&& command == "status"@ ==> (control.routed(command, request) matches Ok(
                RouteView::Answer(answer),
            ) && answer.field("ok"@) == Some(DocumentView::Bool(true)) && answer.field("ready"@)
                == Some(DocumentView::Bool(false)) && answer.field("state"@) == Some(
                DocumentView::Text(
                    if control.starting {
                        "starting"@
                    } else {
                        "stopped"@
                    },
                ),
            ))
        },
        control.session matches Some(session) ==> {
            &&& control.routed(command, request) is Ok <==> request.field("session"@) is None
                || request.field("session"@) == Some(DocumentView::Text(session.name@))
            &&& control.routed(command, request) matches Ok(route) ==> (route
                matches RouteView::Forward { name, output, output_limit } && name == session.name@
                && output == session.output@ && output_limit == session.output_limit)
        },
{
    reveal_strlit("ok");
    reveal_strlit("ready");
    reveal_strlit("state");
    assert("ok"@.len() == 2);
    assert("ready"@.len() == 5);
    assert("state"@.len() == 5);
    assert("ready"@[0] != "state"@[0]);
}

/// An answer is handed on with the output and the session that it is of, and all else as it was; a
/// state is running where it is ready, and stalled otherwise.
pub proof fn lemma_handed_on(
    command: Seq<char>,
    answer: Map<Seq<char>, DocumentView>,
    name: Seq<char>,
    output: Seq<char>,
    other: Seq<char>,
)
    ensures
        ({
            let told = handed_on(command, answer, name, output);
            &&& told.field("output"@) == Some(DocumentView::Text(output))
            &&& told.field("session"@) == Some(DocumentView::Text(name))
            &&& command == "status"@ ==> told.field("state"@) == Some(
                DocumentView::Text(
                    if DocumentView::Object(answer).field("ready"@) == Some(
                        DocumentView::Bool(true),
                    ) {
                        "running"@
                    } else {
                        "stalled"@
                    },
                ),
            )
            &&& other != "output"@ && other != "session"@ && other != "state"@ ==> told.field(other)
                == DocumentView::Object(answer).field(other)
            &&& command != "status"@ ==> told.field("state"@) == DocumentView::Object(answer).field(
                "state"@,
            )
        }),
{
    reveal_strlit("output");
    reveal_strlit("session");
    reveal_strlit("state");
    assert("output"@.len() == 6);
    assert("session"@.len() == 7);
    assert("state"@.len() == 5);
}

/// A session records where both its processes live and the worker says that it is ready.
pub proof fn lemma_capturing(
    capture_alive: bool,
    worker_alive: bool,
    status: Option<&Document>,
    capturing: bool,
)
    requires
        call_ensures(is_capturing, (capture_alive, worker_alive, status), capturing),
    ensures
        capturing <==> capture_alive && worker_alive && status is Some && status->Some_0@.field(
            "ready"@,
        ) == Some(DocumentView::Bool(true)),
{
}

/// Bytes are read of numbers one for one, and only where each is one of a byte.
pub proof fn lemma_bytes_in(items: Seq<DocumentView>, bytes: Seq<u8>)
    ensures
        bytes_in(items) == Some(bytes) ==> items == Seq::new(
            bytes.len(),
            |i: int| DocumentView::Number(bytes[i] as int),
        ),
        items == Seq::new(bytes.len(), |i: int| DocumentView::Number(bytes[i] as int)) ==> bytes_in(
            items,
        ) == Some(bytes),
{
    if items == Seq::new(bytes.len(), |i: int| DocumentView::Number(bytes[i] as int)) {
        assert forall|i: int| 0 <= i < items.len() implies byte_in(#[trigger] items[i]) is Some by {}
        assert(bytes_in(items)->Some_0 =~= bytes);
    }
    if bytes_in(items) == Some(bytes) {
        assert forall|i: int| 0 <= i < items.len() implies #[trigger] items[i]
            == DocumentView::Number(bytes[i] as int) by {
            assert(byte_in(items[i]) is Some);
        }
        assert(items =~= Seq::new(bytes.len(), |i: int| DocumentView::Number(bytes[i] as int)));
    }
}

/// A clip that is accepted lies in the directory for clips and is named as one; its path is the one
/// that was answered.
pub proof fn lemma_clip_accepted(answer: &Document, directory: &[u8], clip: Result<Vec<u8>, String>)
    requires
        call_ensures(clip_path, (answer, directory), clip),
    ensures
        clip matches Ok(path) ==> {
            &&& answer@.field("path_bytes"@) == Some(
                DocumentView::Array(
                    Seq::new(path@.len(), |i: int| DocumentView::Number(path@[i] as int)),
                ),
            )
            &&& parts_from(path@, 0).len() == parts_from(directory@, 0).len() + 1
            &&& parts_from(path@, 0).drop_last() == parts_from(directory@, 0)
            &&& parts_from(path@, 0).last().len() > 4
            &&& rooted(path@) == rooted(directory@)
        },
{
    if let Ok(path) = clip {
        let items = answer@.field("path_bytes"@)->Some_0->Array_0;
        lemma_bytes_in(items, path@);
    }
}

/// What could not be delivered is the selection of the session that it names.
pub proof fn lemma_undelivered(answer: &Document, r: Option<(String, u64)>)
    requires
        call_ensures(undelivered, (answer,), r),
    ensures
        r is Some <==> answer@.u64_at("snapshot"@) is Some && answer@.text_at("session"@) is Some,
        r matches Some(selection) ==> answer@.field("session"@) == Some(
            DocumentView::Text(selection.0@),
        ) && answer@.field("snapshot"@) == Some(DocumentView::Number(selection.1 as int)),
{
}

/// A session that is held is dead unless it says that it is ready or busy; while one starts, nothing
/// is looked at.
pub proof fn lemma_looked_at(starting: bool, held: bool, status: Option<&Document>, look: Watched)
    requires
        call_ensures(watch, (starting, held, status), look),
    ensures
        look == Watched::Starting <==> starting,
        look == Watched::Nothing <==> !starting && !held,
        look == Watched::Healthy <==> !starting && held && status is Some && (
        status->Some_0@.field("ready"@) == Some(DocumentView::Bool(true)) || status->Some_0@.field(
            "busy"@,
        ) == Some(DocumentView::Bool(true))),
{
}

/// A look at a dead session is a strike, the third in a row replaces it, and any other look clears
/// them.
pub proof fn lemma_third_strike(strikes: int, look: Watched)
    requires
        0 <= strikes < 3,
    ensures
        watched(strikes, look).1 <==> look == Watched::Dead && strikes == 2,
        look != Watched::Dead ==> watched(strikes, look).0 == 0,
        look == Watched::Dead && strikes < 2 ==> watched(strikes, look).0 == strikes + 1,
        0 <= watched(strikes, look).0 < 3,
{
}

/// A program beside this one is used where it is there, and else the one of that name.
pub proof fn lemma_companion(name: &str, directory: Option<&str>, is_file: bool, path: String)
    requires
        call_ensures(companion_path, (name, directory, is_file), path),
    ensures
        directory is Some && is_file ==> path@ == crate::paths::joined(directory->Some_0@, name@),
        directory is None || !is_file ==> path@ == name@,
{
}

/// A part of a path ends at the first separator.
proof fn lemma_part_ends(path: Seq<u8>, at: int, end: int)
    requires
        0 <= at <= end <= path.len(),
        forall|i: int| at <= i < end ==> #[trigger] path[i] != 0x2f,
        end == path.len() || path[end] == 0x2f,
    ensures
        part_end(path, at) == end,
    decreases end - at,
{
    if at < end {
        assert(path[at] != 0x2f);
        lemma_part_ends(path, at + 1, end);
    }
}

proof fn lemma_part_bare(path: Seq<u8>, at: int)
    requires
        0 <= at <= path.len(),
    ensures
        forall|i: int| at <= i < part_end(path, at) ==> #[trigger] path[i] != 0x2f,
        part_end(path, at) < path.len() ==> path[part_end(path, at)] == 0x2f,
    decreases path.len() - at,
{
    if at < path.len() && path[at] != 0x2f {
        lemma_part_bare(path, at + 1);
    }
}

/// A name in a directory is one part more than the directory has, behind all of them.
pub proof fn lemma_parts_joined(directory: Seq<u8>, name: Seq<u8>, at: int)
    requires
        0 <= at <= directory.len(),
        name.len() > 0,
        name != seq![0x2eu8],
        forall|i: int| 0 <= i < name.len() ==> #[trigger] name[i] != 0x2f,
    ensures
        parts_from(directory.push(0x2f) + name, at) == parts_from(directory, at).push(name),
    decreases directory.len() - at,
{
    let all = directory.push(0x2f) + name;
    let last = directory.len() + 1;
    assert(all[directory.len() as int] == 0x2f);
    assert forall|i: int| last <= i < all.len() implies #[trigger] all[i] != 0x2f by {
        assert(all[i] == name[i - last]);
    }
    lemma_part_ends(all, last as int, all.len() as int);
    assert(all.subrange(last as int, all.len() as int) =~= name);
    assert(parts_from(all, all.len() as int + 1) =~= Seq::empty());
    assert(parts_from(all, last as int) =~= seq![name]);
    lemma_part_end(directory, at);
    lemma_part_bare(directory, at);
    let end = part_end(directory, at);
    assert forall|i: int| at <= i < end implies #[trigger] all[i] != 0x2f by {
        assert(all[i] == directory[i]);
    }
    assert(all[end] == 0x2f) by {
        if end < directory.len() {
            assert(all[end] == directory[end]);
        }
    }
    lemma_part_ends(all, at, end);
    assert(all.subrange(at, end) =~= directory.subrange(at, end));
    if at < directory.len() {
        if end < directory.len() {
            lemma_parts_joined(directory, name, end + 1);
        } else {
            assert(parts_from(directory, end + 1) =~= Seq::empty());
        }
        assert(parts_from(all, at) =~= parts_from(directory, at).push(name));
    } else {
        assert(parts_from(all, at) =~= parts_from(directory, at).push(name));
    }
}

/// A clip in the directory for clips is accepted: its directory, a separator and a name that ends as
/// clips' do.
pub proof fn lemma_clip_in_directory(answer: DocumentView, directory: Seq<u8>, name: Seq<u8>)
    requires
        directory.len() > 0,
        name.len() > 4,
        name.skip(name.len() - 4) == seq![0x2eu8, 0x6du8, 0x6bu8, 0x76u8],
        forall|i: int| 0 <= i < name.len() ==> #[trigger] name[i] != 0x2f,
        ({
            let path = directory.push(0x2f) + name;
            answer.field("path_bytes"@) == Some(
                DocumentView::Array(
                    Seq::new(path.len(), |i: int| DocumentView::Number(path[i] as int)),
                ),
            )
        }),
    ensures
        clip_in(answer, directory) == Ok::<Seq<u8>, Seq<char>>(directory.push(0x2f) + name),
{
    let path = directory.push(0x2f) + name;
    assert(seq![0x2eu8].len() == 1);
    lemma_parts_joined(directory, name, 0);
    lemma_bytes_in(Seq::new(path.len(), |i: int| DocumentView::Number(path[i] as int)), path);
    assert(parts_from(path, 0).drop_last() =~= parts_from(directory, 0));
    assert(path[0] == directory[0]);
}

} // verus!
