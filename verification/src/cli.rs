//! The command line: what a user asks for, and what is to be done about it.
use vstd::prelude::*;
use vstd::string::{StrSliceExecFns, StringExecFns};

use crate::config::RecordingPrefs;
use crate::paths::Environment;
use crate::protocol::{
    ErrorKind, PublicRecordingState, RecordingAction, Request, Response, WireError,
};
use crate::text::{joined, same, to_lowercase};

verus! {

/// How the command is used.
pub const USAGE: &'static str =
    "Usage:\n  boltsnap [area|full|window|active-window] [-o PATH|-] [--save] [--no-copy] [--instant] [--backend auto|x11|wayland|windows]\n  boltsnap area --instant                 select a region, capture on release (no edit handles)\n  boltsnap --edit                         open last screenshot in editor\n  boltsnap [area|window|full] --edit      capture then edit\n  boltsnap edit [IMAGE] [-o PATH] [--no-copy]\n  boltsnap daemon [--save-dir DIR]        run the screenshot shelf\n  boltsnap record [--editor CMD]          select an area and screen-record it\n  boltsnap record full                    record the configured fullscreen target (no selector)\n  boltsnap recording status --json\n  boltsnap recording watch --json\n  boltsnap recording show-controls\n  boltsnap recording pause|resume|save-shelf|save-disk|discard\n  boltsnap stop                           compatibility alias for recording save-shelf\n  boltsnap [COMMAND] [--editor CMD]       annotate with a specific editor\n  Config: platform config directory       (save_dir, editor, record_codec, record_dir)\n  boltsnap doctor\n\nExamples:\n  boltsnap                                area, copy PNG, remember as last\n  boltsnap --edit                         open last screenshot in editor\n  boltsnap window                         pick window, copy PNG\n  boltsnap full --no-copy -o /tmp/x.png   write file, no clipboard\n  boltsnap area --no-copy -o - | eddy -f -      pipe to external editor\n";

/// How the command is used.
pub fn usage() -> (r: &'static str)
    ensures
        r@ == USAGE@,
{
    USAGE
}

/// What screenshots are taken with.
#[derive(Clone, Copy, Debug, PartialEq, Eq, Structural)]
pub enum Backend {
    Auto,
    X11,
    Wayland,
    Windows,
}

impl Backend {
    /// The backend of a name, or why there is none.
    pub open spec fn named(name: Seq<char>) -> Result<Backend, Seq<char>> {
        if name == "auto"@ {
            Ok(Backend::Auto)
        } else if name == "x11"@ {
            Ok(Backend::X11)
        } else if name == "wayland"@ {
            Ok(Backend::Wayland)
        } else if name == "windows"@ {
            Ok(Backend::Windows)
        } else {
            Err("unknown backend '"@ + name + "', use auto/x11/wayland/windows"@)
        }
    }

    /// The name of the backend.
    pub open spec fn name(self) -> Seq<char> {
        match self {
            Backend::Auto => "auto"@,
            Backend::X11 => "x11"@,
            Backend::Wayland => "wayland"@,
            Backend::Windows => "windows"@,
        }
    }

    /// The backend that `value` names.
    pub fn parse(value: &str) -> (r: Result<Backend, String>)
        ensures
            Backend::named(value@) == (match r {
                Ok(backend) => Ok(backend),
                Err(error) => Err(error@),
            }),
    {
        if same(value, "auto") {
            Ok(Backend::Auto)
        } else if same(value, "x11") {
            Ok(Backend::X11)
        } else if same(value, "wayland") {
            Ok(Backend::Wayland)
        } else if same(value, "windows") {
            Ok(Backend::Windows)
        } else {
            let mut message: String = joined("unknown backend '", value);
            message.append("', use auto/x11/wayland/windows");
            Err(message)
        }
    }

    /// The name of the backend.
    pub fn as_str(self) -> (r: &'static str)
        ensures
            r@ == self.name(),
    {
        match self {
            Backend::Auto => "auto",
            Backend::X11 => "x11",
            Backend::Wayland => "wayland",
            Backend::Windows => "windows",
        }
    }

    /// The backend to use: itself, or the one that the session suggests.
    pub fn resolved(self, environment: &Environment) -> (r: Result<Backend, String>)
        ensures
            self != Backend::Auto ==> r == Ok::<Backend, String>(self),
            self == Backend::Auto ==> environment.backend() == (match r {
                Ok(backend) => Ok(backend),
                Err(error) => Err(error@),
            }),
    {
        match self {
            Backend::Auto => detect_backend(environment),
            other => Ok(other),
        }
    }
}

/// Each backend is found by its name.
pub proof fn lemma_backend_names(backend: Backend)
    ensures
        Backend::named(backend.name()) == Ok::<Backend, Seq<char>>(backend),
{
    reveal_strlit("auto");
    reveal_strlit("x11");
    reveal_strlit("wayland");
    reveal_strlit("windows");
    assert("auto"@.len() == 4 && "x11"@.len() == 3);
    assert("wayland"@[1] != "windows"@[1]);
}

impl Environment {
    /// The backend that the session suggests.
    pub open spec fn backend(&self) -> Result<Backend, Seq<char>> {
        let session = crate::text::lowercased(
            match self.value("XDG_SESSION_TYPE"@) {
                Some(session) => session,
                None => Seq::empty(),
            },
        );
        if session == "wayland"@ || (session.len() == 0 && self.value("WAYLAND_DISPLAY"@) is Some) {
            Ok(Backend::Wayland)
        } else if session == "x11"@ || self.value("DISPLAY"@) is Some {
            Ok(Backend::X11)
        } else {
            Err(
                "could not detect X11 or Wayland session; pass --backend x11 or --backend wayland"@,
            )
        }
    }
}

/// The backend that the session suggests. A session of ASCII characters is named in capital or
/// small letters alike.
pub fn detect_backend(environment: &Environment) -> (r: Result<Backend, String>)
    ensures
        environment.backend() == (match r {
            Ok(backend) => Ok(backend),
            Err(error) => Err(error@),
        }),
        environment.value("XDG_SESSION_TYPE"@) matches Some(session)
            ==> vstd::utf8::is_ascii_chars(session) ==> crate::text::lowercased(session)
            == crate::text::lowered(session) && (crate::text::lowered(session) == "wayland"@
            ==> r == Ok::<Backend, String>(Backend::Wayland)) && (crate::text::lowered(session)
            == "x11"@ ==> r == Ok::<Backend, String>(Backend::X11)),
{
    proof {
        reveal_strlit("wayland");
        reveal_strlit("x11");
        assert("wayland"@.len() == 7 && "x11"@.len() == 3);
    }
    let session = match environment.var("XDG_SESSION_TYPE") {
        Some(session) => to_lowercase(session),
        None => {
            let none: String = String::new();
            to_lowercase(none.as_str())
        },
    };
    if same(session.as_str(), "wayland") || (session.as_str().is_empty() && environment.var(
        "WAYLAND_DISPLAY",
    ).is_some()) {
        Ok(Backend::Wayland)
    } else if same(session.as_str(), "x11") || environment.var("DISPLAY").is_some() {
        Ok(Backend::X11)
    } else {
        Err(
            "could not detect X11 or Wayland session; pass --backend x11 or --backend wayland".to_owned(),
        )
    }
}

/// What a screenshot shows.
#[derive(Clone, Copy, Debug, PartialEq, Eq, Structural)]
pub enum CaptureMode {
    Area,
    Full,
    Window,
    ActiveWindow,
}

impl CaptureMode {
    /// The mode that a command asks for.
    pub open spec fn named(command: Seq<char>) -> Result<CaptureMode, Seq<char>> {
        if command == "area"@ || command == "select"@ || command == "selection"@ || command
            == "region"@ {
            Ok(CaptureMode::Area)
        } else if command == "full"@ || command == "screen"@ || command == "fullscreen"@ {
            Ok(CaptureMode::Full)
        } else if command == "window"@ || command == "win"@ || command == "select-window"@ {
            Ok(CaptureMode::Window)
        } else if command == "active"@ || command == "active-window"@ || command == "current"@
            || command == "current-window"@ {
            Ok(CaptureMode::ActiveWindow)
        } else {
            Err("unknown capture command '"@ + command + "'"@)
        }
    }

    /// The name of the mode.
    pub open spec fn name(self) -> Seq<char> {
        match self {
            CaptureMode::Area => "area"@,
            CaptureMode::Full => "full"@,
            CaptureMode::Window => "window"@,
            CaptureMode::ActiveWindow => "active-window"@,
        }
    }

    /// The mode that `command` asks for.
    pub fn parse(command: &str) -> (r: Result<CaptureMode, String>)
        ensures
            CaptureMode::named(command@) == (match r {
                Ok(mode) => Ok(mode),
                Err(error) => Err(error@),
            }),
    {
        if same(command, "area") || same(command, "select") || same(command, "selection") || same(
            command,
            "region",
        ) {
            Ok(CaptureMode::Area)
        } else if same(command, "full") || same(command, "screen") || same(command, "fullscreen") {
            Ok(CaptureMode::Full)
        } else if same(command, "window") || same(command, "win") || same(command, "select-window") {
            Ok(CaptureMode::Window)
        } else if same(command, "active") || same(command, "active-window") || same(
            command,
            "current",
        ) || same(command, "current-window") {
            Ok(CaptureMode::ActiveWindow)
        } else {
            let mut message: String = joined("unknown capture command '", command);
            message.append("'");
            Err(message)
        }
    }

    /// The name of the mode.
    pub fn label(self) -> (r: &'static str)
        ensures
            r@ == self.name(),
    {
        match self {
            CaptureMode::Area => "area",
            CaptureMode::Full => "full",
            CaptureMode::Window => "window",
            CaptureMode::ActiveWindow => "active-window",
        }
    }
}

/// Each mode is found by its name.
pub proof fn lemma_mode_names(mode: CaptureMode)
    ensures
        CaptureMode::named(mode.name()) == Ok::<CaptureMode, Seq<char>>(mode),
{
    reveal_strlit("area");
    reveal_strlit("select");
    reveal_strlit("selection");
    reveal_strlit("region");
    reveal_strlit("full");
    reveal_strlit("screen");
    reveal_strlit("fullscreen");
    reveal_strlit("window");
    reveal_strlit("win");
    reveal_strlit("select-window");
    reveal_strlit("active");
    reveal_strlit("active-window");
    assert("full"@[0] == 'f' && "area"@[0] == 'a');
    assert("window"@[0] == 'w' && "select"@[0] == 's' && "region"@[0] == 'r' && "screen"@[0] == 's');
    assert("area"@.len() == 4 && "select"@.len() == 6 && "selection"@.len() == 9);
    assert("region"@.len() == 6 && "full"@.len() == 4 && "screen"@.len() == 6);
    assert("fullscreen"@.len() == 10 && "window"@.len() == 6 && "win"@.len() == 3);
    assert("select-window"@.len() == 13 && "active"@.len() == 6 && "active-window"@.len() == 13);
    assert("select-window"@[0] == 's' && "active-window"@[0] == 'a');
}

/// What the command line says.
#[derive(Clone, Debug)]
pub struct Args {
    pub command: String,
    pub command_explicit: bool,
    pub image: Option<String>,
    pub edit: bool,
    pub copy: bool,
    /// Copying was asked for or forbidden. Where the shelf is the usual place for a screenshot, it
    /// is copied only when that was asked for.
    pub copy_explicit: bool,
    pub save: bool,
    pub output: Option<String>,
    pub backend: Backend,
    /// A selection is taken as soon as the button is released.
    pub instant: bool,
    /// Where the shelf saves.
    pub save_dir: Option<String>,
    /// The editor for annotations.
    pub editor_cmd: Option<String>,
    pub tail: Vec<String>,
    pub json: bool,
}

/// What [`Args`] say.
pub struct ArgsView {
    pub command: Seq<char>,
    pub command_explicit: bool,
    pub image: Option<Seq<char>>,
    pub edit: bool,
    pub copy: bool,
    pub copy_explicit: bool,
    pub save: bool,
    pub output: Option<Seq<char>>,
    pub backend: Backend,
    pub instant: bool,
    pub save_dir: Option<Seq<char>>,
    pub editor_cmd: Option<Seq<char>>,
    pub tail: Seq<Seq<char>>,
    pub json: bool,
}

impl ArgsView {
    /// What holds without arguments.
    pub open spec fn unset() -> ArgsView {
        ArgsView {
            command: "area"@,
            command_explicit: false,
            image: None,
            edit: false,
            copy: true,
            copy_explicit: false,
            save: false,
            output: None,
            backend: Backend::Auto,
            instant: false,
            save_dir: None,
            editor_cmd: None,
            tail: Seq::empty(),
            json: false,
        }
    }
}

impl Args {
    /// What the arguments say.
    pub open spec fn view(&self) -> ArgsView {
        ArgsView {
            command: self.command@,
            command_explicit: self.command_explicit,
            image: crate::text::view_of(self.image),
            edit: self.edit,
            copy: self.copy,
            copy_explicit: self.copy_explicit,
            save: self.save,
            output: crate::text::view_of(self.output),
            backend: self.backend,
            instant: self.instant,
            save_dir: crate::text::view_of(self.save_dir),
            editor_cmd: crate::text::view_of(self.editor_cmd),
            tail: crate::text::views(self.tail@),
            json: self.json,
        }
    }
}

impl Default for Args {
    fn default() -> (r: Self)
        ensures
            r@ == ArgsView::unset(),
    {
        let r = Args {
            command: "area".to_owned(),
            command_explicit: false,
            image: None,
            edit: false,
            copy: true,
            copy_explicit: false,
            save: false,
            output: None,
            backend: Backend::Auto,
            instant: false,
            save_dir: None,
            editor_cmd: None,
            tail: Vec::new(),
            json: false,
        };
        proof {
            assert(r@.tail =~= Seq::<Seq<char>>::empty());
        }
        r
    }
}

/// Why a command line is not carried out.
#[derive(Clone, Debug, PartialEq, Eq)]
pub enum Stop {
    /// The user asked how the command is used.
    Help,
    /// The user asked for the version.
    Version,
    Invalid(String),
}

/// What a [`Stop`] says.
pub enum StopView {
    Help,
    Version,
    Invalid(Seq<char>),
}

impl Stop {
    /// What the stop says.
    pub open spec fn view(&self) -> StopView {
        match self {
            Stop::Help => StopView::Help,
            Stop::Version => StopView::Version,
            Stop::Invalid(message) => StopView::Invalid(message@),
        }
    }
}

/// `raw[at]`, which an option needs, or the error that it is missing.
pub open spec fn needed(raw: Seq<Seq<char>>, at: int, message: Seq<char>) -> Result<
    Seq<char>,
    StopView,
> {
    if at < raw.len() {
        Ok(raw[at])
    } else {
        Err(StopView::Invalid(message))
    }
}

impl ArgsView {
    /// What `args` and the arguments from `raw[at]` on say together. `tail` gathers what is no
    /// option; an argument that an option needs is no option and no command.
    pub open spec fn scanned(raw: Seq<Seq<char>>, at: int, args: ArgsView) -> Result<
        ArgsView,
        StopView,
    >
        decreases raw.len() - at,
    {
        if at >= raw.len() {
            Ok(args)
        } else if raw[at] == "-h"@ || raw[at] == "--help"@ {
            Err(StopView::Help)
        } else if raw[at] == "--version"@ {
            Err(StopView::Version)
        } else if raw[at] == "--edit"@ {
            ArgsView::scanned(raw, at + 1, ArgsView { edit: true, ..args })
        } else if raw[at] == "--copy"@ {
            ArgsView::scanned(raw, at + 1, ArgsView { copy: true, copy_explicit: true, ..args })
        } else if raw[at] == "--no-copy"@ {
            ArgsView::scanned(raw, at + 1, ArgsView { copy: false, copy_explicit: true, ..args })
        } else if raw[at] == "--instant"@ {
            ArgsView::scanned(raw, at + 1, ArgsView { instant: true, ..args })
        } else if raw[at] == "--save"@ {
            ArgsView::scanned(raw, at + 1, ArgsView { save: true, ..args })
        } else if raw[at] == "--json"@ {
            ArgsView::scanned(raw, at + 1, ArgsView { json: true, ..args })
        } else if raw[at] == "-o"@ || raw[at] == "--output"@ {
            match needed(raw, at + 1, "--output needs a path"@) {
                Ok(path) => ArgsView::scanned(
                    raw,
                    at + 2,
                    ArgsView { output: Some(path), ..args },
                ),
                Err(stop) => Err(stop),
            }
        } else if raw[at] == "--backend"@ {
            match needed(raw, at + 1, "--backend needs auto, x11, or wayland"@) {
                Ok(name) => match Backend::named(name) {
                    Ok(backend) => ArgsView::scanned(raw, at + 2, ArgsView { backend, ..args }),
                    Err(message) => Err(StopView::Invalid(message)),
                },
                Err(stop) => Err(stop),
            }
        } else if raw[at] == "--save-dir"@ {
            match needed(raw, at + 1, "--save-dir needs a path"@) {
                Ok(path) => ArgsView::scanned(
                    raw,
                    at + 2,
                    ArgsView { save_dir: Some(path), ..args },
                ),
                Err(stop) => Err(stop),
            }
        } else if raw[at] == "--editor"@ {
            match needed(raw, at + 1, "--editor needs a command"@) {
                Ok(command) => ArgsView::scanned(
                    raw,
                    at + 2,
                    ArgsView { editor_cmd: Some(command), ..args },
                ),
                Err(stop) => Err(stop),
            }
        } else if raw[at].len() > 0 && raw[at][0] == '-' {
            Err(StopView::Invalid("unknown option '"@ + raw[at] + "'\n"@ + USAGE@))
        } else {
            ArgsView::scanned(raw, at + 1, ArgsView { tail: args.tail.push(raw[at]), ..args })
        }
    }

    /// The first word that is no option is the command, the second the image.
    pub open spec fn with_command(self) -> ArgsView {
        if self.tail.len() == 0 {
            self
        } else {
            ArgsView {
                command: crate::text::lowercased(self.tail[0]),
                command_explicit: true,
                image: if self.tail.len() > 1 {
                    Some(self.tail[1])
                } else {
                    self.image
                },
                tail: self.tail.skip(1),
                ..self
            }
        }
    }

    /// What the words of a command line say. The first word names the program.
    pub open spec fn given(raw: Seq<Seq<char>>) -> Result<ArgsView, StopView> {
        match ArgsView::scanned(raw, 1, ArgsView::unset()) {
            Ok(args) => Ok(args.with_command()),
            Err(stop) => Err(stop),
        }
    }
}

/// The argument at `at`, which an option needs.
fn needed_at(raw: &[String], at: usize, message: &str) -> (r: Result<String, Stop>)
    ensures
        needed(crate::text::views(raw@), at as int, message@) == (match r {
            Ok(value) => Ok(value@),
            Err(stop) => Err(stop@),
        }),
{
    if at < raw.len() {
        Ok(raw[at].clone())
    } else {
        Err(Stop::Invalid(message.to_owned()))
    }
}

/// What the words of a command line say. The first word names the program. A command of ASCII
/// characters has its letters from `A` to `Z` lowered.
pub fn parse_args(raw: &[String]) -> (r: Result<Args, Stop>)
    ensures
        ArgsView::given(crate::text::views(raw@)) == (match r {
            Ok(args) => Ok(args@),
            Err(stop) => Err(stop@),
        }),
        ArgsView::scanned(crate::text::views(raw@), 1, ArgsView::unset()) matches Ok(scanned)
            ==> scanned.tail.len() > 0 && vstd::utf8::is_ascii_chars(scanned.tail[0])
            ==> (r matches Ok(args) && args@.command == crate::text::lowered(scanned.tail[0])),
{
    let ghost words = crate::text::views(raw@);
    let mut args = Args::default();
    let mut i: usize = 1;
    while i < raw.len()
        invariant
            1 <= i,
            i <= raw.len() || i == 1,
            words == crate::text::views(raw@),
            ArgsView::scanned(words, 1, ArgsView::unset()) == ArgsView::scanned(
                words,
                i as int,
                args@,
            ),
        decreases raw.len() - i,
    {
        let word = raw[i].as_str();
        assert(words[i as int] == word@);
        let ghost before = args@;
        if same(word, "-h") || same(word, "--help") {
            return Err(Stop::Help);
        } else if same(word, "--version") {
            return Err(Stop::Version);
        } else if same(word, "--edit") {
            args.edit = true;
        } else if same(word, "--copy") {
            args.copy = true;
            args.copy_explicit = true;
        } else if same(word, "--no-copy") {
            args.copy = false;
            args.copy_explicit = true;
        } else if same(word, "--instant") {
            args.instant = true;
        } else if same(word, "--save") {
            args.save = true;
        } else if same(word, "--json") {
            args.json = true;
        } else if same(word, "-o") || same(word, "--output") {
            i = i + 1;
            match needed_at(raw, i, "--output needs a path") {
                Ok(path) => {
                    args.output = Some(path);
                },
                Err(stop) => {
                    return Err(stop);
                },
            }
        } else if same(word, "--backend") {
            i = i + 1;
            match needed_at(raw, i, "--backend needs auto, x11, or wayland") {
                Ok(name) => match Backend::parse(name.as_str()) {
                    Ok(backend) => {
                        args.backend = backend;
                    },
                    Err(message) => {
                        return Err(Stop::Invalid(message));
                    },
                },
                Err(stop) => {
                    return Err(stop);
                },
            }
        } else if same(word, "--save-dir") {
            i = i + 1;
            match needed_at(raw, i, "--save-dir needs a path") {
                Ok(path) => {
                    args.save_dir = Some(path);
                },
                Err(stop) => {
                    return Err(stop);
                },
            }
        } else if same(word, "--editor") {
            i = i + 1;
            match needed_at(raw, i, "--editor needs a command") {
                Ok(command) => {
                    args.editor_cmd = Some(command);
                },
                Err(stop) => {
                    return Err(stop);
                },
            }
        } else if !word.is_empty() && word.get_char(0) == '-' {
            let mut message: String = joined("unknown option '", word);
            message.append("'\n");
            message.append(usage());
            return Err(Stop::Invalid(message));
        } else {
            args.tail.push(word.to_owned());
            proof {
                assert(args@.tail =~= before.tail.push(word@));
            }
        }
        i = i + 1;
    }
    let ghost scanned = args@;
    if args.tail.len() > 0 {
        args.command = to_lowercase(args.tail[0].as_str());
        args.command_explicit = true;
        if args.tail.len() > 1 {
            args.image = Some(args.tail[1].clone());
        }
        let _ = args.tail.remove(0);
        proof {
            assert(args@.tail =~= scanned.tail.skip(1));
        }
    }
    Ok(args)
}

/// What is to be done about a command line.
#[derive(Clone, Debug, PartialEq, Eq)]
pub enum Plan {
    EditLast,
    Doctor,
    SelfTest,
    Record,
    Recording(RecordingCommand),
    Control(RecordingAction),
    Daemon { save_dir: Option<String> },
    InstallAutostart,
    RemoveAutostart,
    /// Draw the shelf into a file.
    DebugRender(String),
    /// Serve pastes of an image until something else is copied.
    ServeClipboard(String),
    /// Serve pastes of a file reference until something else is copied.
    ServeClipboardUri(String),
    /// Edit an image: the one that is named, or else the last screenshot. There has to be a last
    /// screenshot in either case.
    Edit { image: Option<String> },
    Capture(CaptureMode),
}

/// What is to be done about `boltsnap recording`.
#[derive(Clone, Copy, Debug, PartialEq, Eq, Structural)]
pub enum RecordingCommand {
    Status,
    Watch,
    ShowControls,
    Control(RecordingAction),
}

/// What a [`Plan`] says.
pub enum PlanView {
    EditLast,
    Doctor,
    SelfTest,
    Record,
    Recording(RecordingCommand),
    Control(RecordingAction),
    Daemon { save_dir: Option<Seq<char>> },
    InstallAutostart,
    RemoveAutostart,
    DebugRender(Seq<char>),
    ServeClipboard(Seq<char>),
    ServeClipboardUri(Seq<char>),
    Edit { image: Option<Seq<char>> },
    Capture(CaptureMode),
}

impl Plan {
    /// What the plan says.
    pub open spec fn view(&self) -> PlanView {
        match self {
            Plan::EditLast => PlanView::EditLast,
            Plan::Doctor => PlanView::Doctor,
            Plan::SelfTest => PlanView::SelfTest,
            Plan::Record => PlanView::Record,
            Plan::Recording(command) => PlanView::Recording(*command),
            Plan::Control(action) => PlanView::Control(*action),
            Plan::Daemon { save_dir } => PlanView::Daemon {
                save_dir: crate::text::view_of(*save_dir),
            },
            Plan::InstallAutostart => PlanView::InstallAutostart,
            Plan::RemoveAutostart => PlanView::RemoveAutostart,
            Plan::DebugRender(path) => PlanView::DebugRender(path@),
            Plan::ServeClipboard(path) => PlanView::ServeClipboard(path@),
            Plan::ServeClipboardUri(path) => PlanView::ServeClipboardUri(path@),
            Plan::Edit { image } => PlanView::Edit { image: crate::text::view_of(*image) },
            Plan::Capture(mode) => PlanView::Capture(*mode),
        }
    }
}

impl RecordingCommand {
    /// The command that the words behind `recording` ask for. What prints JSON wants `--json`, and
    /// nothing else takes it.
    pub open spec fn asked(tail: Seq<Seq<char>>, json: bool) -> Option<RecordingCommand> {
        if tail.len() != 1 {
            None
        } else if json && tail[0] == "status"@ {
            Some(RecordingCommand::Status)
        } else if json && tail[0] == "watch"@ {
            Some(RecordingCommand::Watch)
        } else if json {
            None
        } else if tail[0] == "show-controls"@ {
            Some(RecordingCommand::ShowControls)
        } else {
            match RecordingAction::named(tail[0]) {
                Ok(action) => Some(RecordingCommand::Control(action)),
                Err(_) => None,
            }
        }
    }
}

impl ArgsView {
    /// What is to be done. The commands for starting with the session are known on Windows only.
    pub open spec fn plan(self, windows: bool) -> Result<PlanView, Seq<char>> {
        if self.edit && !self.command_explicit {
            Ok(PlanView::EditLast)
        } else if self.command == "doctor"@ {
            Ok(PlanView::Doctor)
        } else if self.command == "self-test"@ {
            Ok(PlanView::SelfTest)
        } else if self.command == "record"@ {
            Ok(PlanView::Record)
        } else if self.command == "recording"@ {
            match RecordingCommand::asked(self.tail, self.json) {
                Some(command) => Ok(PlanView::Recording(command)),
                None => Err("invalid recording command\n"@ + USAGE@),
            }
        } else if self.command == "stop"@ {
            Ok(PlanView::Control(RecordingAction::SaveShelf))
        } else if self.command == "daemon"@ {
            Ok(PlanView::Daemon { save_dir: self.save_dir })
        } else if windows && self.command == "__install-autostart"@ {
            Ok(PlanView::InstallAutostart)
        } else if windows && self.command == "__remove-autostart"@ {
            Ok(PlanView::RemoveAutostart)
        } else if self.command == "__debug-render"@ {
            Ok(
                PlanView::DebugRender(
                    match self.image {
                        Some(path) => path,
                        None => "/tmp/boltsnap-debug-render.png"@,
                    },
                ),
            )
        } else if self.command == "__serve-clipboard"@ {
            match self.image {
                Some(path) => Ok(PlanView::ServeClipboard(path)),
                None => Err("__serve-clipboard needs a PNG path"@),
            }
        } else if self.command == "__serve-clipboard-uri"@ {
            match self.image {
                Some(path) => Ok(PlanView::ServeClipboardUri(path)),
                None => Err("__serve-clipboard-uri needs a path"@),
            }
        } else if self.command == "edit"@ {
            Ok(PlanView::Edit { image: self.image })
        } else {
            match CaptureMode::named(self.command) {
                Ok(mode) => Ok(PlanView::Capture(mode)),
                Err(message) => Err(message),
            }
        }
    }
}

/// What the words behind `recording` ask for.
pub fn recording_command(tail: &Vec<String>, json: bool) -> (r: Result<RecordingCommand, String>)
    ensures
        match RecordingCommand::asked(crate::text::views(tail@), json) {
            Some(command) => r == Ok::<RecordingCommand, String>(command),
            None => r matches Err(message) && message@ == "invalid recording command\n"@ + USAGE@,
        },
{
    if tail.len() == 1 {
        let word = tail[0].as_str();
        assert(crate::text::views(tail@)[0] == word@);
        if json {
            if same(word, "status") {
                return Ok(RecordingCommand::Status);
            } else if same(word, "watch") {
                return Ok(RecordingCommand::Watch);
            }
        } else if same(word, "show-controls") {
            return Ok(RecordingCommand::ShowControls);
        } else if let Ok(action) = crate::protocol::parse_recording_action(word) {
            return Ok(RecordingCommand::Control(action));
        }
    }
    Err(joined("invalid recording command\n", usage()))
}

/// What is to be done about `args`.
pub fn plan(args: &Args, windows: bool) -> (r: Result<Plan, String>)
    ensures
        args@.plan(windows) == (match r {
            Ok(plan) => Ok(plan@),
            Err(message) => Err(message@),
        }),
{
    if args.edit && !args.command_explicit {
        return Ok(Plan::EditLast);
    }
    let command = args.command.as_str();
    if same(command, "doctor") {
        Ok(Plan::Doctor)
    } else if same(command, "self-test") {
        Ok(Plan::SelfTest)
    } else if same(command, "record") {
        Ok(Plan::Record)
    } else if same(command, "recording") {
        match recording_command(&args.tail, args.json) {
            Ok(command) => Ok(Plan::Recording(command)),
            Err(message) => Err(message),
        }
    } else if same(command, "stop") {
        Ok(Plan::Control(RecordingAction::SaveShelf))
    } else if same(command, "daemon") {
        Ok(Plan::Daemon { save_dir: args.save_dir.clone() })
    } else if windows && same(command, "__install-autostart") {
        Ok(Plan::InstallAutostart)
    } else if windows && same(command, "__remove-autostart") {
        Ok(Plan::RemoveAutostart)
    } else if same(command, "__debug-render") {
        match &args.image {
            Some(path) => Ok(Plan::DebugRender(path.clone())),
            None => Ok(Plan::DebugRender("/tmp/boltsnap-debug-render.png".to_owned())),
        }
    } else if same(command, "__serve-clipboard") {
        match &args.image {
            Some(path) => Ok(Plan::ServeClipboard(path.clone())),
            None => Err("__serve-clipboard needs a PNG path".to_owned()),
        }
    } else if same(command, "__serve-clipboard-uri") {
        match &args.image {
            Some(path) => Ok(Plan::ServeClipboardUri(path.clone())),
            None => Err("__serve-clipboard-uri needs a path".to_owned()),
        }
    } else if same(command, "edit") {
        Ok(Plan::Edit { image: args.image.clone() })
    } else {
        match CaptureMode::parse(command) {
            Ok(mode) => Ok(Plan::Capture(mode)),
            Err(message) => Err(message),
        }
    }
}

/// Where a fresh screenshot goes.
#[derive(Clone, Copy, Debug, PartialEq, Eq, Structural)]
pub enum PostCapture {
    Stdout,
    Edit,
    File { copy: bool },
    Shelf { copy: bool },
    CopyOnly,
}

impl ArgsView {
    /// The screenshot is written to the standard output.
    pub open spec fn to_stdout(self) -> bool {
        self.output == Some("-"@)
    }

    /// Where a screenshot goes that `backend` took.
    pub open spec fn post_capture(self, backend: Backend) -> PostCapture {
        if self.to_stdout() {
            PostCapture::Stdout
        } else if self.edit {
            PostCapture::Edit
        } else if self.output is Some || self.save {
            PostCapture::File { copy: self.copy }
        } else if backend == Backend::Wayland || backend == Backend::Windows {
            PostCapture::Shelf { copy: self.copy_explicit && self.copy }
        } else {
            PostCapture::CopyOnly
        }
    }
}

/// `--no-copy` keeps a screenshot that goes to a file or to the shelf off the clipboard.
pub proof fn lemma_no_copy(args: ArgsView, backend: Backend)
    requires
        !args.copy,
    ensures
        match args.post_capture(backend) {
            PostCapture::File { copy } => !copy,
            PostCapture::Shelf { copy } => !copy,
            _ => true,
        },
{
}

/// The screenshot is written to the standard output.
pub fn is_stdout_target(args: &Args) -> (r: bool)
    ensures
        r == args@.to_stdout(),
{
    match &args.output {
        Some(path) => same(path.as_str(), "-"),
        None => false,
    }
}

/// Where a screenshot goes that `backend` took.
pub fn decide_post_capture(args: &Args, backend: Backend) -> (r: PostCapture)
    ensures
        r == args@.post_capture(backend),
{
    if is_stdout_target(args) {
        return PostCapture::Stdout;
    }
    if args.edit {
        return PostCapture::Edit;
    }
    if args.output.is_some() || args.save {
        return PostCapture::File { copy: args.copy };
    }
    match backend {
        Backend::Wayland | Backend::Windows => PostCapture::Shelf {
            copy: args.copy_explicit && args.copy,
        },
        _ => PostCapture::CopyOnly,
    }
}

/// What is said of a screenshot that was taken; nothing is said of one on the standard output.
pub open spec fn capture_report(
    post: PostCapture,
    mode: CaptureMode,
    backend: Backend,
    path: Seq<char>,
) -> Seq<char> {
    let taken = mode.name() + " via "@ + backend.name() + ": "@ + path;
    match post {
        PostCapture::Stdout => Seq::empty(),
        PostCapture::Edit => "Boltsnap "@ + "edited "@ + taken,
        PostCapture::File { copy } => "Boltsnap "@ + if copy {
            "copied "@
        } else {
            "captured "@
        } + taken,
        PostCapture::CopyOnly => "Boltsnap "@ + "copied "@ + taken,
        PostCapture::Shelf { copy } => "Boltsnap sent "@ + mode.name() + " to shelf"@ + if copy {
            " (copied)"@
        } else {
            Seq::empty()
        },
    }
}

/// What is said of a screenshot that was taken.
pub fn report_capture(post: PostCapture, mode: CaptureMode, backend: Backend, path: &str) -> (r:
    String)
    ensures
        r@ == capture_report(post, mode, backend, path@),
{
    let mut taken: String = mode.label().to_owned();
    taken.append(" via ");
    taken.append(backend.as_str());
    taken.append(": ");
    taken.append(path);
    let verb = match post {
        PostCapture::Stdout => {
            return String::new();
        },
        PostCapture::Shelf { copy } => {
            let mut report: String = "Boltsnap sent ".to_owned();
            report.append(mode.label());
            report.append(" to shelf");
            if copy {
                report.append(" (copied)");
            }
            proof {
                assert(report@ =~= capture_report(post, mode, backend, path@));
            }
            return report;
        },
        PostCapture::Edit => "edited ",
        PostCapture::CopyOnly => "copied ",
        PostCapture::File { copy } => if copy {
            "copied "
        } else {
            "captured "
        },
    };
    let mut report: String = "Boltsnap ".to_owned();
    report.append(verb);
    report.append(taken.as_str());
    report
}

/// A failure to talk to the daemon that means that an older daemon, which closes on a request it
/// does not know, is running.
pub fn is_legacy_recording_status_eof(error: &WireError) -> (r: bool)
    ensures
        r == (error.kind == ErrorKind::UnexpectedEof),
{
    match error.kind {
        ErrorKind::UnexpectedEof => true,
        _ => false,
    }
}

/// The state of the recording in the daemon's answer.
pub fn recording_state_from_status(response: Response) -> (r: Result<PublicRecordingState, String>)
    ensures
        match r {
            Ok(state) => response.ok && (response.snapshot matches Some(snapshot) && snapshot.state
                == state),
            Err(message) => if response.ok {
                response.snapshot is None && message@ == "daemon returned no recording status"@
            } else {
                message@ == (match response@.error {
                    Some(error) => error,
                    None => "recording status failed"@,
                })
            },
        },
{
    if !response.ok {
        return match response.error {
            Some(error) => Err(error),
            None => Err("recording status failed".to_owned()),
        };
    }
    match response.snapshot {
        Some(snapshot) => Ok(snapshot.state),
        None => Err("daemon returned no recording status".to_owned()),
    }
}

/// The daemon's answer where it is a success, or else its error.
pub fn checked_recording_response(response: Result<Response, WireError>) -> (r: Result<
    Response,
    String,
>)
    ensures
        match response {
            Ok(response) => if response.ok {
                r == Ok::<Response, String>(response)
            } else {
                r matches Err(message) && message@ == (match response@.error {
                    Some(error) => error,
                    None => "recording command failed"@,
                })
            },
            Err(error) => r matches Err(message) && message@ == "recording daemon unavailable: "@
                + error.message@,
        },
{
    match response {
        Ok(response) => if response.ok {
            Ok(response)
        } else {
            match response.error {
                Some(error) => Err(error),
                None => Err("recording command failed".to_owned()),
            }
        },
        Err(error) => Err(joined("recording daemon unavailable: ", error.message.as_str())),
    }
}

/// The state of the recording in the daemon's answer to a first question, which an older daemon
/// does not know: it is idle then.
pub open spec fn state_in_answer(answer: Result<Response, WireError>) -> Result<
    PublicRecordingState,
    Seq<char>,
> {
    match answer {
        Ok(response) => if !response.ok {
            Err(
                match response@.error {
                    Some(error) => error,
                    None => "recording status failed"@,
                },
            )
        } else {
            match response.snapshot {
                Some(snapshot) => Ok(snapshot.state),
                None => Err("daemon returned no recording status"@),
            }
        },
        Err(error) => if error.kind == ErrorKind::UnexpectedEof {
            Ok(PublicRecordingState::Idle)
        } else {
            Err("recording daemon unavailable: "@ + error.message@)
        },
    }
}

/// How `boltsnap record` goes on once the daemon has said what it is doing.
#[derive(Clone, Copy, Debug, PartialEq, Eq, Structural)]
pub enum RecordStep {
    /// A recording is going on: show its controls.
    ShowControls,
    /// Record the usual target.
    StartDefault,
    /// Let the user select an area.
    Select,
}

/// How `boltsnap record` goes on. A recorder that is needed and missing is an error, but not while
/// a recording is going on.
pub fn record_step(
    answer: Result<Response, WireError>,
    recorder_missing: bool,
    target: Option<&str>,
) -> (r: Result<RecordStep, String>)
    ensures
        match state_in_answer(answer) {
            Err(error) => r matches Err(message) && message@ == error,
            Ok(state) => if state != PublicRecordingState::Idle {
                r == Ok::<RecordStep, String>(RecordStep::ShowControls)
            } else if recorder_missing {
                r matches Err(message) && message@
                    == "wf-recorder not found \u{2014} install it to record (e.g. pacman -S wf-recorder)"@
            } else if target matches Some(target) && (target@ == "full"@ || target@ == "screen"@
                || target@ == "fullscreen"@) {
                r == Ok::<RecordStep, String>(RecordStep::StartDefault)
            } else {
                r == Ok::<RecordStep, String>(RecordStep::Select)
            },
        },
{
    let state = match answer {
        Ok(response) => match recording_state_from_status(response) {
            Ok(state) => state,
            Err(message) => {
                return Err(message);
            },
        },
        Err(error) => if is_legacy_recording_status_eof(&error) {
            PublicRecordingState::Idle
        } else {
            return Err(joined("recording daemon unavailable: ", error.message.as_str()));
        },
    };
    match state {
        PublicRecordingState::Idle => {},
        _ => {
            return Ok(RecordStep::ShowControls);
        },
    }
    if recorder_missing {
        return Err(
            "wf-recorder not found \u{2014} install it to record (e.g. pacman -S wf-recorder)".to_owned(),
        );
    }
    match target {
        Some(target) => if same(target, "full") || same(target, "screen") || same(
            target,
            "fullscreen",
        ) {
            return Ok(RecordStep::StartDefault);
        },
        None => {},
    }
    Ok(RecordStep::Select)
}

/// What a user chose in the selector: where to record in global coordinates, unless it was
/// cancelled, and the two switches.
pub struct RecordSelection {
    pub area: Option<(i32, i32, u32, u32)>,
    pub show_frame: bool,
    pub audio_enabled: bool,
}

/// Takes the switches of a selection over into `prefs`: the result tells whether that changes
/// them, so that they are to be saved. A cancelled selection counts as well.
pub fn take_switches(prefs: &mut RecordingPrefs, selection: &RecordSelection) -> (r: bool)
    ensures
        r == (selection.show_frame != old(prefs).show_frame || selection.audio_enabled != old(
            prefs,
        ).audio_enabled),
        final(prefs).show_frame == selection.show_frame,
        final(prefs).audio_enabled == selection.audio_enabled,
        final(prefs).default_target == old(prefs).default_target,
        final(prefs).both_mode == old(prefs).both_mode,
        final(prefs).disk_add_to_shelf == old(prefs).disk_add_to_shelf,
        final(prefs).audio_source == old(prefs).audio_source,
        final(prefs).cursor == old(prefs).cursor,
{
    let changed: bool = selection.show_frame != prefs.show_frame || selection.audio_enabled
        != prefs.audio_enabled;
    prefs.show_frame = selection.show_frame;
    prefs.audio_enabled = selection.audio_enabled;
    changed
}

/// The request that records what was selected, unless it was cancelled.
pub fn selection_request(selection: &RecordSelection) -> (r: Option<Request>)
    ensures
        match selection.area {
            None => r is None,
            Some((x, y, w, h)) => r == Some(
                Request::StartRecording {
                    x,
                    y,
                    w,
                    h,
                    show_frame: selection.show_frame,
                    audio_enabled: selection.audio_enabled,
                },
            ),
        },
{
    match selection.area {
        None => None,
        Some((x, y, w, h)) => Some(
            Request::StartRecording {
                x,
                y,
                w,
                h,
                show_frame: selection.show_frame,
                audio_enabled: selection.audio_enabled,
            },
        ),
    }
}

/// A screenshot that is to be saved, with `-o PATH` or with `--save`, is kept as a file, whatever
/// took it, and no other is; it is copied unless that is forbidden.
pub proof fn lemma_saved_is_a_file(args: ArgsView, backend: Backend)
    requires
        args.output != Some("-"@),
        !args.edit,
    ensures
        args.output is Some || args.save <==> args.post_capture(backend) is File,
        args.post_capture(backend) matches PostCapture::File { copy } ==> copy == args.copy,
{
}

/// A screenshot goes to the standard output where the output is `-`, and otherwise to the editor
/// where that is asked for, whatever else the command line says.
pub proof fn lemma_piped_and_edited(args: ArgsView, backend: Backend)
    ensures
        args.output == Some("-"@) <==> args.post_capture(backend) is Stdout,
        args.edit && args.output != Some("-"@) <==> args.post_capture(backend) is Edit,
{
}

/// A screenshot for which no place is named goes to the shelf where there is one, and is copied
/// there only where that was asked for; elsewhere it is copied and nothing else.
pub proof fn lemma_usual_place(args: ArgsView, backend: Backend)
    requires
        args.output is None,
        !args.save,
        !args.edit,
    ensures
        args.post_capture(backend) is CopyOnly <==> backend == Backend::X11 || backend
            == Backend::Auto,
        args.post_capture(backend) matches PostCapture::Shelf { copy } ==> (copy
            <==> args.copy_explicit && args.copy),
        args.post_capture(backend) is Shelf || args.post_capture(backend) is CopyOnly,
{
}

/// Words behind a command line that is understood are read as if the rest had been read before.
proof fn lemma_scanned_on(raw: Seq<Seq<char>>, more: Seq<Seq<char>>, at: int, args: ArgsView)
    requires
        0 <= at <= raw.len(),
        ArgsView::scanned(raw, at, args) is Ok,
    ensures
        ArgsView::scanned(raw + more, at, args) == ArgsView::scanned(
            raw + more,
            raw.len() as int,
            ArgsView::scanned(raw, at, args)->Ok_0,
        ),
    decreases raw.len() - at,
{
    let all = raw + more;
    if at < raw.len() {
        assert(all[at] == raw[at]);
        let word = raw[at];
        if (word == "-o"@ || word == "--output"@ || word == "--backend"@ || word == "--save-dir"@
            || word == "--editor"@) && (word != "-h"@ && word != "--help"@ && word != "--version"@ && word != "--edit"@
                && word != "--copy"@ && word != "--no-copy"@ && word != "--instant"@ && word
                != "--save"@ && word != "--json"@) {
            assert(at + 1 < raw.len());
            assert(all[at + 1] == raw[at + 1]);
            if word == "-o"@ || word == "--output"@ {
                lemma_scanned_on(
                    raw,
                    more,
                    at + 2,
                    ArgsView { output: Some(raw[at + 1]), ..args },
                );
            } else if word == "--backend"@ {
                lemma_scanned_on(
                    raw,
                    more,
                    at + 2,
                    ArgsView { backend: Backend::named(raw[at + 1])->Ok_0, ..args },
                );
            } else if word == "--save-dir"@ {
                lemma_scanned_on(
                    raw,
                    more,
                    at + 2,
                    ArgsView { save_dir: Some(raw[at + 1]), ..args },
                );
            } else {
                lemma_scanned_on(
                    raw,
                    more,
                    at + 2,
                    ArgsView { editor_cmd: Some(raw[at + 1]), ..args },
                );
            }
        } else if word == "--edit"@ {
            lemma_scanned_on(raw, more, at + 1, ArgsView { edit: true, ..args });
        } else if word == "--copy"@ {
            lemma_scanned_on(
                raw,
                more,
                at + 1,
                ArgsView { copy: true, copy_explicit: true, ..args },
            );
        } else if word == "--no-copy"@ {
            lemma_scanned_on(
                raw,
                more,
                at + 1,
                ArgsView { copy: false, copy_explicit: true, ..args },
            );
        } else if word == "--instant"@ {
            lemma_scanned_on(raw, more, at + 1, ArgsView { instant: true, ..args });
        } else if word == "--save"@ {
            lemma_scanned_on(raw, more, at + 1, ArgsView { save: true, ..args });
        } else if word == "--json"@ {
            lemma_scanned_on(raw, more, at + 1, ArgsView { json: true, ..args });
        } else {
            lemma_scanned_on(raw, more, at + 1, ArgsView { tail: args.tail.push(word), ..args });
        }
    }
}

/// The names of the options differ.
proof fn lemma_option_names()
    ensures
        "--edit"@ != "--copy"@,
        "--edit"@ != "--no-copy"@,
        "--edit"@ != "--instant"@,
        "--edit"@ != "--save"@,
        "--edit"@ != "--json"@,
        "--edit"@ != "-o"@,
        "--edit"@ != "--output"@,
        "--edit"@ != "--backend"@,
        "--edit"@ != "--save-dir"@,
        "--edit"@ != "--editor"@,
        "--edit"@ != "-h"@,
        "--edit"@ != "--help"@,
        "--edit"@ != "--version"@,
        "--copy"@ != "--no-copy"@,
        "--copy"@ != "--instant"@,
        "--copy"@ != "--save"@,
        "--copy"@ != "--json"@,
        "--copy"@ != "-o"@,
        "--copy"@ != "--output"@,
        "--copy"@ != "--backend"@,
        "--copy"@ != "--save-dir"@,
        "--copy"@ != "--editor"@,
        "--copy"@ != "-h"@,
        "--copy"@ != "--help"@,
        "--copy"@ != "--version"@,
        "--no-copy"@ != "--instant"@,
        "--no-copy"@ != "--save"@,
        "--no-copy"@ != "--json"@,
        "--no-copy"@ != "-o"@,
        "--no-copy"@ != "--output"@,
        "--no-copy"@ != "--backend"@,
        "--no-copy"@ != "--save-dir"@,
        "--no-copy"@ != "--editor"@,
        "--no-copy"@ != "-h"@,
        "--no-copy"@ != "--help"@,
        "--no-copy"@ != "--version"@,
        "--instant"@ != "--save"@,
        "--instant"@ != "--json"@,
        "--instant"@ != "-o"@,
        "--instant"@ != "--output"@,
        "--instant"@ != "--backend"@,
        "--instant"@ != "--save-dir"@,
        "--instant"@ != "--editor"@,
        "--instant"@ != "-h"@,
        "--instant"@ != "--help"@,
        "--instant"@ != "--version"@,
        "--save"@ != "--json"@,
        "--save"@ != "-o"@,
        "--save"@ != "--output"@,
        "--save"@ != "--backend"@,
        "--save"@ != "--save-dir"@,
        "--save"@ != "--editor"@,
        "--save"@ != "-h"@,
        "--save"@ != "--help"@,
        "--save"@ != "--version"@,
        "--json"@ != "-o"@,
        "--json"@ != "--output"@,
        "--json"@ != "--backend"@,
        "--json"@ != "--save-dir"@,
        "--json"@ != "--editor"@,
        "--json"@ != "-h"@,
        "--json"@ != "--help"@,
        "--json"@ != "--version"@,
        "-o"@ != "--output"@,
        "-o"@ != "--backend"@,
        "-o"@ != "--save-dir"@,
        "-o"@ != "--editor"@,
        "-o"@ != "-h"@,
        "-o"@ != "--help"@,
        "-o"@ != "--version"@,
        "--output"@ != "--backend"@,
        "--output"@ != "--save-dir"@,
        "--output"@ != "--editor"@,
        "--output"@ != "-h"@,
        "--output"@ != "--help"@,
        "--output"@ != "--version"@,
        "--backend"@ != "--save-dir"@,
        "--backend"@ != "--editor"@,
        "--backend"@ != "-h"@,
        "--backend"@ != "--help"@,
        "--backend"@ != "--version"@,
        "--save-dir"@ != "--editor"@,
        "--save-dir"@ != "-h"@,
        "--save-dir"@ != "--help"@,
        "--save-dir"@ != "--version"@,
        "--editor"@ != "-h"@,
        "--editor"@ != "--help"@,
        "--editor"@ != "--version"@,
        "-h"@ != "--help"@,
        "-h"@ != "--version"@,
        "--help"@ != "--version"@,
        "--edit"@.len() > 0 && "--edit"@[0] == '-',
        "--copy"@.len() > 0 && "--copy"@[0] == '-',
        "--no-copy"@.len() > 0 && "--no-copy"@[0] == '-',
        "--instant"@.len() > 0 && "--instant"@[0] == '-',
        "--save"@.len() > 0 && "--save"@[0] == '-',
        "--json"@.len() > 0 && "--json"@[0] == '-',
        "-o"@.len() > 0 && "-o"@[0] == '-',
        "--output"@.len() > 0 && "--output"@[0] == '-',
        "--backend"@.len() > 0 && "--backend"@[0] == '-',
        "--save-dir"@.len() > 0 && "--save-dir"@[0] == '-',
        "--editor"@.len() > 0 && "--editor"@[0] == '-',
        "-h"@.len() > 0 && "-h"@[0] == '-',
        "--help"@.len() > 0 && "--help"@[0] == '-',
        "--version"@.len() > 0 && "--version"@[0] == '-',
{
    reveal_strlit("--edit");
    reveal_strlit("--copy");
    reveal_strlit("--no-copy");
    reveal_strlit("--instant");
    reveal_strlit("--save");
    reveal_strlit("--json");
    reveal_strlit("-o");
    reveal_strlit("--output");
    reveal_strlit("--backend");
    reveal_strlit("--save-dir");
    reveal_strlit("--editor");
    reveal_strlit("-h");
    reveal_strlit("--help");
    reveal_strlit("--version");
    assert("--edit"@.len() == 6);
    assert("--copy"@.len() == 6);
    assert("--no-copy"@.len() == 9);
    assert("--instant"@.len() == 9);
    assert("--save"@.len() == 6);
    assert("--json"@.len() == 6);
    assert("-o"@.len() == 2);
    assert("--output"@.len() == 8);
    assert("--backend"@.len() == 9);
    assert("--save-dir"@.len() == 10);
    assert("--editor"@.len() == 8);
    assert("-h"@.len() == 2);
    assert("--help"@.len() == 6);
    assert("--version"@.len() == 9);
    assert("--edit"@[2] != "--copy"@[2]);
    assert("--edit"@[2] != "--save"@[2]);
    assert("--edit"@[2] != "--json"@[2]);
    assert("--edit"@[2] != "--help"@[2]);
    assert("--copy"@[2] != "--save"@[2]);
    assert("--copy"@[2] != "--json"@[2]);
    assert("--copy"@[2] != "--help"@[2]);
    assert("--no-copy"@[2] != "--instant"@[2]);
    assert("--no-copy"@[2] != "--backend"@[2]);
    assert("--no-copy"@[2] != "--version"@[2]);
    assert("--instant"@[2] != "--backend"@[2]);
    assert("--instant"@[2] != "--version"@[2]);
    assert("--save"@[2] != "--json"@[2]);
    assert("--save"@[2] != "--help"@[2]);
    assert("--json"@[2] != "--help"@[2]);
    assert("-o"@[1] != "-h"@[1]);
    assert("--output"@[2] != "--editor"@[2]);
    assert("--backend"@[2] != "--version"@[2]);
}

/// A switch behind a command line that is understood is taken over, and changes nothing else.
pub proof fn lemma_switches(raw: Seq<Seq<char>>)
    requires
        raw.len() > 0,
        ArgsView::given(raw) is Ok,
    ensures
        ({
            let args = ArgsView::given(raw)->Ok_0;
            &&& ArgsView::given(raw.push("--edit"@)) == Ok::<ArgsView, StopView>(
                ArgsView { edit: true, ..args },
            )
            &&& ArgsView::given(raw.push("--copy"@)) == Ok::<ArgsView, StopView>(
                ArgsView { copy: true, copy_explicit: true, ..args },
            )
            &&& ArgsView::given(raw.push("--no-copy"@)) == Ok::<ArgsView, StopView>(
                ArgsView { copy: false, copy_explicit: true, ..args },
            )
            &&& ArgsView::given(raw.push("--instant"@)) == Ok::<ArgsView, StopView>(
                ArgsView { instant: true, ..args },
            )
            &&& ArgsView::given(raw.push("--save"@)) == Ok::<ArgsView, StopView>(
                ArgsView { save: true, ..args },
            )
            &&& ArgsView::given(raw.push("--json"@)) == Ok::<ArgsView, StopView>(
                ArgsView { json: true, ..args },
            )
            &&& ArgsView::given(raw.push("-h"@)) == Err::<ArgsView, StopView>(StopView::Help)
            &&& ArgsView::given(raw.push("--help"@)) == Err::<ArgsView, StopView>(StopView::Help)
            &&& ArgsView::given(raw.push("--version"@)) == Err::<ArgsView, StopView>(
                StopView::Version,
            )
        }),
{
    lemma_option_names();
    let scanned = ArgsView::scanned(raw, 1, ArgsView::unset())->Ok_0;
    assert forall|word: Seq<char>|
        ArgsView::scanned(#[trigger] raw.push(word), 1, ArgsView::unset()) == ArgsView::scanned(
            raw.push(word),
            raw.len() as int,
            scanned,
        ) by {
        lemma_scanned_on(raw, seq![word], 1, ArgsView::unset());
        assert(raw + seq![word] =~= raw.push(word));
    }
    reveal_with_fuel(ArgsView::scanned, 2);
}

/// An option behind a command line that is understood takes the next word, and changes nothing
/// else. Without a next word it is refused.
pub proof fn lemma_options(raw: Seq<Seq<char>>, value: Seq<char>)
    requires
        raw.len() > 0,
        ArgsView::given(raw) is Ok,
    ensures
        ({
            let args = ArgsView::given(raw)->Ok_0;
            let with = |flag: Seq<char>| ArgsView::given(raw.push(flag).push(value));
            &&& with("-o"@) == Ok::<ArgsView, StopView>(ArgsView { output: Some(value), ..args })
            &&& with("--output"@) == Ok::<ArgsView, StopView>(
                ArgsView { output: Some(value), ..args },
            )
            &&& with("--save-dir"@) == Ok::<ArgsView, StopView>(
                ArgsView { save_dir: Some(value), ..args },
            )
            &&& with("--editor"@) == Ok::<ArgsView, StopView>(
                ArgsView { editor_cmd: Some(value), ..args },
            )
            &&& with("--backend"@) == (match Backend::named(value) {
                Ok(backend) => Ok::<ArgsView, StopView>(ArgsView { backend, ..args }),
                Err(message) => Err(StopView::Invalid(message)),
            })
            &&& ArgsView::given(raw.push("-o"@)) is Err
            &&& ArgsView::given(raw.push("--output"@)) is Err
            &&& ArgsView::given(raw.push("--save-dir"@)) is Err
            &&& ArgsView::given(raw.push("--editor"@)) is Err
            &&& ArgsView::given(raw.push("--backend"@)) is Err
        }),
{
    lemma_option_names();
    let scanned = ArgsView::scanned(raw, 1, ArgsView::unset())->Ok_0;
    assert forall|word: Seq<char>|
        ArgsView::scanned(#[trigger] raw.push(word), 1, ArgsView::unset()) == ArgsView::scanned(
            raw.push(word),
            raw.len() as int,
            scanned,
        ) by {
        lemma_scanned_on(raw, seq![word], 1, ArgsView::unset());
        assert(raw + seq![word] =~= raw.push(word));
    }
    assert forall|word: Seq<char>|
        ArgsView::scanned(#[trigger] raw.push(word).push(value), 1, ArgsView::unset())
            == ArgsView::scanned(raw.push(word).push(value), raw.len() as int, scanned) by {
        lemma_scanned_on(raw, seq![word, value], 1, ArgsView::unset());
        assert(raw + seq![word, value] =~= raw.push(word).push(value));
    }
    reveal_with_fuel(ArgsView::scanned, 2);
}

/// The first word that is no option is the command, the next the image. A word that begins with `-`
/// and is no option is refused.
pub proof fn lemma_words(raw: Seq<Seq<char>>, word: Seq<char>)
    requires
        raw.len() > 0,
        ArgsView::given(raw) is Ok,
    ensures
        ({
            let args = ArgsView::given(raw)->Ok_0;
            let plain = word.len() == 0 || word[0] != '-';
            &&& plain ==> (ArgsView::given(raw.push(word)) matches Ok(after)
                && after.command_explicit && (if args.command_explicit {
                &&& after.command == args.command
                &&& after.tail == args.tail.push(word)
                &&& after.image == (if args.tail.len() == 0 {
                    Some(word)
                } else {
                    args.image
                })
            } else {
                &&& after.command == crate::text::lowercased(word)
                &&& after.tail.len() == 0
                &&& after.image == args.image
            }) && after == (ArgsView {
                command: after.command,
                command_explicit: after.command_explicit,
                image: after.image,
                tail: after.tail,
                ..args
            }))
            &&& !plain && word != "--edit"@ && word != "--copy"@ && word != "--no-copy"@ && word != "--instant"@ && word != "--save"@ && word != "--json"@ && word != "-o"@ && word != "--output"@ && word != "--backend"@ && word != "--save-dir"@ && word != "--editor"@ && word != "-h"@ && word != "--help"@ && word != "--version"@ ==> ArgsView::given(raw.push(word)) is Err
        }),
{
    lemma_option_names();
    let scanned = ArgsView::scanned(raw, 1, ArgsView::unset())->Ok_0;
    lemma_scanned_on(raw, seq![word], 1, ArgsView::unset());
    assert(raw + seq![word] =~= raw.push(word));
    lemma_explicit(raw, 1, ArgsView::unset());
    reveal_with_fuel(ArgsView::scanned, 2);
    if scanned.tail.len() > 0 {
        assert(scanned.tail.push(word).skip(1) =~= scanned.tail.skip(1).push(word));
        assert(scanned.tail.push(word)[0] == scanned.tail[0]);
        if scanned.tail.len() > 1 {
            assert(scanned.tail.push(word)[1] == scanned.tail[1]);
        } else {
            assert(scanned.tail.push(word)[1] == word);
        }
    } else {
        assert(scanned.tail.push(word)[0] == word);
        assert(scanned.tail.push(word).skip(1) =~= Seq::<Seq<char>>::empty());
    }
}

/// What no word says stays as it was while the words are read.
proof fn lemma_explicit(raw: Seq<Seq<char>>, at: int, args: ArgsView)
    requires
        0 <= at,
    ensures
        ArgsView::scanned(raw, at, args) matches Ok(after) ==> after.command_explicit
            == args.command_explicit && after.command == args.command && after.image == args.image,
    decreases raw.len() - at,
{
    if at < raw.len() {
        lemma_explicit(raw, at + 1, ArgsView { edit: true, ..args });
        lemma_explicit(raw, at + 1, ArgsView { copy: true, copy_explicit: true, ..args });
        lemma_explicit(raw, at + 1, ArgsView { copy: false, copy_explicit: true, ..args });
        lemma_explicit(raw, at + 1, ArgsView { instant: true, ..args });
        lemma_explicit(raw, at + 1, ArgsView { save: true, ..args });
        lemma_explicit(raw, at + 1, ArgsView { json: true, ..args });
        lemma_explicit(raw, at + 1, ArgsView { tail: args.tail.push(raw[at]), ..args });
        if at + 1 < raw.len() {
            lemma_explicit(raw, at + 2, ArgsView { output: Some(raw[at + 1]), ..args });
            lemma_explicit(raw, at + 2, ArgsView { save_dir: Some(raw[at + 1]), ..args });
            lemma_explicit(raw, at + 2, ArgsView { editor_cmd: Some(raw[at + 1]), ..args });
            lemma_explicit(
                raw,
                at + 2,
                ArgsView { backend: Backend::named(raw[at + 1])->Ok_0, ..args },
            );
        }
    }
}

/// Without words a part of the screen is captured and nothing is said of it.
pub proof fn lemma_no_words(raw: Seq<Seq<char>>)
    requires
        raw.len() <= 1,
    ensures
        ArgsView::given(raw) matches Ok(args) && args.command == "area"@ && !args.command_explicit
            && !args.edit && args.copy && !args.copy_explicit && !args.save && args.output is None
            && args.backend == Backend::Auto && !args.instant && args.save_dir is None
            && args.editor_cmd is None && args.image is None && args.tail.len() == 0 && !args.json,
{
}

/// What a command line asks to be done is told by its command: each is done for its own command and
/// for no other, and everything else is a screenshot or an error. `--edit` without a command is for
/// the last screenshot.
pub proof fn lemma_plan(args: ArgsView, windows: bool)
    ensures
        args.edit && !args.command_explicit <==> args.plan(windows) == Ok::<PlanView, Seq<char>>(
            PlanView::EditLast,
        ),
        !(args.edit && !args.command_explicit) ==> {
            let plan = args.plan(windows);
            &&& plan == Ok::<PlanView, Seq<char>>(PlanView::Doctor) <==> args.command == "doctor"@
            &&& plan == Ok::<PlanView, Seq<char>>(PlanView::SelfTest) <==> args.command
                == "self-test"@
            &&& plan == Ok::<PlanView, Seq<char>>(PlanView::Record) <==> args.command == "record"@
            &&& plan == Ok::<PlanView, Seq<char>>(
                PlanView::Control(RecordingAction::SaveShelf),
            ) <==> args.command == "stop"@
            &&& plan == Ok::<PlanView, Seq<char>>(
                PlanView::Daemon { save_dir: args.save_dir },
            ) <==> args.command == "daemon"@
            &&& plan == Ok::<PlanView, Seq<char>>(PlanView::Edit { image: args.image })
                <==> args.command == "edit"@
            &&& plan == Ok::<PlanView, Seq<char>>(PlanView::InstallAutostart) <==> windows
                && args.command == "__install-autostart"@
            &&& plan == Ok::<PlanView, Seq<char>>(PlanView::RemoveAutostart) <==> windows
                && args.command == "__remove-autostart"@
            &&& args.command == "__serve-clipboard"@ && args.image is Some <==> plan == Ok::<
                PlanView,
                Seq<char>,
            >(PlanView::ServeClipboard(args.image->Some_0)) && args.image is Some
            &&& args.command == "__serve-clipboard-uri"@ && args.image is Some <==> plan == Ok::<
                PlanView,
                Seq<char>,
            >(PlanView::ServeClipboardUri(args.image->Some_0)) && args.image is Some
            &&& (args.command == "__serve-clipboard"@ || args.command == "__serve-clipboard-uri"@)
                && args.image is None ==> plan is Err
            &&& plan matches Ok(PlanView::DebugRender(path)) ==> args.command == "__debug-render"@
                && (args.image matches Some(image) ==> path == image)
            &&& plan matches Ok(PlanView::Capture(mode)) ==> CaptureMode::named(args.command)
                == Ok::<CaptureMode, Seq<char>>(mode)
            &&& CaptureMode::named(args.command) matches Ok(mode) ==> plan == Ok::<
                PlanView,
                Seq<char>,
            >(PlanView::Capture(mode))
        },
{
    reveal_strlit("doctor");
    reveal_strlit("self-test");
    reveal_strlit("record");
    reveal_strlit("recording");
    reveal_strlit("stop");
    reveal_strlit("daemon");
    reveal_strlit("__install-autostart");
    reveal_strlit("__remove-autostart");
    reveal_strlit("__debug-render");
    reveal_strlit("__serve-clipboard");
    reveal_strlit("__serve-clipboard-uri");
    reveal_strlit("edit");
    reveal_strlit("area");
    reveal_strlit("select");
    reveal_strlit("selection");
    reveal_strlit("region");
    reveal_strlit("full");
    reveal_strlit("screen");
    reveal_strlit("fullscreen");
    reveal_strlit("window");
    reveal_strlit("win");
    reveal_strlit("select-window");
    reveal_strlit("active");
    reveal_strlit("active-window");
    reveal_strlit("current");
    reveal_strlit("current-window");
    assert("doctor"@.len() == 6);
    assert("self-test"@.len() == 9);
    assert("record"@.len() == 6);
    assert("recording"@.len() == 9);
    assert("stop"@.len() == 4);
    assert("daemon"@.len() == 6);
    assert("__install-autostart"@.len() == 19);
    assert("__remove-autostart"@.len() == 18);
    assert("__debug-render"@.len() == 14);
    assert("__serve-clipboard"@.len() == 17);
    assert("__serve-clipboard-uri"@.len() == 21);
    assert("edit"@.len() == 4);
    assert("area"@.len() == 4);
    assert("select"@.len() == 6);
    assert("selection"@.len() == 9);
    assert("region"@.len() == 6);
    assert("full"@.len() == 4);
    assert("screen"@.len() == 6);
    assert("fullscreen"@.len() == 10);
    assert("window"@.len() == 6);
    assert("win"@.len() == 3);
    assert("select-window"@.len() == 13);
    assert("active"@.len() == 6);
    assert("active-window"@.len() == 13);
    assert("current"@.len() == 7);
    assert("current-window"@.len() == 14);
    assert("doctor"@[0] != "record"@[0]);
    assert("doctor"@[1] != "daemon"@[1]);
    assert("doctor"@[0] != "select"@[0]);
    assert("doctor"@[0] != "region"@[0]);
    assert("doctor"@[0] != "screen"@[0]);
    assert("doctor"@[0] != "window"@[0]);
    assert("doctor"@[0] != "active"@[0]);
    assert("self-test"@[0] != "recording"@[0]);
    assert("self-test"@[3] != "selection"@[3]);
    assert("record"@[0] != "daemon"@[0]);
    assert("record"@[0] != "select"@[0]);
    assert("record"@[2] != "region"@[2]);
    assert("record"@[0] != "screen"@[0]);
    assert("record"@[0] != "window"@[0]);
    assert("record"@[0] != "active"@[0]);
    assert("recording"@[0] != "selection"@[0]);
    assert("stop"@[0] != "edit"@[0]);
    assert("stop"@[0] != "area"@[0]);
    assert("stop"@[0] != "full"@[0]);
    assert("daemon"@[0] != "select"@[0]);
    assert("daemon"@[0] != "region"@[0]);
    assert("daemon"@[0] != "screen"@[0]);
    assert("daemon"@[0] != "window"@[0]);
    assert("daemon"@[0] != "active"@[0]);
    assert("__debug-render"@[0] != "current-window"@[0]);
    assert("edit"@[0] != "area"@[0]);
    assert("edit"@[0] != "full"@[0]);
    assert("area"@[0] != "full"@[0]);
    assert("select"@[0] != "region"@[0]);
    assert("select"@[1] != "screen"@[1]);
    assert("select"@[0] != "window"@[0]);
    assert("select"@[0] != "active"@[0]);
    assert("region"@[0] != "screen"@[0]);
    assert("region"@[0] != "window"@[0]);
    assert("region"@[0] != "active"@[0]);
    assert("screen"@[0] != "window"@[0]);
    assert("screen"@[0] != "active"@[0]);
    assert("window"@[0] != "active"@[0]);
    assert("select-window"@[0] != "active-window"@[0]);
}

/// The words behind `recording`: each action by its name, and what prints JSON with `--json` alone.
pub proof fn lemma_recording_words(args: ArgsView, windows: bool, action: RecordingAction)
    requires
        args.command == "recording"@,
        args.command_explicit,
    ensures
        !args.json && args.tail == seq![action.name()] ==> args.plan(windows) == Ok::<
            PlanView,
            Seq<char>,
        >(PlanView::Recording(RecordingCommand::Control(action))),
        args.plan(windows) matches Ok(plan) ==> {
            &&& plan is Recording
            &&& args.tail.len() == 1
            &&& args.json <==> plan == PlanView::Recording(RecordingCommand::Status) || plan
                == PlanView::Recording(RecordingCommand::Watch)
            &&& plan == PlanView::Recording(RecordingCommand::Status) ==> args.tail[0] == "status"@
            &&& plan == PlanView::Recording(RecordingCommand::Watch) ==> args.tail[0] == "watch"@
            &&& plan == PlanView::Recording(RecordingCommand::ShowControls) ==> args.tail[0]
                == "show-controls"@
        },
        args.tail == seq!["status"@] && args.json ==> args.plan(windows) == Ok::<
            PlanView,
            Seq<char>,
        >(PlanView::Recording(RecordingCommand::Status)),
        args.tail == seq!["watch"@] && args.json ==> args.plan(windows) == Ok::<
            PlanView,
            Seq<char>,
        >(PlanView::Recording(RecordingCommand::Watch)),
        args.tail == seq!["show-controls"@] && !args.json ==> args.plan(windows) == Ok::<
            PlanView,
            Seq<char>,
        >(PlanView::Recording(RecordingCommand::ShowControls)),
{
    reveal_strlit("recording");
    reveal_strlit("doctor");
    reveal_strlit("self-test");
    reveal_strlit("record");
    reveal_strlit("status");
    reveal_strlit("watch");
    reveal_strlit("show-controls");
    reveal_strlit("pause");
    reveal_strlit("resume");
    reveal_strlit("save-shelf");
    reveal_strlit("save-disk");
    reveal_strlit("discard");
    assert("recording"@.len() == 9);
    assert("doctor"@.len() == 6);
    assert("self-test"@.len() == 9);
    assert("record"@.len() == 6);
    assert("status"@.len() == 6);
    assert("watch"@.len() == 5);
    assert("show-controls"@.len() == 13);
    assert("pause"@.len() == 5);
    assert("resume"@.len() == 6);
    assert("save-shelf"@.len() == 10);
    assert("save-disk"@.len() == 9);
    assert("discard"@.len() == 7);
    assert("recording"@[0] != "self-test"@[0]);
    assert("recording"@[0] != "save-disk"@[0]);
    assert("doctor"@[0] != "record"@[0]);
    assert("doctor"@[0] != "status"@[0]);
    assert("doctor"@[0] != "resume"@[0]);
    assert("self-test"@[1] != "save-disk"@[1]);
    assert("record"@[0] != "status"@[0]);
    assert("record"@[2] != "resume"@[2]);
    assert("status"@[0] != "resume"@[0]);
    assert("watch"@[0] != "pause"@[0]);
    crate::protocol::lemma_action_names(action);
}

/// A mode has more than one name, and each name asks for one mode.
pub proof fn lemma_mode_aliases(command: Seq<char>)
    ensures
        CaptureMode::named(command) == Ok::<CaptureMode, Seq<char>>(CaptureMode::Area)
            <==> crate::text::is_among(seq!["area"@, "select"@, "selection"@, "region"@], command),
        CaptureMode::named(command) == Ok::<CaptureMode, Seq<char>>(CaptureMode::Full)
            <==> crate::text::is_among(seq!["full"@, "screen"@, "fullscreen"@], command),
        CaptureMode::named(command) == Ok::<CaptureMode, Seq<char>>(CaptureMode::Window)
            <==> crate::text::is_among(seq!["window"@, "win"@, "select-window"@], command),
        CaptureMode::named(command) == Ok::<CaptureMode, Seq<char>>(CaptureMode::ActiveWindow)
            <==> crate::text::is_among(
            seq!["active"@, "active-window"@, "current"@, "current-window"@],
            command,
        ),
{
    reveal_strlit("area");
    reveal_strlit("select");
    reveal_strlit("selection");
    reveal_strlit("region");
    reveal_strlit("full");
    reveal_strlit("screen");
    reveal_strlit("fullscreen");
    reveal_strlit("window");
    reveal_strlit("win");
    reveal_strlit("select-window");
    reveal_strlit("active");
    reveal_strlit("active-window");
    reveal_strlit("current");
    reveal_strlit("current-window");
    assert("area"@.len() == 4);
    assert("select"@.len() == 6);
    assert("selection"@.len() == 9);
    assert("region"@.len() == 6);
    assert("full"@.len() == 4);
    assert("screen"@.len() == 6);
    assert("fullscreen"@.len() == 10);
    assert("window"@.len() == 6);
    assert("win"@.len() == 3);
    assert("select-window"@.len() == 13);
    assert("active"@.len() == 6);
    assert("active-window"@.len() == 13);
    assert("current"@.len() == 7);
    assert("current-window"@.len() == 14);
    assert("area"@[0] != "full"@[0]);
    assert("select"@[0] != "region"@[0]);
    assert("select"@[1] != "screen"@[1]);
    assert("select"@[0] != "window"@[0]);
    assert("select"@[0] != "active"@[0]);
    assert("region"@[0] != "screen"@[0]);
    assert("region"@[0] != "window"@[0]);
    assert("region"@[0] != "active"@[0]);
    assert("screen"@[0] != "window"@[0]);
    assert("screen"@[0] != "active"@[0]);
    assert("window"@[0] != "active"@[0]);
    assert("select-window"@[0] != "active-window"@[0]);
    let areas = seq!["area"@, "select"@, "selection"@, "region"@];
    let fulls = seq!["full"@, "screen"@, "fullscreen"@];
    let windows = seq!["window"@, "win"@, "select-window"@];
    let active = seq!["active"@, "active-window"@, "current"@, "current-window"@];
    assert(areas[0] == "area"@ && areas[1] == "select"@ && areas[2] == "selection"@ && areas[3]
        == "region"@);
    assert(fulls[0] == "full"@ && fulls[1] == "screen"@ && fulls[2] == "fullscreen"@);
    assert(windows[0] == "window"@ && windows[1] == "win"@ && windows[2] == "select-window"@);
    assert(active[0] == "active"@ && active[1] == "active-window"@ && active[2] == "current"@
        && active[3] == "current-window"@);
}

/// Only the name of a backend asks for it.
pub proof fn lemma_backend_named(name: Seq<char>, backend: Backend)
    ensures
        Backend::named(name) == Ok::<Backend, Seq<char>>(backend) <==> name == backend.name(),
{
    lemma_backend_names(backend);
}

/// A Wayland session is one that says so, or says nothing and has a Wayland display; any other is
/// an X11 session where it says so or has a display. Nothing else is found.
pub proof fn lemma_session(environment: &Environment)
    ensures
        ({
            let display = environment.value("DISPLAY"@) is Some;
            let wayland = environment.value("WAYLAND_DISPLAY"@) is Some;
            let session = match environment.value("XDG_SESSION_TYPE"@) {
                Some(session) => crate::text::lowercased(session),
                None => crate::text::lowercased(Seq::empty()),
            };
            let found = environment.backend();
            &&& session == "wayland"@ ==> found == Ok::<Backend, Seq<char>>(Backend::Wayland)
            &&& session == "x11"@ ==> found == Ok::<Backend, Seq<char>>(Backend::X11)
            &&& session.len() == 0 && wayland ==> found == Ok::<Backend, Seq<char>>(
                Backend::Wayland,
            )
            &&& session.len() == 0 && !wayland ==> (found == Ok::<Backend, Seq<char>>(Backend::X11)
                <==> display)
            &&& session.len() > 0 && session != "wayland"@ && session != "x11"@ ==> (found == Ok::<
                Backend,
                Seq<char>,
            >(Backend::X11) <==> display)
            &&& found matches Ok(backend) ==> backend == Backend::Wayland || backend == Backend::X11
        }),
{
    reveal_strlit("wayland");
    reveal_strlit("x11");
    assert("wayland"@.len() == 7 && "x11"@.len() == 3);
}

/// The report of a screenshot ends with where it is and names its mode and backend; it says that it
/// was copied exactly where it was.
pub proof fn lemma_report(post: PostCapture, mode: CaptureMode, backend: Backend, path: Seq<char>)
    ensures
        ({
            let report = capture_report(post, mode, backend, path);
            let taken = mode.name() + " via "@ + backend.name() + ": "@ + path;
            let copied = match post {
                PostCapture::File { copy } => copy,
                PostCapture::CopyOnly => true,
                _ => false,
            };
            &&& post is Stdout <==> report.len() == 0
            &&& post is Edit || post is File || post is CopyOnly ==> crate::text::has_suffix(
                report,
                taken,
            )
            &&& post is Edit || post is File || post is CopyOnly ==> (crate::text::without_prefix(
                report,
                "Boltsnap copied "@,
            ) is Some <==> copied)
            &&& post is Shelf ==> crate::text::without_prefix(
                report,
                "Boltsnap sent "@ + mode.name() + " to shelf"@,
            ) is Some
            &&& post is Shelf ==> (crate::text::has_suffix(report, " (copied)"@) <==> post
                == PostCapture::Shelf { copy: true })
        }),
{
    reveal_strlit("Boltsnap ");
    reveal_strlit("edited ");
    reveal_strlit("copied ");
    reveal_strlit("captured ");
    reveal_strlit("Boltsnap sent ");
    reveal_strlit(" to shelf");
    reveal_strlit(" (copied)");
    reveal_strlit("Boltsnap copied ");
    reveal_strlit(" via ");
    reveal_strlit(": ");
    assert("Boltsnap "@.len() == 9);
    assert("edited "@.len() == 7);
    assert("copied "@.len() == 7);
    assert("captured "@.len() == 9);
    assert("Boltsnap sent "@.len() == 14);
    assert(" to shelf"@.len() == 9);
    assert(" (copied)"@.len() == 9);
    assert("Boltsnap copied "@.len() == 16);
    assert(" via "@.len() == 5);
    assert(": "@.len() == 2);
    assert("Boltsnap "@[0] != "captured "@[0]);
    assert("Boltsnap "@[0] != " to shelf"@[0]);
    assert("Boltsnap "@[0] != " (copied)"@[0]);
    assert("edited "@[0] != "copied "@[0]);
    assert("captured "@[0] != " to shelf"@[0]);
    assert("captured "@[0] != " (copied)"@[0]);
    assert(" to shelf"@[1] != " (copied)"@[1]);
    let report = capture_report(post, mode, backend, path);
    let taken = mode.name() + " via "@ + backend.name() + ": "@ + path;
    if post is Edit || post is File || post is CopyOnly {
        assert(report.skip(report.len() - taken.len()) =~= taken);
        let head = report.take("Boltsnap copied "@.len() as int);
        assert("Boltsnap "@ + "copied "@ =~= "Boltsnap copied "@);
        if crate::text::without_prefix(report, "Boltsnap copied "@) is Some {
            assert(report[10] == head[10]);
            assert("Boltsnap copied "@[10] == 'o');
            assert(post is Edit ==> report[10] == "edited "@[1]);
            assert(post == (PostCapture::File { copy: false }) ==> report[10] == "captured "@[1]);
        }
        if post is CopyOnly || post == (PostCapture::File { copy: true }) {
            assert(head =~= "Boltsnap copied "@);
        }
    }
    if let PostCapture::Shelf { copy } = post {
        let start = "Boltsnap sent "@ + mode.name() + " to shelf"@;
        assert(report.take(start.len() as int) =~= start);
        if copy {
            assert(report.skip(report.len() - 9) =~= " (copied)"@);
        } else {
            assert(report =~= start);
            assert(report.last() == 'f');
            if crate::text::has_suffix(report, " (copied)"@) {
                assert(report.skip(report.len() - 9)[8] == ')');
            }
        }
    }
}

/// The daemon records in the state that it tells. One that does not know the question is idle, and
/// nothing is taken for an answer that is none.
pub proof fn lemma_state_told(answer: Result<Response, WireError>, state: PublicRecordingState)
    ensures
        state_in_answer(answer) == Ok::<PublicRecordingState, Seq<char>>(state) <==> match answer {
            Ok(response) => response.ok && (response.snapshot matches Some(snapshot)
                && snapshot.state == state),
            Err(error) => error.kind == ErrorKind::UnexpectedEof && state
                == PublicRecordingState::Idle,
        },
{
}

/// What is recorded is what was selected: where, how large, and with the switches as they were left.
/// Nothing is recorded where the selection was cancelled.
pub proof fn lemma_selection_recorded(selection: &RecordSelection, request: Option<Request>)
    requires
        call_ensures(selection_request, (selection,), request),
    ensures
        request is Some <==> selection.area is Some,
        request matches Some(Request::StartRecording { x, y, w, h, show_frame, audio_enabled })
            ==> selection.area == Some((x, y, w, h)) && show_frame == selection.show_frame
            && audio_enabled == selection.audio_enabled,
        request matches Some(request) ==> request is StartRecording,
{
}

/// Where the picture goes to the standard output: where the output is a dash.
pub proof fn lemma_stdout(args: &Args, stdout: bool)
    requires
        call_ensures(is_stdout_target, (args,), stdout),
    ensures
        stdout <==> args@.output == Some("-"@),
{
}

/// A recording's answer is passed on where it is one; otherwise its error is told, or that the daemon
/// is not there.
pub proof fn lemma_checked_response(
    response: Result<Response, WireError>,
    checked: Result<Response, String>,
)
    requires
        call_ensures(checked_recording_response, (response,), checked),
    ensures
        checked is Ok <==> response is Ok && response->Ok_0.ok,
        checked matches Ok(passed) ==> response == Ok::<Response, WireError>(passed),
        response matches Ok(answer) ==> (!answer.ok ==> (answer@.error matches Some(error)
            ==> checked->Err_0@ == error)),
        response matches Err(error) ==> crate::text::has_suffix(checked->Err_0@, error.message@),
{
    if let Err(error) = response {
        let message = checked->Err_0@;
        assert(message.skip(message.len() - error.message@.len()) =~= error.message@);
    }
}

/// The state of a recording is the one that is told with an answer.
pub proof fn lemma_state_from_status(
    response: Response,
    state: Result<PublicRecordingState, String>,
    error: &WireError,
    legacy: bool,
)
    requires
        call_ensures(recording_state_from_status, (response,), state),
        call_ensures(is_legacy_recording_status_eof, (error,), legacy),
    ensures
        state is Ok <==> response.ok && response.snapshot is Some,
        state matches Ok(known) ==> response.snapshot->Some_0.state == known,
        !response.ok ==> (response@.error matches Some(message) ==> state->Err_0@ == message),
        legacy <==> error.kind == ErrorKind::UnexpectedEof,
{
}

/// A recording that runs is shown rather than begun anew. None is begun without a recorder, nor where
/// the daemon's state is not known; the whole screen is recorded where it is named, and otherwise what
/// is selected.
pub proof fn lemma_record_step(
    answer: Result<Response, WireError>,
    recorder_missing: bool,
    target: Option<&str>,
    step: Result<RecordStep, String>,
)
    requires
        call_ensures(record_step, (answer, recorder_missing, target), step),
    ensures
        step == Ok::<RecordStep, String>(RecordStep::ShowControls) <==> (answer matches Ok(response)
            && response.ok && response.snapshot is Some && response.snapshot->Some_0.state
            != PublicRecordingState::Idle),
        step is Ok && step->Ok_0 != RecordStep::ShowControls ==> !recorder_missing,
        step == Ok::<RecordStep, String>(RecordStep::StartDefault) ==> target is Some && (
        target->Some_0@ == "full"@ || target->Some_0@ == "screen"@ || target->Some_0@
            == "fullscreen"@),
        step == Ok::<RecordStep, String>(RecordStep::Select) && target is Some ==> target->Some_0@
            != "full"@ && target->Some_0@ != "screen"@ && target->Some_0@ != "fullscreen"@,
        answer matches Ok(response) ==> !response.ok || response.snapshot is None ==> step is Err,
        answer matches Err(error) ==> error.kind != ErrorKind::UnexpectedEof ==> step is Err,
        answer matches Err(error) ==> error.kind == ErrorKind::UnexpectedEof && !recorder_missing
            ==> step is Ok,
        answer matches Ok(response) ==> response.ok && response.snapshot is Some
            && !recorder_missing ==> step is Ok,
{
}

} // verus!
