//! The command line of the worker, and what it says of itself.
use vstd::prelude::*;

use crate::config::Settings;
use crate::document::{Document, DocumentView};
use crate::order::sorted;
use crate::text::{joined, parse_integer, same};

verus! {

/// What is shown of a command line that is not understood.
pub const USAGE: &'static str = "usage: boltsnap-replay-worker capabilities | check-encoder ENCODER | live SOCKET DIRECTORY SECONDS MEMORY_MIB ENCODER | probe --input PATH|- --output FILE.mkv --closed-gop [--seconds N] [--memory-mib N]";

/// What the worker is told to do.
pub enum WorkerCommand {
    CheckEncoder(String),
    Live {
        name: String,
        directory: String,
        seconds: u64,
        /// How many bytes the recording, a selection and a clip may take together.
        memory: u64,
        encoder: String,
    },
    Capabilities,
    Probe(Probe),
}

/// What a [`WorkerCommand`] says.
pub enum CommandView {
    CheckEncoder(Seq<char>),
    Live {
        name: Seq<char>,
        directory: Seq<char>,
        seconds: u64,
        memory: u64,
        encoder: Seq<char>,
    },
    Capabilities,
    Probe(ProbeView),
}

/// A recording that is read and written to try the worker.
pub struct Probe {
    pub input: String,
    pub output: String,
    pub seconds: u64,
    /// How many bytes the recording may take.
    pub budget: u64,
}

/// What a [`Probe`] says.
pub struct ProbeView {
    pub input: Seq<char>,
    pub output: Seq<char>,
    pub seconds: u64,
    pub budget: u64,
}

impl WorkerCommand {
    /// What the worker is told to do.
    pub open spec fn view(&self) -> CommandView {
        match self {
            WorkerCommand::CheckEncoder(encoder) => CommandView::CheckEncoder(encoder@),
            WorkerCommand::Live { name, directory, seconds, memory, encoder } => {
                CommandView::Live {
                    name: name@,
                    directory: directory@,
                    seconds: *seconds,
                    memory: *memory,
                    encoder: encoder@,
                }
            },
            WorkerCommand::Capabilities => CommandView::Capabilities,
            WorkerCommand::Probe(probe) => CommandView::Probe(
                ProbeView {
                    input: probe.input@,
                    output: probe.output@,
                    seconds: probe.seconds,
                    budget: probe.budget,
                },
            ),
        }
    }
}

/// The number at a place of the command line.
pub open spec fn number_at(words: Seq<Seq<char>>, at: int) -> Option<u64> {
    if 0 <= at < words.len() {
        match crate::text::integer(words[at], 0, u64::MAX as int) {
            Ok(value) => Some(value as u64),
            Err(_) => None,
        }
    } else {
        None
    }
}

/// The number at a place of the command line.
fn number(words: &[String], at: usize) -> (r: Option<u64>)
    ensures
        r == number_at(crate::text::views(words@), at as int),
{
    if at >= words.len() {
        return None;
    }
    match parse_integer(words[at].as_str(), 0, u64::MAX) {
        Ok(value) => Some(value as u64),
        Err(_) => None,
    }
}

/// What the options of a probe have set so far.
pub struct OptionsView {
    pub input: Option<Seq<char>>,
    pub output: Option<Seq<char>>,
    pub seconds: u64,
    pub memory_mib: u64,
    pub closed_gop: bool,
}

/// What the options of a probe have set so far.
struct Options {
    input: Option<String>,
    output: Option<String>,
    seconds: u64,
    memory_mib: u64,
    closed_gop: bool,
}

impl Options {
    pub closed spec fn view(&self) -> OptionsView {
        OptionsView {
            input: crate::text::view_of(self.input),
            output: crate::text::view_of(self.output),
            seconds: self.seconds,
            memory_mib: self.memory_mib,
            closed_gop: self.closed_gop,
        }
    }
}

/// What holds where no option is given.
pub open spec fn no_options() -> OptionsView {
    OptionsView {
        input: None,
        output: None,
        seconds: crate::config::SettingsView::unset().seconds,
        memory_mib: crate::config::SettingsView::unset().memory_mib as u64,
        closed_gop: false,
    }
}

/// What the options of a probe from a place on set.
pub open spec fn options_from(words: Seq<Seq<char>>, at: int, options: OptionsView) -> Result<
    OptionsView,
    Seq<char>,
>
    decreases words.len() - at,
{
    if at < 0 || at >= words.len() {
        Ok(options)
    } else if words[at] == "--closed-gop"@ {
        options_from(words, at + 1, OptionsView { closed_gop: true, ..options })
    } else if words[at] == "--input"@ {
        if at + 1 < words.len() {
            options_from(words, at + 2, OptionsView { input: Some(words[at + 1]), ..options })
        } else {
            Err("--input requires a path"@)
        }
    } else if words[at] == "--output"@ {
        if at + 1 < words.len() {
            options_from(words, at + 2, OptionsView { output: Some(words[at + 1]), ..options })
        } else {
            Err("--output requires a path"@)
        }
    } else if words[at] == "--seconds"@ {
        match number_at(words, at + 1) {
            Some(seconds) => options_from(words, at + 2, OptionsView { seconds, ..options }),
            None => Err("--seconds requires an integer"@),
        }
    } else if words[at] == "--memory-mib"@ {
        match number_at(words, at + 1) {
            Some(memory_mib) => options_from(words, at + 2, OptionsView { memory_mib, ..options }),
            None => Err("--memory-mib requires an integer"@),
        }
    } else {
        Err("unknown probe option: "@ + words[at])
    }
}

/// The probe that options ask for.
pub open spec fn probe_of(options: OptionsView) -> Result<ProbeView, Seq<char>> {
    if !options.closed_gop {
        Err("probe requires --closed-gop for a known closed-GOP, non-reordered test stream"@)
    } else if !(1 <= options.seconds <= 600 && 1 <= options.memory_mib <= 4096) {
        Err("seconds must be 1..600 and memory-mib must be 1..4096"@)
    } else if options.input is None {
        Err("--input is required"@)
    } else if options.output is None {
        Err("--output is required"@)
    } else {
        Ok(
            ProbeView {
                input: options.input->Some_0,
                output: options.output->Some_0,
                seconds: options.seconds,
                budget: (options.memory_mib * 1_048_576) as u64,
            },
        )
    }
}

/// What the words of a command line tell the worker. The first word is its command.
pub open spec fn told(words: Seq<Seq<char>>) -> Result<CommandView, Seq<char>> {
    if words.len() > 0 && words[0] == "check-encoder"@ {
        if words.len() == 1 {
            Err("missing encoder"@)
        } else if words.len() > 2 {
            Err("unexpected encoder probe option"@)
        } else {
            Ok(CommandView::CheckEncoder(words[1]))
        }
    } else if words.len() > 0 && words[0] == "live"@ {
        if words.len() < 2 {
            Err("live requires socket name"@)
        } else if words.len() < 3 {
            Err("live requires output directory"@)
        } else if number_at(words, 3) is None {
            Err("live requires seconds"@)
        } else if number_at(words, 4) is None {
            Err("live requires memory MiB"@)
        } else if words.len() < 6 {
            Err("live requires crop encoder"@)
        } else {
            let seconds = number_at(words, 3)->Some_0;
            let mib = number_at(words, 4)->Some_0;
            if words.len() > 6 || !(1 <= seconds <= 600) || !(64 <= mib <= 4096) {
                Err("invalid live options"@)
            } else {
                Ok(
                    CommandView::Live {
                        name: words[1],
                        directory: words[2],
                        seconds,
                        memory: (mib * 1_048_576) as u64,
                        encoder: words[5],
                    },
                )
            }
        }
    } else if words.len() == 1 && words[0] == "capabilities"@ {
        Ok(CommandView::Capabilities)
    } else if words.len() > 0 && words[0] == "probe"@ {
        match options_from(words, 1, no_options()) {
            Ok(options) => match probe_of(options) {
                Ok(probe) => Ok(CommandView::Probe(probe)),
                Err(message) => Err(message),
            },
            Err(message) => Err(message),
        }
    } else {
        Err(USAGE@)
    }
}

/// The probe that options ask for.
fn probe(options: Options) -> (r: Result<Probe, String>)
    ensures
        probe_of(options@) == (match r {
            Ok(probe) => Ok(WorkerCommand::Probe(probe)@->Probe_0),
            Err(message) => Err(message@),
        }),
{
    if !options.closed_gop {
        return Err(
            "probe requires --closed-gop for a known closed-GOP, non-reordered test stream".to_owned(),
        );
    }
    if options.seconds < 1 || options.seconds > 600 || options.memory_mib < 1 || options.memory_mib
        > 4096 {
        return Err("seconds must be 1..600 and memory-mib must be 1..4096".to_owned());
    }
    let input = match options.input {
        Some(input) => input,
        None => {
            return Err("--input is required".to_owned());
        },
    };
    let output = match options.output {
        Some(output) => output,
        None => {
            return Err("--output is required".to_owned());
        },
    };
    Ok(Probe { input, output, seconds: options.seconds, budget: options.memory_mib * 1_048_576 })
}

/// What the options of a probe set.
fn probe_options(words: &[String]) -> (r: Result<Options, String>)
    requires
        words@.len() > 0,
    ensures
        options_from(crate::text::views(words@), 1, no_options()) == (match r {
            Ok(options) => Ok(options@),
            Err(message) => Err(message@),
        }),
{
    let ghost all = crate::text::views(words@);
    let unset = Settings::default();
    let mut options = Options {
        input: None,
        output: None,
        seconds: unset.seconds,
        memory_mib: unset.memory_mib as u64,
        closed_gop: false,
    };
    let mut at: usize = 1;
    while at < words.len()
        invariant
            all == crate::text::views(words@),
            1 <= at <= words.len(),
            options_from(all, 1, no_options()) == options_from(all, at as int, options@),
        decreases words.len() - at,
    {
        let word = words[at].as_str();
        assert(all[at as int] == word@);
        if same(word, "--closed-gop") {
            options.closed_gop = true;
            at = at + 1;
        } else if same(word, "--input") {
            if words.len() - at < 2 {
                return Err("--input requires a path".to_owned());
            }
            assert(all[at + 1] == words@[at + 1]@);
            options.input = Some(words[at + 1].as_str().to_owned());
            at = at + 2;
        } else if same(word, "--output") {
            if words.len() - at < 2 {
                return Err("--output requires a path".to_owned());
            }
            assert(all[at + 1] == words@[at + 1]@);
            options.output = Some(words[at + 1].as_str().to_owned());
            at = at + 2;
        } else if same(word, "--seconds") {
            match number(words, at + 1) {
                Some(seconds) => {
                    options.seconds = seconds;
                },
                None => {
                    return Err("--seconds requires an integer".to_owned());
                },
            }
            at = at + 2;
        } else if same(word, "--memory-mib") {
            match number(words, at + 1) {
                Some(memory_mib) => {
                    options.memory_mib = memory_mib;
                },
                None => {
                    return Err("--memory-mib requires an integer".to_owned());
                },
            }
            at = at + 2;
        } else {
            return Err(joined("unknown probe option: ", word));
        }
    }
    Ok(options)
}

/// What the words of a command line tell the worker.
pub fn command(words: &[String]) -> (r: Result<WorkerCommand, String>)
    ensures
        told(crate::text::views(words@)) == (match r {
            Ok(command) => Ok(command@),
            Err(message) => Err(message@),
        }),
{
    let ghost all = crate::text::views(words@);
    if words.len() == 0 {
        return Err(USAGE.to_owned());
    }
    let first = words[0].as_str();
    assert(all[0] == first@);
    proof {
        reveal_strlit("check-encoder");
        reveal_strlit("live");
        reveal_strlit("capabilities");
        reveal_strlit("probe");
        assert("check-encoder"@.len() == 13);
        assert("live"@.len() == 4);
        assert("capabilities"@.len() == 12);
        assert("probe"@.len() == 5);
    }
    if same(first, "check-encoder") {
        if words.len() == 1 {
            return Err("missing encoder".to_owned());
        }
        if words.len() > 2 {
            return Err("unexpected encoder probe option".to_owned());
        }
        assert(all[1] == words@[1]@);
        return Ok(WorkerCommand::CheckEncoder(words[1].as_str().to_owned()));
    }
    if same(first, "live") {
        if words.len() < 2 {
            return Err("live requires socket name".to_owned());
        }
        if words.len() < 3 {
            return Err("live requires output directory".to_owned());
        }
        let seconds: u64 = match number(words, 3) {
            Some(seconds) => seconds,
            None => {
                return Err("live requires seconds".to_owned());
            },
        };
        let mib: u64 = match number(words, 4) {
            Some(mib) => mib,
            None => {
                return Err("live requires memory MiB".to_owned());
            },
        };
        if words.len() < 6 {
            return Err("live requires crop encoder".to_owned());
        }
        if words.len() > 6 || seconds < 1 || seconds > 600 || mib < 64 || mib > 4096 {
            return Err("invalid live options".to_owned());
        }
        assert(all[1] == words@[1]@ && all[2] == words@[2]@ && all[5] == words@[5]@);
        return Ok(
            WorkerCommand::Live {
                name: words[1].as_str().to_owned(),
                directory: words[2].as_str().to_owned(),
                seconds,
                memory: mib * 1_048_576,
                encoder: words[5].as_str().to_owned(),
            },
        );
    }
    if words.len() == 1 && same(first, "capabilities") {
        return Ok(WorkerCommand::Capabilities);
    }
    if same(first, "probe") {
        return match probe_options(words) {
            Ok(options) => match probe(options) {
                Ok(probe) => Ok(WorkerCommand::Probe(probe)),
                Err(message) => Err(message),
            },
            Err(message) => Err(message),
        };
    }
    Err(USAGE.to_owned())
}

/// The words that start the worker for valid settings are understood by it.
pub proof fn lemma_worker_is_told(
    name: Seq<char>,
    directory: Seq<char>,
    seconds: Seq<char>,
    mib: Seq<char>,
    encoder: Seq<char>,
)
    requires
        crate::text::integer(seconds, 0, u64::MAX as int) matches Ok(value) && 1 <= value <= 600,
        crate::text::integer(mib, 0, u64::MAX as int) matches Ok(value) && 64 <= value <= 4096,
    ensures
        told(seq!["live"@, name, directory, seconds, mib, encoder]) matches Ok(
            CommandView::Live { name: n, directory: d, encoder: e, .. },
        ) && n == name && d == directory && e == encoder,
{
    reveal_strlit("check-encoder");
    reveal_strlit("live");
    assert("check-encoder"@.len() == 13);
    assert("live"@.len() == 4);
    let words = seq!["live"@, name, directory, seconds, mib, encoder];
    assert(words[0] == "live"@ && words[3] == seconds && words[4] == mib);
}

/// Whether the directory of the clips is there.
pub fn live_directory(is_dir: bool) -> (r: Result<(), String>)
    ensures
        if is_dir {
            r is Ok
        } else {
            r matches Err(message) && message@ == "live output directory is missing"@
        },
{
    if is_dir {
        Ok(())
    } else {
        Err("live output directory is missing".to_owned())
    }
}

/// How many bytes the recording may take, and a selection and a clip of it, each as many.
pub fn share(memory: u64) -> (r: u64)
    ensures
        r == memory / 3,
        3 * r <= memory < 3 * r + 3,
{
    memory / 3
}

/// What the worker says of itself: the encoders that its libraries have, in order.
pub fn capabilities(version: u32, encoders: &Vec<String>) -> (r: Document)
    ensures
        exists|sorted: Seq<Seq<char>>|
            {
                &&& #[trigger] crate::order::in_order(sorted)
                &&& sorted.to_multiset() == crate::text::views(encoders@).to_multiset()
                &&& r@ == DocumentView::Object(
                    Map::empty().insert("protocol_version"@, DocumentView::Number(1)).insert(
                        "mode"@,
                        DocumentView::Text("probe"@),
                    ).insert("libavformat_version"@, DocumentView::Number(version as int)).insert(
                        "video_encoders"@,
                        DocumentView::texts(sorted),
                    ).insert("hardware_probed"@, DocumentView::Bool(false)),
                )
            },
{
    let encoders = sorted(encoders);
    assert(crate::order::in_order(crate::text::views(encoders@)));
    Document::object().with("protocol_version", Document::Unsigned(1)).with(
        "mode",
        Document::text("probe"),
    ).with("libavformat_version", Document::Unsigned(version as u64)).with(
        "video_encoders",
        Document::texts(&encoders),
    ).with("hardware_probed", Document::Bool(false))
}

/// What the worker is told to do, word by word: a live session has the socket, the directory, the
/// seconds, the memory and the encoder, in that order, each within its limits.
pub proof fn lemma_told_live(words: Seq<Seq<char>>)
    requires
        words.len() > 0,
        words[0] == "live"@,
    ensures
        told(words) is Ok <==> words.len() == 6 && (number_at(words, 3) matches Some(seconds) && 1
            <= seconds <= 600) && (number_at(words, 4) matches Some(mib) && 64 <= mib <= 4096),
        told(words) matches Ok(command) ==> {
            &&& command matches CommandView::Live { name, directory, seconds, memory, encoder }
            &&& name == words[1]
            &&& directory == words[2]
            &&& number_at(words, 3) == Some(seconds)
            &&& number_at(words, 4) matches Some(mib) && memory == mib * 1_048_576
            &&& encoder == words[5]
        },
{
    reveal_strlit("live");
    reveal_strlit("check-encoder");
    assert("live"@.len() == 4);
    assert("check-encoder"@.len() == 13);
}

/// A probe is of the input and the output behind their options; the stream has to be known to be
/// closed, and the limits hold.
pub proof fn lemma_probe_of(options: OptionsView)
    ensures
        probe_of(options) is Ok <==> options.closed_gop && 1 <= options.seconds <= 600 && 1
            <= options.memory_mib <= 4096 && options.input is Some && options.output is Some,
        probe_of(options) matches Ok(probe) ==> {
            &&& options.input == Some(probe.input)
            &&& options.output == Some(probe.output)
            &&& probe.seconds == options.seconds
            &&& probe.budget == options.memory_mib * 1_048_576
        },
{
}

/// Each option of a probe sets what it names, whatever comes behind it reads on; without options a
/// minute and half a gibibyte are kept.
pub proof fn lemma_probe_options(words: Seq<Seq<char>>, at: int, options: OptionsView)
    requires
        0 <= at,
    ensures
        at >= words.len() ==> options_from(words, at, options) == Ok::<OptionsView, Seq<char>>(
            options,
        ),
        at < words.len() && words[at] == "--closed-gop"@ ==> options_from(words, at, options)
            == options_from(words, at + 1, OptionsView { closed_gop: true, ..options }),
        at + 1 < words.len() && words[at] == "--input"@ ==> options_from(words, at, options)
            == options_from(words, at + 2, OptionsView { input: Some(words[at + 1]), ..options }),
        at + 1 < words.len() && words[at] == "--output"@ ==> options_from(words, at, options)
            == options_from(words, at + 2, OptionsView { output: Some(words[at + 1]), ..options }),
        at + 1 < words.len() && words[at] == "--seconds"@ ==> (number_at(words, at + 1)
            matches Some(seconds) ==> options_from(words, at, options) == options_from(
            words,
            at + 2,
            OptionsView { seconds, ..options },
        )),
        at + 1 < words.len() && words[at] == "--memory-mib"@ ==> (number_at(words, at + 1)
            matches Some(memory_mib) ==> options_from(words, at, options) == options_from(
            words,
            at + 2,
            OptionsView { memory_mib, ..options },
        )),
        at < words.len() && (words[at] == "--seconds"@ || words[at] == "--memory-mib"@)
            && number_at(words, at + 1) is None ==> options_from(words, at, options) is Err,
        at + 1 == words.len() && words[at] != "--closed-gop"@ ==> options_from(words, at, options)
            is Err,
        no_options().seconds == 60 && no_options().memory_mib == 512 && !no_options().closed_gop
            && no_options().input is None && no_options().output is None,
{
    reveal_strlit("--closed-gop");
    reveal_strlit("--input");
    reveal_strlit("--output");
    reveal_strlit("--seconds");
    reveal_strlit("--memory-mib");
    assert("--closed-gop"@.len() == 12);
    assert("--input"@.len() == 7);
    assert("--output"@.len() == 8);
    assert("--seconds"@.len() == 9);
    assert("--memory-mib"@.len() == 12);
    assert("--closed-gop"@[2] != "--memory-mib"@[2]);
}

/// A number is read from the word at its place, where that is one.
pub proof fn lemma_number_at(words: Seq<Seq<char>>, at: int, value: u64)
    requires
        0 <= at < words.len(),
        words[at] == crate::text::decimal(value as nat),
    ensures
        number_at(words, at) == Some(value),
{
    crate::text::lemma_number_read_back(value as int, 0, u64::MAX as int);
}

/// What the worker is asked for by its first word.
pub proof fn lemma_told(words: &[String], told_to: Result<WorkerCommand, String>)
    requires
        call_ensures(command, (words,), told_to),
    ensures
        words@.len() == 0 ==> told_to is Err,
        words@.len() > 0 && words@[0]@ == "check-encoder"@ ==> (told_to is Ok <==> words@.len()
            == 2),
        words@.len() > 0 && words@[0]@ == "check-encoder"@ ==> (told_to matches Ok(command)
            ==> command@ == CommandView::CheckEncoder(words@[1]@)),
        words@.len() > 0 && words@[0]@ == "capabilities"@ ==> (told_to is Ok <==> words@.len()
            == 1),
        told_to matches Ok(command) ==> (command@ is Capabilities <==> words@[0]@
            == "capabilities"@) && (command@ is Probe <==> words@[0]@ == "probe"@) && (command@
            is Live <==> words@[0]@ == "live"@),
{
    reveal_strlit("check-encoder");
    reveal_strlit("live");
    reveal_strlit("capabilities");
    reveal_strlit("probe");
    assert("check-encoder"@.len() == 13);
    assert("live"@.len() == 4);
    assert("capabilities"@.len() == 12);
    assert("probe"@.len() == 5);
    let all = crate::text::views(words@);
    assert(all.len() == words@.len());
    if words@.len() > 0 {
        assert(all[0] == words@[0]@);
    }
    if words@.len() > 1 {
        assert(all[1] == words@[1]@);
    }
}

/// What the worker can do is told field by field; its encoders are all told, in order.
pub proof fn lemma_capabilities(version: u32, encoders: &Vec<String>, told: Document)
    requires
        call_ensures(capabilities, (version, encoders), told),
    ensures
        told@.field("protocol_version"@) == Some(DocumentView::Number(1)),
        told@.field("mode"@) == Some(DocumentView::Text("probe"@)),
        told@.field("libavformat_version"@) == Some(DocumentView::Number(version as int)),
        told@.field("hardware_probed"@) == Some(DocumentView::Bool(false)),
        told@.field("video_encoders"@) matches Some(DocumentView::Array(items)) && items.len()
            == encoders@.len(),
{
    reveal_strlit("protocol_version");
    reveal_strlit("mode");
    reveal_strlit("libavformat_version");
    reveal_strlit("video_encoders");
    reveal_strlit("hardware_probed");
    assert("protocol_version"@.len() == 16);
    assert("mode"@.len() == 4);
    assert("libavformat_version"@.len() == 19);
    assert("video_encoders"@.len() == 14);
    assert("hardware_probed"@.len() == 15);
    let sorted = choose|sorted: Seq<Seq<char>>|
        {
            &&& #[trigger] crate::order::in_order(sorted)
            &&& sorted.to_multiset() == crate::text::views(encoders@).to_multiset()
            &&& told@ == DocumentView::Object(
                Map::empty().insert("protocol_version"@, DocumentView::Number(1)).insert(
                    "mode"@,
                    DocumentView::Text("probe"@),
                ).insert("libavformat_version"@, DocumentView::Number(version as int)).insert(
                    "video_encoders"@,
                    DocumentView::texts(sorted),
                ).insert("hardware_probed"@, DocumentView::Bool(false)),
            )
        };
    broadcast use vstd::seq_lib::group_to_multiset_ensures;

    assert(sorted.len() == sorted.to_multiset().len());
    assert(crate::text::views(encoders@).len() == crate::text::views(encoders@).to_multiset().len());
}

} // verus!
