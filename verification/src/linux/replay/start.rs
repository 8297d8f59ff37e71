//! The start of a replay: which output is recorded, by which encoder, and when it is ready.
use vstd::prelude::*;
use vstd::string::StringExecFns;

use crate::config::{RecordDefaultTarget, Settings, TargetView};
use crate::document::{Document, DocumentView};
use crate::json::{parse_json, Parsed};
use crate::record::{focused_place, named_place, Monitor};
use crate::text::{
    among, decimal_string, first_chars, join_texts, joined, push_word, same, text_of,
};

verus! {

/// What came of asking another program.
pub enum Asked<T> {
    /// It could not be asked.
    Failed(String),
    /// It ended with an error.
    Unsuccessful,
    Answered(T),
}

/// The output that the settings name: the replay's own setting first.
pub open spec fn named_output(own: Option<Seq<char>>, target: TargetView) -> Option<Seq<char>> {
    match own {
        Some(name) => Some(name),
        None => match target {
            TargetView::Output(name) => Some(name),
            _ => None,
        },
    }
}

/// The place of the output that is recorded.
pub open spec fn wanted_from(monitors: Seq<Monitor>, named: Option<Seq<char>>) -> int {
    match named {
        Some(name) => crate::record::named_from(monitors, name, 0),
        None => crate::record::focused_from(monitors, 0),
    }
}

/// The name of the output that is recorded: the one that the settings name, or the focused one.
pub fn choose_output(
    settings: &Settings,
    target: &RecordDefaultTarget,
    monitors: Asked<Result<Vec<Monitor>, String>>,
) -> (r: Result<String, String>)
    ensures
        match monitors {
            Asked::Failed(message) => r == Err::<String, String>(message),
            Asked::Unsuccessful => r matches Err(message) && message@
                == "could not query replay monitor"@,
            Asked::Answered(Err(message)) => r == Err::<String, String>(message),
            Asked::Answered(Ok(monitors)) => {
                let place = wanted_from(
                    monitors@,
                    named_output(crate::text::view_of(settings.output), target@),
                );
                if place < monitors@.len() {
                    r matches Ok(name) && name@ == monitors@[place].name@
                } else {
                    r matches Err(message) && message@
                        == "configured replay monitor is unavailable"@
                }
            },
        },
{
    let monitors: Vec<Monitor> = match monitors {
        Asked::Failed(message) => {
            return Err(message);
        },
        Asked::Unsuccessful => {
            return Err("could not query replay monitor".to_owned());
        },
        Asked::Answered(Err(message)) => {
            return Err(message);
        },
        Asked::Answered(Ok(monitors)) => monitors,
    };
    let place: usize = match &settings.output {
        Some(name) => named_place(&monitors, name.as_str()),
        None => match target {
            RecordDefaultTarget::Output(name) => named_place(&monitors, name.as_str()),
            _ => focused_place(&monitors),
        },
    };
    if place < monitors.len() {
        proof {
            crate::record::lemma_focused_range(monitors@, 0);
        }
        Ok(monitors[place].name.as_str().to_owned())
    } else {
        Err("configured replay monitor is unavailable".to_owned())
    }
}

/// The texts of an array from `at` on.
pub open spec fn texts_from(items: Seq<DocumentView>, at: int) -> Seq<Seq<char>>
    decreases items.len() - at,
{
    if at < 0 || at >= items.len() {
        Seq::empty()
    } else {
        match items[at] {
            DocumentView::Text(text) => seq![text] + texts_from(items, at + 1),
            _ => texts_from(items, at + 1),
        }
    }
}

/// The encoders that the worker's answer lists.
pub open spec fn listed(answer: Parsed) -> Result<Seq<Seq<char>>, Seq<char>> {
    match answer {
        Parsed::Refused(message) => Err(message),
        Parsed::Document(answer) => match answer.field("video_encoders"@) {
            Some(DocumentView::Array(items)) => Ok(texts_from(items, 0)),
            _ => Err("invalid encoder capabilities"@),
        },
    }
}

/// The encoders that a document lists.
pub fn encoders_in(answer: &Document) -> (r: Result<Vec<String>, String>)
    ensures
        listed(Parsed::Document(answer@)) == (match r {
            Ok(encoders) => Ok(crate::text::views(encoders@)),
            Err(message) => Err(message@),
        }),
{
    match answer.get("video_encoders") {
        Some(Document::Array(items)) => {
            let mut encoders: Vec<String> = Vec::new();
            let mut i: usize = 0;
            let ghost all = crate::document::item_views(items@);
            proof {
                crate::document::lemma_item_views(items@);
                assert(crate::text::views(encoders@) + texts_from(all, 0) =~= texts_from(all, 0));
            }
            while i < items.len()
                invariant
                    i <= items.len(),
                    all == crate::document::item_views(items@),
                    all.len() == items.len(),
                    forall|j: int| 0 <= j < items.len() ==> #[trigger] all[j] == items@[j]@,
                    crate::text::views(encoders@) + texts_from(all, i as int) == texts_from(all, 0),
                decreases items.len() - i,
            {
                let ghost before = crate::text::views(encoders@);
                match &items[i] {
                    Document::Text(text) => {
                        push_word(&mut encoders, text.as_str());
                        proof {
                            assert(all[i as int] == DocumentView::Text(text@));
                            assert(before.push(text@) + texts_from(all, i + 1) =~= before
                                + texts_from(all, i as int));
                        }
                    },
                    _ => {
                        proof {
                            assert(all[i as int] == items@[i as int]@);
                        }
                    },
                }
                i = i + 1;
            }
            proof {
                assert(crate::text::views(encoders@) + Seq::<Seq<char>>::empty()
                    =~= crate::text::views(encoders@));
            }
            Ok(encoders)
        },
        _ => Err("invalid encoder capabilities".to_owned()),
    }
}

/// The encoders that the worker can use.
pub fn listed_encoders(capabilities: Asked<Vec<u8>>) -> (r: Result<Vec<String>, String>)
    ensures
        match capabilities {
            Asked::Failed(error) => r matches Err(message) && message@
                == "replay worker missing or unavailable; install boltsnap-replay-worker: "@
                + error@,
            Asked::Unsuccessful => r matches Err(message) && message@
                == "replay worker could not load its media libraries"@,
            Asked::Answered(bytes) => listed(crate::json::parsed_json(bytes@)) == (match r {
                Ok(encoders) => Ok(crate::text::views(encoders@)),
                Err(message) => Err(message@),
            }),
        },
{
    match capabilities {
        Asked::Failed(error) => Err(
            joined(
                "replay worker missing or unavailable; install boltsnap-replay-worker: ",
                error.as_str(),
            ),
        ),
        Asked::Unsuccessful => Err("replay worker could not load its media libraries".to_owned()),
        Asked::Answered(bytes) => match parse_json(bytes.as_slice()) {
            Ok(answer) => encoders_in(&answer),
            Err(message) => Err(message),
        },
    }
}

/// The encoders that are tried, in order.
pub open spec fn tried_encoders(setting: Seq<char>) -> Seq<Seq<char>> {
    if setting == "auto"@ {
        seq!["h264_nvenc"@, "h264_vaapi"@, "h264_vulkan"@]
    } else {
        seq![setting]
    }
}

/// The encoders that are tried, in order.
pub fn encoder_candidates(setting: &str) -> (r: Vec<String>)
    ensures
        crate::text::views(r@) == tried_encoders(setting@),
{
    let mut encoders: Vec<String> = Vec::new();
    if same(setting, "auto") {
        push_word(&mut encoders, "h264_nvenc");
        push_word(&mut encoders, "h264_vaapi");
        push_word(&mut encoders, "h264_vulkan");
    } else {
        push_word(&mut encoders, setting);
    }
    proof {
        assert(crate::text::views(encoders@) =~= tried_encoders(setting@));
    }
    encoders
}

/// What came of trying an encoder.
pub struct Trial {
    pub success: bool,
    /// What it printed as errors.
    pub errors: Vec<u8>,
}

/// How much of an encoder's errors is shown.
pub const SHOWN_ERRORS: usize = 512;

/// The first `trials.len()` candidates were tried in vain: those that the worker has failed their
/// trial, and the others had none.
pub open spec fn tried_in_vain<P: Fn(&String) -> Result<Trial, String>>(
    candidates: Seq<String>,
    encoders: Seq<String>,
    trial: P,
    trials: Seq<Option<Trial>>,
) -> bool {
    &&& trials.len() <= candidates.len()
    &&& forall|i: int|
        0 <= i < trials.len() ==> match #[trigger] trials[i] {
            Some(result) => {
                &&& crate::text::is_among(crate::text::views(encoders), candidates[i]@)
                &&& call_ensures(trial, (&candidates[i],), Ok(result))
                &&& !result.success
            },
            None => !crate::text::is_among(crate::text::views(encoders), candidates[i]@),
        }
}

/// The errors of the trials that were made, in order.
pub open spec fn trial_errors(trials: Seq<Option<Trial>>) -> Seq<Seq<char>>
    decreases trials.len(),
{
    if trials.len() == 0 {
        Seq::empty()
    } else {
        match trials.last() {
            Some(trial) => trial_errors(trials.drop_last()).push(
                crate::text::beginning(crate::text::lossy(trial.errors@), SHOWN_ERRORS as nat),
            ),
            None => trial_errors(trials.drop_last()),
        }
    }
}

/// What comes of trying the candidates, given the trials that were in vain. None is tried without
/// asking whether the start was cancelled.
pub open spec fn choice_follows<C: Fn() -> bool, P: Fn(&String) -> Result<Trial, String>>(
    candidates: Seq<String>,
    encoders: Seq<String>,
    cancelled: C,
    trial: P,
    trials: Seq<Option<Trial>>,
    result: Result<String, String>,
) -> bool {
    let at = trials.len() as int;
    &&& tried_in_vain(candidates, encoders, trial, trials)
    &&& at > 0 || result is Ok ==> call_ensures(cancelled, (), false)
    &&& match result {
        Ok(encoder) => {
            &&& at < candidates.len()
            &&& encoder@ == candidates[at]@
            &&& crate::text::is_among(crate::text::views(encoders), candidates[at]@)
            &&& exists|last: Trial|
                #[trigger] call_ensures(trial, (&candidates[at],), Ok(last)) && last.success
        },
        Err(message) => if at == candidates.len() {
            message@ == "no usable requested hardware encoder: "@ + crate::text::joined_by(
                trial_errors(trials),
                "; "@,
            )
        } else {
            ||| call_ensures(cancelled, (), true) && message@ == "replay start cancelled"@
            ||| call_ensures(cancelled, (), false) && crate::text::is_among(
                crate::text::views(encoders),
                candidates[at]@,
            ) && call_ensures(trial, (&candidates[at],), Err(message))
        },
    }
}

/// The first candidate that the worker has and that passes its trial. The start may be cancelled
/// before each candidate.
pub fn choose_encoder<C: Fn() -> bool, P: Fn(&String) -> Result<Trial, String>>(
    candidates: &Vec<String>,
    encoders: &Vec<String>,
    cancelled: C,
    trial: P,
) -> (r: Result<String, String>)
    requires
        call_requires(cancelled, ()),
        forall|name: &String| #[trigger] call_requires(trial, (name,)),
    ensures
        exists|trials: Seq<Option<Trial>>| #[trigger]
            choice_follows(candidates@, encoders@, cancelled, trial, trials, r),
{
    let mut errors: Vec<String> = Vec::new();
    let ghost mut trials: Seq<Option<Trial>> = Seq::empty();
    let mut i: usize = 0;
    proof {
        assert(crate::text::views(errors@) =~= trial_errors(trials));
    }
    while i < candidates.len()
        invariant
            i <= candidates.len(),
            trials.len() == i,
            tried_in_vain(candidates@, encoders@, trial, trials),
            crate::text::views(errors@) == trial_errors(trials),
            i > 0 ==> call_ensures(cancelled, (), false),
            call_requires(cancelled, ()),
            forall|name: &String| #[trigger] call_requires(trial, (name,)),
        decreases candidates.len() - i,
    {
        if cancelled() {
            let r: Result<String, String> = Err("replay start cancelled".to_owned());
            proof {
                assert(choice_follows(candidates@, encoders@, cancelled, trial, trials, r));
            }
            return r;
        }
        if among(encoders, candidates[i].as_str()) {
            match trial(&candidates[i]) {
                Err(message) => {
                    let r: Result<String, String> = Err(message);
                    proof {
                        assert(choice_follows(candidates@, encoders@, cancelled, trial, trials, r));
                    }
                    return r;
                },
                Ok(result) => {
                    if result.success {
                        let r: Result<String, String> = Ok(candidates[i].as_str().to_owned());
                        proof {
                            assert(call_ensures(trial, (&candidates@[i as int],), Ok(result)));
                            assert(choice_follows(
                                candidates@,
                                encoders@,
                                cancelled,
                                trial,
                                trials,
                                r,
                            ));
                        }
                        return r;
                    }
                    let text = text_of(result.errors.as_slice());
                    push_word(&mut errors, first_chars(text.as_str(), SHOWN_ERRORS).as_str());
                    proof {
                        let before = trials;
                        trials = trials.push(Some(result));
                        assert(trials.drop_last() =~= before);
                    }
                },
            }
        } else {
            proof {
                let before = trials;
                trials = trials.push(None);
                assert(trials.drop_last() =~= before);
            }
        }
        i = i + 1;
    }
    let r: Result<String, String> = Err(
        joined("no usable requested hardware encoder: ", join_texts(&errors, "; ").as_str()),
    );
    proof {
        assert(choice_follows(candidates@, encoders@, cancelled, trial, trials, r));
    }
    r
}

/// The codec by which the capture program knows an encoder.
pub open spec fn capture_name(encoder: Seq<char>) -> Option<Seq<char>> {
    if encoder == "h264_nvenc"@ || encoder == "h264_vaapi"@ {
        Some("h264"@)
    } else if encoder == "hevc_nvenc"@ || encoder == "hevc_vaapi"@ {
        Some("hevc"@)
    } else if encoder == "av1_nvenc"@ || encoder == "av1_vaapi"@ {
        Some("av1"@)
    } else if encoder == "h264_vulkan"@ || encoder == "hevc_vulkan"@ || encoder == "av1_vulkan"@ {
        Some(encoder)
    } else {
        None
    }
}

/// The codec by which the capture program knows an encoder.
pub fn capture_codec(encoder: &str) -> (r: Result<String, String>)
    ensures
        match capture_name(encoder@) {
            Some(codec) => r matches Ok(name) && name@ == codec,
            None => r matches Err(message) && message@ == encoder@
                + " is installed, but has no compatible GPU Screen Recorder adapter"@,
        },
{
    if same(encoder, "h264_nvenc") || same(encoder, "h264_vaapi") {
        Ok("h264".to_owned())
    } else if same(encoder, "hevc_nvenc") || same(encoder, "hevc_vaapi") {
        Ok("hevc".to_owned())
    } else if same(encoder, "av1_nvenc") || same(encoder, "av1_vaapi") {
        Ok("av1".to_owned())
    } else if same(encoder, "h264_vulkan") || same(encoder, "hevc_vulkan") || same(
        encoder,
        "av1_vulkan",
    ) {
        Ok(encoder.to_owned())
    } else {
        Err(joined(encoder, " is installed, but has no compatible GPU Screen Recorder adapter"))
    }
}

/// Every encoder that is tried on its own account is one that the capture program knows.
pub proof fn lemma_tried_encoders_are_known(place: int)
    requires
        0 <= place < tried_encoders("auto"@).len(),
    ensures
        capture_name(tried_encoders("auto"@)[place]) is Some,
{
}

/// The words that start the capture program.
pub open spec fn capture_words(output: Seq<char>, fps: nat, codec: Seq<char>) -> Seq<Seq<char>> {
    seq![
        "-w"@,
        output,
        "-f"@,
        crate::text::decimal(fps),
        "-fm"@,
        "cfr"@,
        "-k"@,
        codec,
        "-q"@,
        "very_high"@,
        "-tune"@,
        "performance"@,
        "-keyint"@,
        "1"@,
        "-a"@,
        "default_output"@,
        "-ac"@,
        "aac"@,
        "-ab"@,
        "128"@,
        "-c"@,
        "nut"@,
        "-o"@,
        "/dev/stdout"@,
        "-fallback-cpu-encoding"@,
        "no"@,
        "-ffmpeg-opts"@,
        "write_index=0;syncpoints=none;strict=experimental;flush_packets=1"@,
        "-ffmpeg-video-opts"@,
        "bf=0;flags=+cgop"@,
    ]
}

/// The words that start the capture program. The selector shows frames of this stream, so it is
/// recorded at a quality that keeps text legible.
pub fn capture_args(output: &str, fps: u32, codec: &str) -> (r: Vec<String>)
    ensures
        crate::text::views(r@) == capture_words(output@, fps as nat, codec@),
{
    let mut words: Vec<String> = Vec::new();
    push_word(&mut words, "-w");
    push_word(&mut words, output);
    push_word(&mut words, "-f");
    push_word(&mut words, decimal_string(fps as u128).as_str());
    push_word(&mut words, "-fm");
    push_word(&mut words, "cfr");
    push_word(&mut words, "-k");
    push_word(&mut words, codec);
    push_word(&mut words, "-q");
    push_word(&mut words, "very_high");
    push_word(&mut words, "-tune");
    push_word(&mut words, "performance");
    push_word(&mut words, "-keyint");
    push_word(&mut words, "1");
    push_word(&mut words, "-a");
    push_word(&mut words, "default_output");
    push_word(&mut words, "-ac");
    push_word(&mut words, "aac");
    push_word(&mut words, "-ab");
    push_word(&mut words, "128");
    push_word(&mut words, "-c");
    push_word(&mut words, "nut");
    push_word(&mut words, "-o");
    push_word(&mut words, "/dev/stdout");
    push_word(&mut words, "-fallback-cpu-encoding");
    push_word(&mut words, "no");
    push_word(&mut words, "-ffmpeg-opts");
    push_word(&mut words, "write_index=0;syncpoints=none;strict=experimental;flush_packets=1");
    push_word(&mut words, "-ffmpeg-video-opts");
    push_word(&mut words, "bf=0;flags=+cgop");
    proof {
        assert(crate::text::views(words@) =~= capture_words(output@, fps as nat, codec@));
    }
    words
}

/// The name of the socket of a worker that the process `pid` starts.
pub fn worker_name(pid: u32, stamp: u128) -> (r: String)
    ensures
        r@ == "worker-"@ + crate::text::decimal(pid as nat) + "-"@ + crate::text::decimal(
            stamp as nat,
        ),
{
    let mut name: String = joined("worker-", decimal_string(pid as u128).as_str());
    name.append("-");
    name.append(decimal_string(stamp).as_str());
    name
}

/// The words that start the worker.
pub fn worker_args(name: &str, directory: &str, settings: &Settings, encoder: &str) -> (r: Vec<
    String,
>)
    ensures
        crate::text::views(r@) == seq![
            "live"@,
            name@,
            directory@,
            crate::text::decimal(settings.seconds as nat),
            crate::text::decimal(settings.memory_mib as nat),
            encoder@,
        ],
{
    let mut words: Vec<String> = Vec::new();
    push_word(&mut words, "live");
    push_word(&mut words, name);
    push_word(&mut words, directory);
    push_word(&mut words, decimal_string(settings.seconds as u128).as_str());
    push_word(&mut words, decimal_string(settings.memory_mib as u128).as_str());
    push_word(&mut words, encoder);
    proof {
        assert(crate::text::views(words@) =~= seq![
            "live"@,
            name@,
            directory@,
            crate::text::decimal(settings.seconds as nat),
            crate::text::decimal(settings.memory_mib as nat),
            encoder@,
        ]);
    }
    words
}

/// How large a clip may become: a third of the memory, so that the recording, a selection and a
/// clip fit into it together.
pub fn clip_limit(settings: &Settings) -> (r: u64)
    requires
        settings.memory_mib * 1_048_576 <= u64::MAX,
    ensures
        r == settings.memory_mib as int * 1_048_576 / 3,
        3 * r <= settings.memory_mib * 1_048_576,
{
    settings.memory_mib as u64 * 1_048_576 / 3
}

/// What is seen of a replay that is starting.
pub struct Look {
    /// A minute has passed.
    pub expired: bool,
    pub cancelled: bool,
    /// How the capture program ended, where it did.
    pub capture_exit: Result<Option<String>, String>,
    /// How the worker ended, where it did.
    pub worker_exit: Result<Option<String>, String>,
    /// What the worker says of itself.
    pub status: Option<Document>,
}

/// What follows from a look at a replay that is starting.
pub enum Wait {
    Ready,
    Failed(String),
    Again,
}

/// What a [`Wait`] says.
pub enum WaitView {
    Ready,
    Failed(Seq<char>),
    Again,
}

impl Wait {
    /// What is to be done.
    pub open spec fn view(&self) -> WaitView {
        match self {
            Wait::Ready => WaitView::Ready,
            Wait::Failed(message) => WaitView::Failed(message@),
            Wait::Again => WaitView::Again,
        }
    }
}

impl Look {
    /// What follows from the look.
    pub open spec fn verdict(&self) -> WaitView {
        if self.expired {
            WaitView::Failed(
                "replay did not receive a decodable video frame within sixty seconds"@,
            )
        } else if self.cancelled {
            WaitView::Failed("replay start cancelled"@)
        } else {
            match self.capture_exit {
                Err(error) => WaitView::Failed(error@),
                Ok(Some(exit)) => WaitView::Failed("replay capture failed: "@ + exit@),
                Ok(None) => match self.worker_exit {
                    Err(error) => WaitView::Failed(error@),
                    Ok(Some(exit)) => WaitView::Failed("replay worker failed: "@ + exit@),
                    Ok(None) => match self.status {
                        None => WaitView::Again,
                        Some(status) => if status@.bool_at("ready"@) == Some(true) {
                            WaitView::Ready
                        } else {
                            match status@.text_at("error"@) {
                                Some(error) => WaitView::Failed(error),
                                None => WaitView::Again,
                            }
                        },
                    },
                },
            }
        }
    }

    /// What follows from the look.
    pub fn judge(self) -> (r: Wait)
        ensures
            r@ == self.verdict(),
    {
        if self.expired {
            return Wait::Failed(
                "replay did not receive a decodable video frame within sixty seconds".to_owned(),
            );
        }
        if self.cancelled {
            return Wait::Failed("replay start cancelled".to_owned());
        }
        match self.capture_exit {
            Err(error) => {
                return Wait::Failed(error);
            },
            Ok(Some(exit)) => {
                return Wait::Failed(joined("replay capture failed: ", exit.as_str()));
            },
            Ok(None) => {},
        }
        match self.worker_exit {
            Err(error) => {
                return Wait::Failed(error);
            },
            Ok(Some(exit)) => {
                return Wait::Failed(joined("replay worker failed: ", exit.as_str()));
            },
            Ok(None) => {},
        }
        match self.status {
            None => Wait::Again,
            Some(status) => match status.bool_at("ready") {
                Some(true) => Wait::Ready,
                _ => match status.text_at("error") {
                    Some(error) => Wait::Failed(error.to_owned()),
                    None => Wait::Again,
                },
            },
        }
    }
}

/// A start that was cancelled never becomes ready.
pub proof fn lemma_cancelled_start(look: Look)
    requires
        look.cancelled,
    ensures
        look.verdict() is Failed,
{
}

/// Replay records the output that its own settings name, or else the one that recordings name, or
/// else the focused one; the first that fits, and none where none does.
pub proof fn lemma_chosen_output(
    settings: &Settings,
    target: &RecordDefaultTarget,
    monitors: Vec<Monitor>,
    chosen: Result<String, String>,
)
    requires
        call_ensures(choose_output, (settings, target, Asked::Answered(Ok(monitors))), chosen),
    ensures
        chosen matches Ok(name) ==> {
            &&& settings.output matches Some(own) ==> name@ == own@
            &&& settings.output is None ==> (target@ matches TargetView::Output(named) ==> name@
                == named)
            &&& settings.output is None && !(target@ is Output) ==> (exists|i: int|
                0 <= i < monitors@.len() && (#[trigger] monitors@[i]).focused
                    && monitors@[i].name@ == name@)
        },
        settings.output is Some && (exists|i: int|
            0 <= i < monitors@.len() && (#[trigger] monitors@[i]).name@ == settings.output->Some_0@)
            ==> chosen is Ok,
        settings.output is None && !(target@ is Output) && (exists|i: int|
            0 <= i < monitors@.len() && (#[trigger] monitors@[i]).focused) ==> chosen is Ok,
{
    let named = named_output(crate::text::view_of(settings.output), target@);
    let name = match named {
        Some(name) => name,
        None => Seq::empty(),
    };
    crate::record::lemma_place_from(monitors@, name, 0);
    let place = wanted_from(monitors@, named);
    if place < monitors@.len() {
        assert(monitors@[place].name@ == monitors@[place].name@);
    }
}

/// Where asking for outputs fails, that is what comes of choosing one.
pub proof fn lemma_outputs_unknown(
    settings: &Settings,
    target: &RecordDefaultTarget,
    error: String,
    chosen: Result<String, String>,
    unheard: Result<String, String>,
)
    requires
        call_ensures(choose_output, (settings, target, Asked::Failed(error)), chosen),
        call_ensures(choose_output, (settings, target, Asked::Unsuccessful), unheard),
    ensures
        chosen == Err::<String, String>(error),
        unheard is Err,
{
}

/// The encoders of an answer are the texts in its list, in their order.
pub proof fn lemma_texts(items: Seq<DocumentView>, at: int)
    requires
        0 <= at <= items.len(),
    ensures
        (forall|i: int| at <= i < items.len() ==> (#[trigger] items[i]) is Text) ==> texts_from(
            items,
            at,
        ) == Seq::new((items.len() - at) as nat, |i: int| items[at + i]->Text_0),
        forall|text: Seq<char>|
            crate::text::is_among(texts_from(items, at), text) <==> exists|i: int|
                at <= i < items.len() && #[trigger] items[i] == DocumentView::Text(text),
    decreases items.len() - at,
{
    if at < items.len() {
        lemma_texts(items, at + 1);
        let rest = texts_from(items, at + 1);
        let all = texts_from(items, at);
        assert forall|text: Seq<char>|
            crate::text::is_among(all, text) <==> exists|i: int|
                at <= i < items.len() && #[trigger] items[i] == DocumentView::Text(text) by {
            if crate::text::is_among(all, text) {
                let k = choose|k: int| 0 <= k < all.len() && all[k] == text;
                if items[at] is Text {
                    if k == 0 {
                        assert(items[at] == DocumentView::Text(text));
                    } else {
                        assert(rest[k - 1] == text);
                        assert(crate::text::is_among(rest, text));
                    }
                }
            }
            if exists|i: int| at <= i < items.len() && #[trigger] items[i] == DocumentView::Text(text) {
                let i = choose|i: int|
                    at <= i < items.len() && #[trigger] items[i] == DocumentView::Text(text);
                if i == at {
                    assert(all[0] == text);
                } else {
                    assert(crate::text::is_among(rest, text));
                    let k = choose|k: int| 0 <= k < rest.len() && rest[k] == text;
                    if items[at] is Text {
                        assert(all[k + 1] == text);
                    } else {
                        assert(all[k] == text);
                    }
                }
            }
        }
        if forall|i: int| at <= i < items.len() ==> (#[trigger] items[i]) is Text {
            assert(items[at] is Text);
            assert(all =~= Seq::new((items.len() - at) as nat, |i: int| items[at + i]->Text_0));
        }
    } else {
        assert forall|text: Seq<char>|
            crate::text::is_among(texts_from(items, at), text) <==> exists|i: int|
                at <= i < items.len() && #[trigger] items[i] == DocumentView::Text(text) by {}
    }
}

/// What is listed is the list in the field of that name.
pub proof fn lemma_listed(answer: DocumentView)
    ensures
        listed(Parsed::Document(answer)) is Ok <==> answer.field("video_encoders"@) is Some
            && answer.field("video_encoders"@)->Some_0 is Array,
        listed(Parsed::Document(answer)) matches Ok(encoders) ==> encoders == texts_from(
            answer.field("video_encoders"@)->Some_0->Array_0,
            0,
        ),
{
}

/// An encoder that is set is the only one that is tried; without a choice those of the hardware are.
pub proof fn lemma_tried(setting: &str, tried: Vec<String>)
    requires
        call_ensures(encoder_candidates, (setting,), tried),
    ensures
        setting@ != "auto"@ ==> tried@.len() == 1 && tried@[0]@ == setting@,
        setting@ == "auto"@ ==> tried@.len() == 3 && tried@[0]@ == "h264_nvenc"@ && tried@[1]@
            == "h264_vaapi"@ && tried@[2]@ == "h264_vulkan"@,
{
    let told = crate::text::views(tried@);
    assert(told.len() == tried@.len());
    assert(told[0] == tried@[0]@);
    if setting@ == "auto"@ {
        assert(told[1] == tried@[1]@);
        assert(told[2] == tried@[2]@);
    }
}

/// The recorder's codec is the one that the encoder's name begins with; an encoder of Vulkan is
/// named as it is.
pub proof fn lemma_capture_name(encoder: Seq<char>)
    ensures
        encoder == "h264_nvenc"@ || encoder == "h264_vaapi"@ ==> capture_name(encoder) == Some(
            "h264"@,
        ),
        encoder == "hevc_nvenc"@ || encoder == "hevc_vaapi"@ ==> capture_name(encoder) == Some(
            "hevc"@,
        ),
        encoder == "av1_nvenc"@ || encoder == "av1_vaapi"@ ==> capture_name(encoder) == Some(
            "av1"@,
        ),
        encoder == "h264_vulkan"@ || encoder == "hevc_vulkan"@ || encoder == "av1_vulkan"@
            ==> capture_name(encoder) == Some(encoder),
        capture_name(encoder) matches Some(codec) ==> crate::text::without_prefix(encoder, codec)
            is Some,
{
    reveal_strlit("h264_nvenc");
    reveal_strlit("h264_vaapi");
    reveal_strlit("hevc_nvenc");
    reveal_strlit("hevc_vaapi");
    reveal_strlit("av1_nvenc");
    reveal_strlit("av1_vaapi");
    reveal_strlit("h264_vulkan");
    reveal_strlit("hevc_vulkan");
    reveal_strlit("av1_vulkan");
    reveal_strlit("h264");
    reveal_strlit("hevc");
    reveal_strlit("av1");
    assert("h264_nvenc"@.len() == 10);
    assert("h264_vaapi"@.len() == 10);
    assert("hevc_nvenc"@.len() == 10);
    assert("hevc_vaapi"@.len() == 10);
    assert("av1_nvenc"@.len() == 9);
    assert("av1_vaapi"@.len() == 9);
    assert("h264_vulkan"@.len() == 11);
    assert("hevc_vulkan"@.len() == 11);
    assert("av1_vulkan"@.len() == 10);
    assert("h264"@.len() == 4);
    assert("hevc"@.len() == 4);
    assert("av1"@.len() == 3);
    assert("h264_nvenc"@[5] != "h264_vaapi"@[5]);
    assert("h264_nvenc"@[1] != "hevc_nvenc"@[1]);
    assert("h264_nvenc"@[1] != "hevc_vaapi"@[1]);
    assert("h264_nvenc"@[0] != "av1_vulkan"@[0]);
    assert("h264_vaapi"@[1] != "hevc_nvenc"@[1]);
    assert("h264_vaapi"@[1] != "hevc_vaapi"@[1]);
    assert("h264_vaapi"@[0] != "av1_vulkan"@[0]);
    assert("hevc_nvenc"@[5] != "hevc_vaapi"@[5]);
    assert("hevc_nvenc"@[0] != "av1_vulkan"@[0]);
    assert("hevc_vaapi"@[0] != "av1_vulkan"@[0]);
    assert("av1_nvenc"@[4] != "av1_vaapi"@[4]);
    assert("h264_vulkan"@[1] != "hevc_vulkan"@[1]);
    assert("h264"@[1] != "hevc"@[1]);
    assert("h264_nvenc"@.take(4) =~= "h264"@);
    assert("h264_vaapi"@.take(4) =~= "h264"@);
    assert("hevc_nvenc"@.take(4) =~= "hevc"@);
    assert("hevc_vaapi"@.take(4) =~= "hevc"@);
    assert("av1_nvenc"@.take(3) =~= "av1"@);
    assert("av1_vaapi"@.take(3) =~= "av1"@);
    assert(encoder.take(encoder.len() as int) =~= encoder);
}

/// The capture is told the output, the rate and the codec, each behind its own option, and writes to
/// where the worker reads.
pub proof fn lemma_capture_words(output: &str, fps: u32, codec: &str, words: Vec<String>)
    requires
        call_ensures(capture_args, (output, fps, codec), words),
    ensures
        ({
            let told = |flag: Seq<char>| crate::text::option_from(
                crate::text::views(words@),
                flag,
                0,
            );
            &&& told("-w"@) == Some(output@)
            &&& told("-f"@) == Some(crate::text::decimal(fps as nat))
            &&& told("-fm"@) == Some("cfr"@)
            &&& told("-k"@) == Some(codec@)
            &&& told("-q"@) == Some("very_high"@)
            &&& told("-tune"@) == Some("performance"@)
            &&& told("-keyint"@) == Some("1"@)
            &&& told("-a"@) == Some("default_output"@)
            &&& told("-ac"@) == Some("aac"@)
            &&& told("-ab"@) == Some("128"@)
            &&& told("-c"@) == Some("nut"@)
            &&& told("-o"@) == Some("/dev/stdout"@)
            &&& told("-fallback-cpu-encoding"@) == Some("no"@)
            &&& told("-ffmpeg-opts"@) == Some(
                "write_index=0;syncpoints=none;strict=experimental;flush_packets=1"@,
            )
            &&& told("-ffmpeg-video-opts"@) == Some("bf=0;flags=+cgop"@)
        }),
        words@.len() == 30,
{
    reveal_strlit("-w");
    reveal_strlit("-f");
    reveal_strlit("-fm");
    reveal_strlit("-k");
    reveal_strlit("-q");
    reveal_strlit("-tune");
    reveal_strlit("-keyint");
    reveal_strlit("-a");
    reveal_strlit("-ac");
    reveal_strlit("-ab");
    reveal_strlit("-c");
    reveal_strlit("-o");
    reveal_strlit("-fallback-cpu-encoding");
    reveal_strlit("-ffmpeg-opts");
    reveal_strlit("-ffmpeg-video-opts");
    assert("-w"@.len() == 2);
    assert("-f"@.len() == 2);
    assert("-fm"@.len() == 3);
    assert("-k"@.len() == 2);
    assert("-q"@.len() == 2);
    assert("-tune"@.len() == 5);
    assert("-keyint"@.len() == 7);
    assert("-a"@.len() == 2);
    assert("-ac"@.len() == 3);
    assert("-ab"@.len() == 3);
    assert("-c"@.len() == 2);
    assert("-o"@.len() == 2);
    assert("-fallback-cpu-encoding"@.len() == 22);
    assert("-ffmpeg-opts"@.len() == 12);
    assert("-ffmpeg-video-opts"@.len() == 18);
    assert("-w"@[1] != "-f"@[1]);
    assert("-w"@[1] != "-k"@[1]);
    assert("-w"@[1] != "-q"@[1]);
    assert("-w"@[1] != "-a"@[1]);
    assert("-w"@[1] != "-c"@[1]);
    assert("-w"@[1] != "-o"@[1]);
    assert("-f"@[1] != "-k"@[1]);
    assert("-f"@[1] != "-q"@[1]);
    assert("-f"@[1] != "-a"@[1]);
    assert("-f"@[1] != "-c"@[1]);
    assert("-f"@[1] != "-o"@[1]);
    assert("-fm"@[1] != "-ac"@[1]);
    assert("-fm"@[1] != "-ab"@[1]);
    assert("-k"@[1] != "-q"@[1]);
    assert("-k"@[1] != "-a"@[1]);
    assert("-k"@[1] != "-c"@[1]);
    assert("-k"@[1] != "-o"@[1]);
    assert("-q"@[1] != "-a"@[1]);
    assert("-q"@[1] != "-c"@[1]);
    assert("-q"@[1] != "-o"@[1]);
    assert("-a"@[1] != "-c"@[1]);
    assert("-a"@[1] != "-o"@[1]);
    assert("-ac"@[2] != "-ab"@[2]);
    assert("-c"@[1] != "-o"@[1]);
    reveal_with_fuel(crate::text::option_from, 16);
}

/// The worker is told its socket, its directory, how long and how much it keeps, and the encoder of
/// crops, in that order; it is named for the process and the time.
pub proof fn lemma_worker_words(
    name: &str,
    directory: &str,
    settings: &Settings,
    encoder: &str,
    words: Vec<String>,
    pid: u32,
    stamp: u128,
    called: String,
)
    requires
        call_ensures(worker_args, (name, directory, settings, encoder), words),
        call_ensures(worker_name, (pid, stamp), called),
    ensures
        words@.len() == 6,
        words@[0]@ == "live"@,
        words@[1]@ == name@,
        words@[2]@ == directory@,
        words@[3]@ == crate::text::decimal(settings.seconds as nat),
        words@[4]@ == crate::text::decimal(settings.memory_mib as nat),
        words@[5]@ == encoder@,
        called@ == "worker-"@ + crate::text::decimal(pid as nat) + "-"@ + crate::text::decimal(
            stamp as nat,
        ),
{
    let told = crate::text::views(words@);
    assert(told.len() == 6);
    assert(told[0] == words@[0]@);
    assert(told[1] == words@[1]@);
    assert(told[2] == words@[2]@);
    assert(told[3] == words@[3]@);
    assert(told[4] == words@[4]@);
    assert(told[5] == words@[5]@);
}

/// A start is done only where nothing failed and the worker says that it is ready; it is looked at
/// again only while nothing failed.
pub proof fn lemma_verdict(look: Look)
    ensures
        look.verdict() is Ready <==> {
            &&& !look.expired && !look.cancelled
            &&& look.capture_exit == Ok::<Option<String>, String>(None)
            &&& look.worker_exit == Ok::<Option<String>, String>(None)
            &&& look.status matches Some(status) && status@.field("ready"@) == Some(
                DocumentView::Bool(true),
            )
        },
        look.verdict() is Again <==> {
            &&& !look.expired && !look.cancelled
            &&& look.capture_exit == Ok::<Option<String>, String>(None)
            &&& look.worker_exit == Ok::<Option<String>, String>(None)
            &&& look.status matches Some(status) ==> status@.field("ready"@) != Some(
                DocumentView::Bool(true),
            ) && status@.text_at("error"@) is None
        },
        !look.expired && !look.cancelled ==> (look.capture_exit matches Err(error)
            ==> look.verdict() == WaitView::Failed(error@)),
        !look.expired && !look.cancelled ==> (look.capture_exit matches Ok(Some(exit))
            ==> look.verdict() == WaitView::Failed("replay capture failed: "@ + exit@)),
        !look.expired && !look.cancelled && look.capture_exit == Ok::<Option<String>, String>(None)
            ==> (look.worker_exit matches Ok(Some(exit)) ==> look.verdict() == WaitView::Failed(
            "replay worker failed: "@ + exit@,
        )),
{
}

/// A clip may take a third of the memory that replay may.
pub proof fn lemma_clip_limit(settings: &Settings, limit: u64)
    requires
        settings.memory_mib * 1_048_576 <= u64::MAX,
        call_ensures(clip_limit, (settings,), limit),
    ensures
        3 * limit <= settings.memory_mib * 1_048_576 < 3 * limit + 3,
{
}

/// An encoder that is chosen is one of those to be tried and one that the worker lists; it is the
/// first of them where the first is listed and works.
pub proof fn lemma_encoder_chosen<C: Fn() -> bool, P: Fn(&String) -> Result<Trial, String>>(
    candidates: &Vec<String>,
    encoders: &Vec<String>,
    cancelled: C,
    trial: P,
    chosen: Result<String, String>,
)
    requires
        call_ensures(choose_encoder::<C, P>, (candidates, encoders, cancelled, trial), chosen),
    ensures
        chosen matches Ok(encoder) ==> {
            &&& crate::text::is_among(crate::text::views(candidates@), encoder@)
            &&& crate::text::is_among(crate::text::views(encoders@), encoder@)
            &&& exists|i: int, last: Trial|
                0 <= i < candidates@.len() && (#[trigger] candidates@[i])@ == encoder@
                    && #[trigger] call_ensures(trial, (&candidates@[i],), Ok(last)) && last.success
        },
        candidates@.len() == 0 ==> chosen is Err,
{
    let trials = choose|trials: Seq<Option<Trial>>| #[trigger]
        choice_follows(candidates@, encoders@, cancelled, trial, trials, chosen);
    if let Ok(encoder) = chosen {
        let at = trials.len() as int;
        assert(crate::text::views(candidates@)[at] == candidates@[at]@);
        let last = choose|last: Trial|
            #[trigger] call_ensures(trial, (&candidates@[at],), Ok(last)) && last.success;
        assert(candidates@[at]@ == encoder@);
    }
}

/// No encoder before the one that is chosen is both listed and works.
pub proof fn lemma_first_encoder<C: Fn() -> bool, P: Fn(&String) -> Result<Trial, String>>(
    candidates: &Vec<String>,
    encoders: &Vec<String>,
    cancelled: C,
    trial: P,
    chosen: Result<String, String>,
)
    requires
        call_ensures(choose_encoder::<C, P>, (candidates, encoders, cancelled, trial), chosen),
    ensures
        chosen matches Ok(encoder) ==> exists|at: int|
            0 <= at < candidates@.len() && (#[trigger] candidates@[at])@ == encoder@ && (forall|
                i: int,
            |
                0 <= i < at ==> !crate::text::is_among(
                    crate::text::views(encoders@),
                    (#[trigger] candidates@[i])@,
                ) || exists|failed: Trial|
                    #[trigger] call_ensures(trial, (&candidates@[i],), Ok(failed))
                        && !failed.success),
{
    let trials = choose|trials: Seq<Option<Trial>>| #[trigger]
        choice_follows(candidates@, encoders@, cancelled, trial, trials, chosen);
    if let Ok(encoder) = chosen {
        let at = trials.len() as int;
        assert(candidates@[at]@ == encoder@);
        assert forall|i: int| 0 <= i < at implies !crate::text::is_among(
            crate::text::views(encoders@),
            (#[trigger] candidates@[i])@,
        ) || exists|failed: Trial|
            #[trigger] call_ensures(trial, (&candidates@[i],), Ok(failed)) && !failed.success by {
            if let Some(failed) = trials[i] {
                assert(call_ensures(trial, (&candidates@[i],), Ok(failed)) && !failed.success);
            }
        }
    }
}

} // verus!
