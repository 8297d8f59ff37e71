//! Recordings with a smoothed pointer, made by the worker.
use vstd::prelude::*;

use crate::config::RecordProfile;
use crate::document::Document;
use crate::json::{parse_json, Parsed};
use crate::record::CaptureScope;
use crate::text::{first_chars, push_word, same, text_of, trim};

verus! {

/// How much of the worker's errors is shown.
pub const SHOWN_ERRORS: usize = 400;

/// Whether a profile leaves enough time to smooth the pointer.
pub fn supported_profile(profile: RecordProfile) -> (r: Result<(), String>)
    ensures
        if profile == RecordProfile::Quiet {
            r is Ok
        } else {
            r matches Err(message) && message@
                == "Experimental cursor smoothing requires record_profile = \"quiet\" (60 FPS); the 240 FPS path has insufficient measured headroom."@
        },
{
    if profile == RecordProfile::Quiet {
        Ok(())
    } else {
        Err(
            "Experimental cursor smoothing requires record_profile = \"quiet\" (60 FPS); the 240 FPS path has insufficient measured headroom.".to_owned(),
        )
    }
}

/// The output that is recorded: the pointer is smoothed on one whole output and by one codec only.
pub fn target(scope: &CaptureScope, codec: &str) -> (r: Result<String, String>)
    ensures
        if codec@ != "libx264"@ {
            r matches Err(message) && message@
                == "Cursor smoothing currently requires explicit libx264; hardware encoding is not approved yet."@
        } else {
            match scope {
                CaptureScope::Outputs(outputs) if outputs@.len() == 1 && outputs@[0]@.len() > 0 => {
                    r matches Ok(name) && name@ == outputs@[0]@
                },
                _ => r matches Err(message) && message@
                    == "Cursor smoothing currently supports one fullscreen output. Disable it for region or multi-output recordings."@,
            }
        },
{
    if !same(codec, "libx264") {
        return Err(
            "Cursor smoothing currently requires explicit libx264; hardware encoding is not approved yet.".to_owned(),
        );
    }
    match scope {
        CaptureScope::Outputs(outputs) => {
            if outputs.len() == 1 && outputs[0].as_str().unicode_len() > 0 {
                return Ok(outputs[0].as_str().to_owned());
            }
        },
        CaptureScope::Area(_) => {},
    }
    Err(
        "Cursor smoothing currently supports one fullscreen output. Disable it for region or multi-output recordings.".to_owned(),
    )
}

/// The words that start the worker on a recording, which goes to `path`.
pub fn record_args(output: &str, codec: &str, audio: Option<&str>, path: &str) -> (r: Vec<String>)
    ensures
        crate::text::views(r@) == seq![
            "cursor-record"@,
            output@,
            "60"@,
            codec@,
            match audio {
                Some(audio) => audio@,
                None => "-"@,
            },
            path@,
        ],
{
    let mut words: Vec<String> = Vec::new();
    push_word(&mut words, "cursor-record");
    push_word(&mut words, output);
    push_word(&mut words, "60");
    push_word(&mut words, codec);
    match audio {
        Some(audio) => {
            push_word(&mut words, audio);
        },
        None => {
            push_word(&mut words, "-");
        },
    }
    push_word(&mut words, path);
    proof {
        let sound = match audio {
            Some(audio) => audio@,
            None => "-"@,
        };
        assert(crate::text::views(words@) =~= seq![
            "cursor-record"@,
            output@,
            "60"@,
            codec@,
            sound,
            path@,
        ]);
    }
    words
}

/// The words that start a recording are understood by the worker.
pub proof fn lemma_worker_understands(
    output: Seq<char>,
    codec: Seq<char>,
    audio: Seq<char>,
    path: Seq<char>,
)
    requires
        codec == "libx264"@,
    ensures
        crate::linux::replay::native::record_asked(seq![output, "60"@, codec, audio, path])
            matches Ok(asked) && asked.output == output && asked.audio == audio
            && asked.destination == path,
{
    reveal_strlit("60");
    let words = seq![output, "60"@, codec, audio, path];
    assert(words[1] == "60"@ && words[2] == codec);
    assert("60"@.len() == 2 && "60"@[0] == '6' && "60"@[1] == '0');
    reveal_with_fuel(crate::text::digits_from, 3);
    assert(crate::text::integer("60"@, 0, u32::MAX as int) == Ok::<int, crate::text::IntError>(60));
}

/// What the worker says of itself.
pub fn smoothing(answer: &Document) -> (r: Result<(), String>)
    ensures
        if answer@.bool_at("cursor_smoothing"@) == Some(true) {
            r is Ok
        } else {
            r matches Err(message) && message@ == "worker lacks native cursor support"@
        },
{
    match answer.bool_at("cursor_smoothing") {
        Some(true) => Ok(()),
        _ => Err("worker lacks native cursor support".to_owned()),
    }
}

/// What the worker says where the pointer can be smoothed is understood.
pub proof fn lemma_answer_understood(output: Seq<char>, codec: Seq<char>)
    ensures
        crate::linux::replay::native::probe_said(output, codec).bool_at("cursor_smoothing"@) == Some(
            true,
        ),
{
    reveal_strlit("cursor_smoothing");
    reveal_strlit("output");
    reveal_strlit("codec");
    assert("cursor_smoothing"@.len() != "output"@.len());
    assert("cursor_smoothing"@.len() != "codec"@.len());
}

/// Whether the worker can smooth the pointer, given how it ended and what it printed.
pub fn probe(success: bool, printed: &[u8], errors: &[u8]) -> (r: Result<(), String>)
    ensures
        if !success {
            r matches Err(message) && message@ == crate::text::beginning(
                crate::text::trimmed(crate::text::lossy(errors@)),
                SHOWN_ERRORS as nat,
            )
        } else {
            match crate::json::parsed_json(printed@) {
                Parsed::Refused(text) => r matches Err(message) && message@ == text,
                Parsed::Document(answer) => if answer.bool_at("cursor_smoothing"@) == Some(true) {
                    r is Ok
                } else {
                    r matches Err(message) && message@ == "worker lacks native cursor support"@
                },
            }
        },
{
    if !success {
        let text = text_of(errors);
        let shown = trim(text.as_str());
        return Err(first_chars(shown.as_str(), SHOWN_ERRORS));
    }
    match parse_json(printed) {
        Err(message) => Err(message),
        Ok(answer) => smoothing(&answer),
    }
}

/// A recording with a smooth pointer is of the quiet profile, of one whole output that has a name,
/// and encoded on the processor.
pub proof fn lemma_supported(
    profile: RecordProfile,
    supported: Result<(), String>,
    scope: &CaptureScope,
    codec: &str,
    output: Result<String, String>,
)
    requires
        call_ensures(supported_profile, (profile,), supported),
        call_ensures(target, (scope, codec), output),
    ensures
        supported is Ok <==> profile == RecordProfile::Quiet,
        output is Ok <==> codec@ == "libx264"@ && scope is Outputs && scope->Outputs_0@.len() == 1
            && scope->Outputs_0@[0]@.len() > 0,
        output matches Ok(name) ==> scope->Outputs_0@[0]@ == name@,
{
}

/// The worker is told the output, the rate, the codec, the source of sound and the file, in that
/// order; a dash stands for no sound.
pub proof fn lemma_record_words(
    output: &str,
    codec: &str,
    audio: Option<&str>,
    path: &str,
    words: Vec<String>,
)
    requires
        call_ensures(record_args, (output, codec, audio, path), words),
    ensures
        words@.len() == 6,
        words@[0]@ == "cursor-record"@,
        words@[1]@ == output@,
        words@[2]@ == "60"@,
        words@[3]@ == codec@,
        audio matches Some(audio) ==> words@[4]@ == audio@,
        audio is None ==> words@[4]@ == "-"@,
        words@[5]@ == path@,
{
    let told = crate::text::views(words@);
    assert(told.len() == 6);
    assert(told[0] == words@[0]@);
    assert(told[1] == words@[1]@);
    assert(told[2] == words@[2]@);
    assert(told[3] == words@[3]@);
    assert(told[4] == words@[4]@);
    assert(told[5] == words@[5]@);
}

/// The worker can smooth the pointer only where it succeeds and says so.
pub proof fn lemma_probed(success: bool, printed: &[u8], errors: &[u8], r: Result<(), String>)
    requires
        call_ensures(probe, (success, printed, errors), r),
    ensures
        r is Ok <==> success && crate::json::parsed_json(printed@) is Document
            && crate::json::parsed_json(printed@)->Document_0.field("cursor_smoothing"@) == Some(
            crate::document::DocumentView::Bool(true),
        ),
        !success ==> r->Err_0@.len() <= 400,
{
    crate::text::lemma_beginning(
        crate::text::trimmed(crate::text::lossy(errors@)),
        SHOWN_ERRORS as nat,
    );
}

} // verus!
