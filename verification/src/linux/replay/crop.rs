//! Clips of a part of the picture, which are encoded anew.
use vstd::prelude::*;
use vstd::string::StringExecFns;

use crate::linux::replay::export::{bare_path, export_error, is_file_path};
use crate::text::{
    chars_of, decimal_string, ends_with, joined, push_word, same, slice_text, text_of, trim,
};

verus! {

/// A part of a picture.
#[derive(Clone, Copy, Debug, PartialEq, Eq, Structural)]
pub struct Crop {
    pub x: u32,
    pub y: u32,
    pub width: u32,
    pub height: u32,
}

/// The device that an encoder works on, where it is one of its own.
pub open spec fn device_of(encoder: Seq<char>) -> Option<Seq<char>> {
    if crate::text::has_suffix(encoder, "_vulkan"@) {
        Some("vulkan=clip"@)
    } else if crate::text::has_suffix(encoder, "_vaapi"@) {
        Some("vaapi=clip"@)
    } else {
        None
    }
}

/// The words that name the device that an encoder works on.
pub open spec fn device_words(encoder: Seq<char>) -> Seq<Seq<char>> {
    match device_of(encoder) {
        Some(device) => seq!["-init_hw_device"@, device, "-filter_hw_device"@, "clip"@],
        None => Seq::empty(),
    }
}

/// Appends the words that name the device that an encoder works on, and says whether there is one.
fn push_device(words: &mut Vec<String>, encoder: &str) -> (r: bool)
    ensures
        crate::text::views(final(words)@) == crate::text::views(old(words)@) + device_words(
            encoder@,
        ),
        r == (device_of(encoder@) is Some),
{
    let ghost before = crate::text::views(words@);
    let device = if ends_with(encoder, "_vulkan") {
        "vulkan=clip"
    } else if ends_with(encoder, "_vaapi") {
        "vaapi=clip"
    } else {
        proof {
            assert(before + device_words(encoder@) =~= before);
        }
        return false;
    };
    push_word(words, "-init_hw_device");
    push_word(words, device);
    push_word(words, "-filter_hw_device");
    push_word(words, "clip");
    proof {
        assert(crate::text::views(words@) =~= before + device_words(encoder@));
    }
    true
}

/// The words that try an encoder on one frame.
pub open spec fn trial_words(encoder: Seq<char>) -> Seq<Seq<char>> {
    seq!["-v"@, "error"@, "-nostdin"@] + device_words(encoder) + seq![
        "-f"@,
        "lavfi"@,
        "-i"@,
        "color=size=320x180:rate=60"@,
        "-vf"@,
        if device_of(encoder) is Some {
            "format=nv12,hwupload"@
        } else {
            "format=nv12"@
        },
        "-frames:v"@,
        "1"@,
        "-c:v"@,
        encoder,
        "-bf"@,
        "0"@,
        "-f"@,
        "null"@,
        "-"@,
    ]
}

/// The words that try an encoder on one frame.
pub fn check_encoder_args(encoder: &str) -> (r: Vec<String>)
    ensures
        crate::text::views(r@) == trial_words(encoder@),
{
    let mut words: Vec<String> = Vec::new();
    push_word(&mut words, "-v");
    push_word(&mut words, "error");
    push_word(&mut words, "-nostdin");
    let upload = push_device(&mut words, encoder);
    push_word(&mut words, "-f");
    push_word(&mut words, "lavfi");
    push_word(&mut words, "-i");
    push_word(&mut words, "color=size=320x180:rate=60");
    push_word(&mut words, "-vf");
    push_word(
        &mut words,
        if upload {
            "format=nv12,hwupload"
        } else {
            "format=nv12"
        },
    );
    push_word(&mut words, "-frames:v");
    push_word(&mut words, "1");
    push_word(&mut words, "-c:v");
    push_word(&mut words, encoder);
    push_word(&mut words, "-bf");
    push_word(&mut words, "0");
    push_word(&mut words, "-f");
    push_word(&mut words, "null");
    push_word(&mut words, "-");
    proof {
        assert(crate::text::views(words@) =~= trial_words(encoder@));
    }
    words
}

/// What the trial of an encoder says of it.
pub fn check_encoder(encoder: &str, success: bool, errors: &[u8]) -> (r: Result<(), String>)
    ensures
        if success {
            r is Ok
        } else {
            r matches Err(message) && message@ == encoder@ + " cannot initialize: "@
                + crate::text::trimmed(crate::text::lossy(errors@))
        },
{
    if success {
        return Ok(());
    }
    let text = text_of(errors);
    let mut message: String = joined(encoder, " cannot initialize: ");
    message.append(trim(text.as_str()).as_str());
    Err(message)
}

/// The words that make a preview of the frame at a place.
pub open spec fn preview_words(frame: nat) -> Seq<Seq<char>> {
    seq![
        "-v"@,
        "error"@,
        "-nostdin"@,
        "-threads"@,
        "2"@,
        "-i"@,
        "pipe:0"@,
        "-map"@,
        "0:v:0"@,
        "-vf"@,
        "select=eq(n\\,"@ + crate::text::decimal(frame) + ")"@,
        "-frames:v"@,
        "1"@,
        "-threads:v"@,
        "1"@,
        "-c:v"@,
        "png"@,
        "-f"@,
        "image2pipe"@,
        "pipe:1"@,
    ]
}

/// The words that make a preview of the last of `frames` frames.
pub fn preview_args(frames: usize) -> (r: Result<Vec<String>, String>)
    ensures
        if frames == 0 {
            r matches Err(message) && message@ == "empty preview"@
        } else {
            r matches Ok(words) && crate::text::views(words@) == preview_words(
                (frames - 1) as nat,
            )
        },
{
    if frames == 0 {
        return Err("empty preview".to_owned());
    }
    let mut filter: String = joined(
        "select=eq(n\\,",
        decimal_string((frames - 1) as u128).as_str(),
    );
    filter.append(")");
    let mut words: Vec<String> = Vec::new();
    push_word(&mut words, "-v");
    push_word(&mut words, "error");
    push_word(&mut words, "-nostdin");
    push_word(&mut words, "-threads");
    push_word(&mut words, "2");
    push_word(&mut words, "-i");
    push_word(&mut words, "pipe:0");
    push_word(&mut words, "-map");
    push_word(&mut words, "0:v:0");
    push_word(&mut words, "-vf");
    push_word(&mut words, filter.as_str());
    push_word(&mut words, "-frames:v");
    push_word(&mut words, "1");
    push_word(&mut words, "-threads:v");
    push_word(&mut words, "1");
    push_word(&mut words, "-c:v");
    push_word(&mut words, "png");
    push_word(&mut words, "-f");
    push_word(&mut words, "image2pipe");
    push_word(&mut words, "pipe:1");
    proof {
        assert(crate::text::views(words@) =~= preview_words((frames - 1) as nat));
    }
    Ok(words)
}

/// The preview that the program made.
pub fn preview(success: bool, printed: Vec<u8>) -> (r: Result<Vec<u8>, String>)
    ensures
        if success && printed@.len() > 0 {
            r == Ok::<Vec<u8>, String>(printed)
        } else {
            r matches Err(message) && message@ == "could not decode replay preview"@
        },
{
    if !success || printed.len() == 0 {
        Err("could not decode replay preview".to_owned())
    } else {
        Ok(printed)
    }
}

/// The filter that cuts a part out of the picture.
pub open spec fn crop_filter(crop: Crop, upload: bool) -> Seq<char> {
    let filter = "crop="@ + crate::text::decimal(crop.width as nat) + ":"@ + crate::text::decimal(
        crop.height as nat,
    ) + ":"@ + crate::text::decimal(crop.x as nat) + ":"@ + crate::text::decimal(crop.y as nat)
        + ",setsar=1,format=nv12"@;
    if upload {
        filter + ",hwupload"@
    } else {
        filter
    }
}

/// The words that set an encoder's quality.
pub open spec fn quality_words(encoder: Seq<char>) -> Seq<Seq<char>> {
    if crate::text::has_suffix(encoder, "_vulkan"@) || crate::text::has_suffix(encoder, "_nvenc"@) {
        seq!["-qp"@, "18"@]
    } else if crate::text::has_suffix(encoder, "_vaapi"@) {
        seq!["-global_quality"@, "18"@]
    } else if encoder == "libx264"@ || encoder == "libx265"@ {
        seq!["-preset"@, "veryfast"@, "-crf"@, "18"@]
    } else {
        Seq::empty()
    }
}

/// The words that encode a part of the picture.
pub open spec fn crop_words(crop: Crop, encoder: Seq<char>) -> Seq<Seq<char>> {
    seq!["-hide_banner"@, "-loglevel"@, "error"@, "-nostdin"@, "-threads"@, "2"@] + device_words(
        encoder,
    ) + seq![
        "-i"@,
        "pipe:0"@,
        "-map"@,
        "0:v:0"@,
        "-map"@,
        "0:a:0?"@,
        "-vf"@,
        crop_filter(crop, device_of(encoder) is Some),
        "-filter_threads"@,
        "1"@,
        "-c:v"@,
        encoder,
        "-threads:v"@,
        "2"@,
        "-bf"@,
        "0"@,
    ] + quality_words(encoder) + seq!["-c:a"@, "copy"@, "-f"@, "matroska"@, "pipe:1"@]
}

/// The filter that cuts a part out of the picture.
fn filter_text(crop: Crop, upload: bool) -> (r: String)
    ensures
        r@ == crop_filter(crop, upload),
{
    let mut filter: String = joined("crop=", decimal_string(crop.width as u128).as_str());
    filter.append(":");
    filter.append(decimal_string(crop.height as u128).as_str());
    filter.append(":");
    filter.append(decimal_string(crop.x as u128).as_str());
    filter.append(":");
    filter.append(decimal_string(crop.y as u128).as_str());
    filter.append(",setsar=1,format=nv12");
    if upload {
        filter.append(",hwupload");
    }
    filter
}

/// The words that encode a part of the picture.
pub fn crop_args(crop: Crop, encoder: &str) -> (r: Vec<String>)
    ensures
        crate::text::views(r@) == crop_words(crop, encoder@),
{
    let mut words: Vec<String> = Vec::new();
    push_word(&mut words, "-hide_banner");
    push_word(&mut words, "-loglevel");
    push_word(&mut words, "error");
    push_word(&mut words, "-nostdin");
    push_word(&mut words, "-threads");
    push_word(&mut words, "2");
    proof {
        assert(crate::text::views(words@) =~= seq![
            "-hide_banner"@,
            "-loglevel"@,
            "error"@,
            "-nostdin"@,
            "-threads"@,
            "2"@,
        ]);
    }
    let upload = push_device(&mut words, encoder);
    let filter = filter_text(crop, upload);
    let ghost opening = crate::text::views(words@);
    push_word(&mut words, "-i");
    push_word(&mut words, "pipe:0");
    push_word(&mut words, "-map");
    push_word(&mut words, "0:v:0");
    push_word(&mut words, "-map");
    push_word(&mut words, "0:a:0?");
    push_word(&mut words, "-vf");
    push_word(&mut words, filter.as_str());
    push_word(&mut words, "-filter_threads");
    push_word(&mut words, "1");
    push_word(&mut words, "-c:v");
    push_word(&mut words, encoder);
    push_word(&mut words, "-threads:v");
    push_word(&mut words, "2");
    push_word(&mut words, "-bf");
    push_word(&mut words, "0");
    let ghost before = crate::text::views(words@);
    proof {
        assert(before =~= opening + seq![
            "-i"@,
            "pipe:0"@,
            "-map"@,
            "0:v:0"@,
            "-map"@,
            "0:a:0?"@,
            "-vf"@,
            filter@,
            "-filter_threads"@,
            "1"@,
            "-c:v"@,
            encoder@,
            "-threads:v"@,
            "2"@,
            "-bf"@,
            "0"@,
        ]);
    }
    if ends_with(encoder, "_vulkan") || ends_with(encoder, "_nvenc") {
        push_word(&mut words, "-qp");
        push_word(&mut words, "18");
    } else if ends_with(encoder, "_vaapi") {
        push_word(&mut words, "-global_quality");
        push_word(&mut words, "18");
    } else if same(encoder, "libx264") || same(encoder, "libx265") {
        push_word(&mut words, "-preset");
        push_word(&mut words, "veryfast");
        push_word(&mut words, "-crf");
        push_word(&mut words, "18");
    }
    let ghost encoded = crate::text::views(words@);
    proof {
        assert(encoded =~= before + quality_words(encoder@));
    }
    push_word(&mut words, "-c:a");
    push_word(&mut words, "copy");
    push_word(&mut words, "-f");
    push_word(&mut words, "matroska");
    push_word(&mut words, "pipe:1");
    proof {
        assert(crate::text::views(words@) =~= encoded + seq![
            "-c:a"@,
            "copy"@,
            "-f"@,
            "matroska"@,
            "pipe:1"@,
        ]);
    }
    words
}

/// How many seconds the encoding of a recording may take.
pub fn deadline(start: i64, end: i64) -> (r: u64)
    requires
        i64::MIN <= end - start <= i64::MAX,
    ensures
        r == ((end - start) as u64) / 1_000_000 * 3 + 30,
        start <= end ==> r == (end - start) / 1_000_000 * 3 + 30,
{
    #[verifier::truncate]
    let microseconds: u64 = (end - start) as u64;
    microseconds / 1_000_000 * 3 + 30
}

/// How much of a clip was copied.
pub struct Copied {
    pub total: u64,
    pub limit: u64,
}

impl Copied {
    /// No more was copied than may be.
    pub open spec fn well_formed(&self) -> bool {
        self.total <= self.limit
    }

    /// Nothing was copied yet.
    pub fn new(limit: u64) -> (r: Self)
        ensures
            r.total == 0,
            r.limit == limit,
            r.well_formed(),
    {
        Copied { total: 0, limit }
    }

    /// Counts bytes before they are written. Where they would be too many, nothing is counted and
    /// nothing may be written.
    pub fn count(&mut self, bytes: u64) -> (r: Result<(), String>)
        requires
            old(self).well_formed(),
        ensures
            final(self).well_formed(),
            final(self).limit == old(self).limit,
            if old(self).total + bytes > u64::MAX {
                &&& r matches Err(message) && message@ == "crop size overflow"@
                &&& final(self).total == old(self).total
            } else if old(self).total + bytes > old(self).limit {
                &&& r matches Err(message) && message@ == "crop output exceeds its disk budget"@
                &&& final(self).total == old(self).total
            } else {
                &&& r is Ok
                &&& final(self).total == old(self).total + bytes
            },
            r is Ok <==> old(self).total + bytes <= old(self).limit,
            r is Err ==> *final(self) == *old(self),
    {
        match self.total.checked_add(bytes) {
            None => Err("crop size overflow".to_owned()),
            Some(total) => {
                if total > self.limit {
                    return Err("crop output exceeds its disk budget".to_owned());
                }
                self.total = total;
                Ok(())
            },
        }
    }
}

/// What came of a clip: `copied` is how much of it was written, and `success` whether the encoder
/// ended well.
pub fn saved(copied: Result<u64, String>, success: Result<bool, String>, partial: &str) -> (r: Result<
    u64,
    String,
>)
    ensures
        match copied {
            Err(error) => r matches Err(message) && message@ == error@ + "; partial output: "@
                + partial@,
            Ok(bytes) => match success {
                Err(error) => r == Err::<u64, String>(error),
                Ok(success) => if success && bytes > 0 {
                    r == Ok::<u64, String>(bytes)
                } else {
                    r matches Err(message) && message@
                        == "crop encoder failed; partial output: "@ + partial@
                },
            },
        },
{
    let bytes: u64 = match copied {
        Err(error) => {
            return Err(export_error(error.as_str(), partial));
        },
        Ok(bytes) => bytes,
    };
    match success {
        Err(error) => Err(error),
        Ok(success) => if success && bytes > 0 {
            Ok(bytes)
        } else {
            Err(joined("crop encoder failed; partial output: ", partial))
        },
    }
}

/// Where the last dot of a text stands: before it where there is none.
pub open spec fn last_dot(text: Seq<char>) -> int
    decreases text.len(),
{
    if text.len() == 0 {
        -1
    } else if text.last() == '.' {
        text.len() - 1
    } else {
        last_dot(text.drop_last())
    }
}

/// The path of a file without its extension: what stands behind the last dot of its name, unless the
/// name begins with that dot.
pub open spec fn without_extension(path: Seq<char>) -> Seq<char> {
    let name = crate::linux::replay::export::file_name(path);
    let dot = last_dot(name);
    if dot > 0 {
        path.take(path.len() - name.len() + dot)
    } else {
        path
    }
}

/// The path of a file with another extension in place of its own, or with none where that is empty.
/// The separators and single dots at its end are dropped. A path that names no file stays as it is.
pub open spec fn extended(path: Seq<char>, extension: Seq<char>) -> Seq<char> {
    let file = crate::linux::replay::export::bare(path);
    if !crate::linux::replay::export::names_file(file) {
        path
    } else if extension.len() == 0 {
        without_extension(file)
    } else {
        without_extension(file) + "."@ + extension
    }
}

proof fn lemma_last_dot(text: Seq<char>)
    ensures
        -1 <= last_dot(text) < text.len(),
    decreases text.len(),
{
    if text.len() > 0 && text.last() != '.' {
        lemma_last_dot(text.drop_last());
    }
}

/// A file's name is the end of its path, and what it adds to a dot found further back.
proof fn lemma_name_end(path: Seq<char>, at: int)
    requires
        0 <= at <= path.len(),
        forall|i: int| at <= i < path.len() ==> path[i] != '/' && path[i] != '.',
    ensures
        ({
            let name = crate::linux::replay::export::file_name(path);
            let head = crate::linux::replay::export::file_name(path.take(at));
            &&& name.len() == head.len() + path.len() - at
            &&& last_dot(name) == last_dot(head)
        }),
    decreases path.len(),
{
    if at == path.len() {
        assert(path.take(at) =~= path);
    } else {
        let shorter = path.drop_last();
        assert(path.last() == path[path.len() - 1]);
        assert forall|i: int| at <= i < shorter.len() implies shorter[i] != '/' && shorter[i]
            != '.' by {
            assert(shorter[i] == path[i]);
        }
        lemma_name_end(shorter, at);
        assert(shorter.take(at) =~= path.take(at));
        let name = crate::linux::replay::export::file_name(path);
        assert(name.drop_last() =~= crate::linux::replay::export::file_name(shorter));
    }
}

/// The path of a file without its extension.
fn stem_path(path: &str) -> (r: String)
    ensures
        r@ == without_extension(path@),
{
    let chars = chars_of(path);
    let mut at: usize = chars.len();
    while at > 0 && chars[at - 1] != '/' && chars[at - 1] != '.'
        invariant
            chars@ == path@,
            at <= chars.len(),
            forall|i: int| at <= i < chars.len() ==> chars@[i] != '/' && chars@[i] != '.',
        decreases at,
    {
        at = at - 1;
    }
    let ghost name = crate::linux::replay::export::file_name(path@);
    let ghost head = crate::linux::replay::export::file_name(path@.take(at as int));
    proof {
        lemma_name_end(path@, at as int);
        if at > 0 {
            assert(path@.take(at as int).last() == chars@[at - 1]);
            assert(path@.take(at as int).drop_last() =~= path@.take(at - 1));
        }
    }
    let dotted = at > 1 && chars[at - 1] == '.' && chars[at - 2] != '/';
    proof {
        if at > 0 && chars@[at - 1] == '.' {
            let before = crate::linux::replay::export::file_name(path@.take(at - 1));
            assert(head == before.push('.'));
            assert(last_dot(head) == before.len());
            if at > 1 {
                assert(path@.take(at - 1).last() == chars@[at - 2]);
            }
            assert(dotted == (before.len() > 0));
            assert(path@.len() - name.len() + last_dot(name) == at - 1);
        } else {
            assert(head.len() == 0);
            assert(last_dot(head) == -1);
        }
    }
    if dotted {
        let stem = slice_text(&chars, 0, at - 1);
        proof {
            assert(stem@ =~= path@.take(at - 1));
        }
        stem
    } else {
        path.to_owned()
    }
}

/// The path of a file with another extension in place of its own, or with none where that is empty.
/// An extension has no separators.
pub fn with_extension(path: &str, extension: &str) -> (r: String)
    requires
        !extension@.contains('/'),
    ensures
        r@ == extended(path@, extension@),
{
    let file = bare_path(path);
    if !is_file_path(file.as_str()) {
        return path.to_owned();
    }
    let mut out: String = stem_path(file.as_str());
    if !extension.is_empty() {
        out.append(".");
        out.append(extension);
    }
    out
}

/// A crop is told as its width, its height and the place of its corner, in that order, and the
/// picture goes to the device behind everything else: what is told for a device is what is told
/// without one, with that step at the end.
pub proof fn lemma_filter(crop: Crop, upload: bool)
    ensures
        crate::text::without_prefix(
            crop_filter(crop, upload),
            "crop="@ + crate::text::decimal(crop.width as nat) + ":"@ + crate::text::decimal(
                crop.height as nat,
            ) + ":"@ + crate::text::decimal(crop.x as nat) + ":"@ + crate::text::decimal(
                crop.y as nat,
            ) + ","@,
        ) is Some,
        crop_filter(crop, true) == crop_filter(crop, false) + ",hwupload"@,
        crate::text::has_suffix(crop_filter(crop, false), ",setsar=1,format=nv12"@),
{
    let place = "crop="@ + crate::text::decimal(crop.width as nat) + ":"@ + crate::text::decimal(
        crop.height as nat,
    ) + ":"@ + crate::text::decimal(crop.x as nat) + ":"@ + crate::text::decimal(crop.y as nat);
    reveal_strlit(",setsar=1,format=nv12");
    reveal_strlit(",");
    let plain = place + ",setsar=1,format=nv12"@;
    assert(plain.take(place.len() as int + 1) =~= place + ","@);
    assert(plain.skip(place.len() as int) =~= ",setsar=1,format=nv12"@);
    assert((plain + ",hwupload"@).take(place.len() as int + 1) =~= place + ","@);
}

/// The encoder of a crop is told the filter of the crop, the encoder, and where the clip comes from
/// and goes to.
pub proof fn lemma_crop_told(crop: Crop, encoder: &str, words: Vec<String>)
    requires
        call_ensures(crop_args, (crop, encoder), words),
    ensures
        ({
            let told = crate::text::views(words@);
            let device = crate::text::has_suffix(encoder@, "_vulkan"@) || crate::text::has_suffix(
                encoder@,
                "_vaapi"@,
            );
            &&& crate::text::stands_behind(told, "-vf"@, crop_filter(crop, device))
            &&& crate::text::stands_behind(told, "-c:v"@, encoder@)
            &&& crate::text::stands_behind(told, "-i"@, "pipe:0"@)
            &&& crate::text::stands_behind(told, "-map"@, "0:v:0"@)
            &&& crate::text::stands_behind(told, "-map"@, "0:a:0?"@)
            &&& crate::text::stands_behind(told, "-bf"@, "0"@)
            &&& crate::text::stands_behind(told, "-c:a"@, "copy"@)
            &&& crate::text::stands_behind(told, "-f"@, "matroska"@)
            &&& crate::text::stands_behind(told, "-threads"@, "2"@)
            &&& crate::text::stands_behind(told, "-threads:v"@, "2"@)
            &&& crate::text::stands_behind(told, "-filter_threads"@, "1"@)
            &&& told[0] == "-hide_banner"@
            &&& told[1] == "-loglevel"@ && told[2] == "error"@
            &&& told[3] == "-nostdin"@
            &&& told.last() == "pipe:1"@
            &&& crate::text::has_suffix(encoder@, "_vulkan"@) ==> crate::text::stands_behind(
                told,
                "-init_hw_device"@,
                "vulkan=clip"@,
            ) && crate::text::stands_behind(told, "-qp"@, "18"@)
            &&& crate::text::has_suffix(encoder@, "_vaapi"@) ==> crate::text::stands_behind(
                told,
                "-init_hw_device"@,
                "vaapi=clip"@,
            ) && crate::text::stands_behind(told, "-global_quality"@, "18"@)
            &&& crate::text::has_suffix(encoder@, "_nvenc"@) ==> crate::text::stands_behind(
                told,
                "-qp"@,
                "18"@,
            )
            &&& device ==> crate::text::stands_behind(told, "-filter_hw_device"@, "clip"@)
            &&& encoder@ == "libx264"@ || encoder@ == "libx265"@ ==> crate::text::stands_behind(
                told,
                "-preset"@,
                "veryfast"@,
            ) && crate::text::stands_behind(told, "-crf"@, "18"@)
            &&& told.len() == 27 + (if device {
                4int
            } else {
                0
            }) + (if crate::text::has_suffix(encoder@, "_vulkan"@) || crate::text::has_suffix(
                encoder@,
                "_nvenc"@,
            ) || crate::text::has_suffix(encoder@, "_vaapi"@) {
                2int
            } else if encoder@ == "libx264"@ || encoder@ == "libx265"@ {
                4int
            } else {
                0
            })
        }),
{
    lemma_encoder_families(encoder@);
    let told = crop_words(crop, encoder@);
    let n = device_words(encoder@).len() as int;
    let q = quality_words(encoder@).len() as int;
    assert(told[4] == "-threads"@ && told[5] == "2"@);
    assert(told[6 + n] == "-i"@ && told[7 + n] == "pipe:0"@);
    assert(told[8 + n] == "-map"@ && told[9 + n] == "0:v:0"@);
    assert(told[10 + n] == "-map"@ && told[11 + n] == "0:a:0?"@);
    assert(told[12 + n] == "-vf"@ && told[13 + n] == crop_filter(crop, device_of(encoder@) is Some));
    assert(told[14 + n] == "-filter_threads"@ && told[15 + n] == "1"@);
    assert(told[16 + n] == "-c:v"@ && told[17 + n] == encoder@);
    assert(told[18 + n] == "-threads:v"@ && told[19 + n] == "2"@);
    assert(told[20 + n] == "-bf"@ && told[21 + n] == "0"@);
    assert(told[22 + n + q] == "-c:a"@ && told[23 + n + q] == "copy"@);
    assert(told[24 + n + q] == "-f"@ && told[25 + n + q] == "matroska"@);
    if n > 0 {
        assert(told[6] == "-init_hw_device"@ && told[7] == device_words(encoder@)[1]);
        assert(told[8] == "-filter_hw_device"@ && told[9] == "clip"@);
    }
    if q > 0 {
        assert(told[22 + n] == quality_words(encoder@)[0]);
        assert(told[23 + n] == quality_words(encoder@)[1]);
    }
    if q > 2 {
        assert(told[24 + n] == quality_words(encoder@)[2]);
        assert(told[25 + n] == quality_words(encoder@)[3]);
    }
}

/// An encoder belongs to one family: the ends of the names differ.
proof fn lemma_encoder_families(encoder: Seq<char>)
    ensures
        crate::text::has_suffix(encoder, "_vulkan"@) ==> encoder.last() == 'n',
        crate::text::has_suffix(encoder, "_vaapi"@) ==> encoder.last() == 'i',
        crate::text::has_suffix(encoder, "_nvenc"@) ==> encoder.last() == 'c',
        encoder == "libx264"@ ==> encoder.last() == '4',
        encoder == "libx265"@ ==> encoder.last() == '5',
{
    reveal_strlit("_vulkan");
    reveal_strlit("_vaapi");
    reveal_strlit("_nvenc");
    reveal_strlit("libx264");
    reveal_strlit("libx265");
    if crate::text::has_suffix(encoder, "_vulkan"@) {
        assert(encoder.skip(encoder.len() - 7).last() == "_vulkan"@[6]);
    }
    if crate::text::has_suffix(encoder, "_vaapi"@) {
        assert(encoder.skip(encoder.len() - 6).last() == "_vaapi"@[5]);
    }
    if crate::text::has_suffix(encoder, "_nvenc"@) {
        assert(encoder.skip(encoder.len() - 6).last() == "_nvenc"@[5]);
    }
}

/// An encoder is tried on one frame that goes nowhere, on its device where it has one.
pub proof fn lemma_trial_told(encoder: &str, words: Vec<String>)
    requires
        call_ensures(check_encoder_args, (encoder,), words),
    ensures
        ({
            let told = crate::text::views(words@);
            let vulkan = crate::text::has_suffix(encoder@, "_vulkan"@);
            let vaapi = crate::text::has_suffix(encoder@, "_vaapi"@);
            &&& crate::text::stands_behind(told, "-c:v"@, encoder@)
            &&& crate::text::stands_behind(told, "-v"@, "error"@)
            &&& crate::text::stands_behind(told, "-i"@, "color=size=320x180:rate=60"@)
            &&& crate::text::stands_behind(told, "-f"@, "lavfi"@)
            &&& crate::text::stands_behind(told, "-f"@, "null"@)
            &&& crate::text::stands_behind(told, "-frames:v"@, "1"@)
            &&& crate::text::stands_behind(told, "-bf"@, "0"@)
            &&& vulkan || vaapi ==> crate::text::stands_behind(
                told,
                "-vf"@,
                "format=nv12,hwupload"@,
            ) && crate::text::stands_behind(told, "-filter_hw_device"@, "clip"@)
            &&& !vulkan && !vaapi ==> crate::text::stands_behind(told, "-vf"@, "format=nv12"@)
            &&& vulkan ==> crate::text::stands_behind(told, "-init_hw_device"@, "vulkan=clip"@)
            &&& vaapi ==> crate::text::stands_behind(told, "-init_hw_device"@, "vaapi=clip"@)
            &&& told[2] == "-nostdin"@
            &&& told.last() == "-"@
            &&& told.len() == (if vulkan || vaapi {
                22int
            } else {
                18
            })
        }),
{
    lemma_encoder_families(encoder@);
    let told = trial_words(encoder@);
    let n = device_words(encoder@).len() as int;
    assert(told[0] == "-v"@ && told[1] == "error"@);
    assert(told[3 + n] == "-f"@ && told[4 + n] == "lavfi"@);
    assert(told[5 + n] == "-i"@ && told[6 + n] == "color=size=320x180:rate=60"@);
    assert(told[7 + n] == "-vf"@);
    assert(told[8 + n] == (if n > 0 {
        "format=nv12,hwupload"@
    } else {
        "format=nv12"@
    }));
    assert(told[9 + n] == "-frames:v"@ && told[10 + n] == "1"@);
    assert(told[11 + n] == "-c:v"@ && told[12 + n] == encoder@);
    assert(told[13 + n] == "-bf"@ && told[14 + n] == "0"@);
    assert(told[15 + n] == "-f"@ && told[16 + n] == "null"@);
    if n > 0 {
        assert(told[3] == "-init_hw_device"@ && told[4] == device_words(encoder@)[1]);
        assert(told[5] == "-filter_hw_device"@ && told[6] == "clip"@);
    }
}

/// A preview is the last frame, as a picture: the one frame whose number is one less than there are.
pub proof fn lemma_preview_told(frames: usize, words: Result<Vec<String>, String>)
    requires
        call_ensures(preview_args, (frames,), words),
    ensures
        words is Ok <==> frames > 0,
        words matches Ok(words) ==> {
            let told = crate::text::views(words@);
            &&& crate::text::stands_behind(
                told,
                "-vf"@,
                "select=eq(n\\,"@ + crate::text::decimal((frames - 1) as nat) + ")"@,
            )
            &&& crate::text::stands_behind(told, "-i"@, "pipe:0"@)
            &&& crate::text::stands_behind(told, "-map"@, "0:v:0"@)
            &&& crate::text::stands_behind(told, "-frames:v"@, "1"@)
            &&& crate::text::stands_behind(told, "-c:v"@, "png"@)
            &&& crate::text::stands_behind(told, "-f"@, "image2pipe"@)
            &&& told.last() == "pipe:1"@
            &&& told.len() == 20
        },
{
    if frames > 0 {
        let told = preview_words((frames - 1) as nat);
        assert(told[5] == "-i"@);
        assert(told[7] == "-map"@);
        assert(told[9] == "-vf"@);
        assert(told[11] == "-frames:v"@);
        assert(told[15] == "-c:v"@);
        assert(told[17] == "-f"@);
    }
}

/// A crop is saved with the bytes that were copied only where the encoder succeeded and there are
/// some; whatever fails before it is told as it is, and where the output stays is told with it.
pub proof fn lemma_saved(
    copied: Result<u64, String>,
    success: Result<bool, String>,
    partial: &str,
    r: Result<u64, String>,
)
    requires
        call_ensures(saved, (copied, success, partial), r),
    ensures
        r is Ok <==> copied is Ok && copied->Ok_0 > 0 && success == Ok::<bool, String>(true),
        r matches Ok(bytes) ==> copied == Ok::<u64, String>(bytes),
        r matches Err(message) ==> (copied is Err || success is Ok ==> crate::text::has_suffix(
            message@,
            partial@,
        )),
        r matches Err(message) ==> (copied matches Err(error) ==> crate::text::without_prefix(
            message@,
            error@,
        ) is Some),
        copied is Ok && success is Err ==> (r matches Err(message) && success == Err::<bool, String>(message)),
{
    if let Err(message) = r {
        assert(copied is Err || success is Ok ==> message@.skip(message@.len() - partial@.len())
            =~= partial@);
        if let Err(error) = copied {
            assert(message@.take(error@.len() as int) =~= error@);
        }
    }
}

/// The extension of a name is what stands behind its last dot, where something stands before it.
pub proof fn lemma_extension_dot(text: Seq<char>)
    ensures
        -1 <= last_dot(text) < text.len(),
        last_dot(text) >= 0 ==> text[last_dot(text)] == '.',
        forall|i: int| last_dot(text) < i < text.len() ==> #[trigger] text[i] != '.',
    decreases text.len(),
{
    if text.len() > 0 && text.last() != '.' {
        lemma_extension_dot(text.drop_last());
        let shorter = text.drop_last();
        assert forall|i: int| last_dot(text) < i < text.len() implies #[trigger] text[i] != '.' by {
            if i < text.len() - 1 {
                assert(shorter[i] == text[i]);
            }
        }
    }
}

/// A name with another extension is the name without its own, a dot and the extension; a dot at its
/// beginning begins no extension.
pub proof fn lemma_extended(path: &str, extension: &str, named: String)
    requires
        !extension@.contains('/'),
        call_ensures(with_extension, (path, extension), named),
    ensures
        crate::linux::replay::export::names_file(crate::linux::replay::export::bare(path@))
            && extension@.len() > 0 ==> crate::text::has_suffix(named@, "."@ + extension@),
        !crate::linux::replay::export::names_file(crate::linux::replay::export::bare(path@))
            ==> named@ == path@,
        ({
            let file = crate::linux::replay::export::bare(path@);
            crate::linux::replay::export::names_file(file) ==> crate::text::without_prefix(
                named@,
                without_extension(file),
            ) is Some && crate::text::without_prefix(file, without_extension(file)) is Some
        }),
        ({
            let file = crate::linux::replay::export::bare(path@);
            let name = crate::linux::replay::export::file_name(file);
            !name.contains('.') ==> without_extension(file) == file
        }),
{
    let file = crate::linux::replay::export::bare(path@);
    let name = crate::linux::replay::export::file_name(file);
    crate::linux::replay::export::lemma_file_name(file);
    lemma_extension_dot(name);
    if last_dot(name) >= 0 {
        assert(name.contains(name[last_dot(name)]));
    }
    if crate::linux::replay::export::names_file(file) {
        let tail = "."@ + extension@;
        let stem = without_extension(file);
        if extension@.len() > 0 {
            assert(named@.skip(named@.len() - tail.len()) =~= tail);
        }
        assert(named@.take(stem.len() as int) =~= stem);
        assert(file.take(stem.len() as int) =~= stem);
    }
}

/// A clip may take three times as long as it lasts to be cut, and half a minute.
pub proof fn lemma_deadline(start: i64, end: i64, seconds: u64, success: bool, printed: Vec<u8>, picture: Result<Vec<u8>, String>)
    requires
        start <= end,
        end - start <= i64::MAX,
        call_ensures(deadline, (start, end), seconds),
        call_ensures(preview, (success, printed), picture),
    ensures
        seconds >= 30,
        (seconds - 30) % 3 == 0,
        1_000_000 * (seconds - 30) <= 3 * (end - start) < 1_000_000 * (seconds - 30) + 3_000_000,
        picture is Ok <==> success && printed@.len() > 0,
        picture matches Ok(bytes) ==> bytes == printed,
{
}

} // verus!
