//! The picture that stands for a video on the shelf.
use vstd::prelude::*;
use vstd::string::StringExecFns;

use crate::text::{decimal_string, joined, push_word};

verus! {

/// The filter that fills a card with the picture.
pub open spec fn card_filter(width: nat, height: nat) -> Seq<char> {
    let w = crate::text::decimal(width);
    let h = crate::text::decimal(height);
    "scale="@ + w + ":"@ + h + ":force_original_aspect_ratio=increase,crop="@ + w + ":"@ + h
        + ",setsar=1"@
}

/// The words that make a card of a video's first frame.
pub open spec fn thumbnail_words(path: Seq<char>, width: nat, height: nat) -> Seq<Seq<char>> {
    seq![
        "-v"@,
        "error"@,
        "-nostdin"@,
        "-threads"@,
        "2"@,
        "-i"@,
        path,
        "-map"@,
        "0:v:0"@,
        "-vf"@,
        card_filter(width, height),
        "-filter_threads"@,
        "1"@,
        "-frames:v"@,
        "1"@,
        "-threads:v"@,
        "1"@,
        "-pix_fmt"@,
        "rgba"@,
        "-f"@,
        "rawvideo"@,
        "pipe:1"@,
    ]
}

/// The words that make a card of a video's first frame.
pub fn extract_args(path: &str, width: u32, height: u32) -> (r: Vec<String>)
    ensures
        crate::text::views(r@) == thumbnail_words(path@, width as nat, height as nat),
{
    let w = decimal_string(width as u128);
    let h = decimal_string(height as u128);
    let mut filter: String = joined("scale=", w.as_str());
    filter.append(":");
    filter.append(h.as_str());
    filter.append(":force_original_aspect_ratio=increase,crop=");
    filter.append(w.as_str());
    filter.append(":");
    filter.append(h.as_str());
    filter.append(",setsar=1");
    let mut words: Vec<String> = Vec::new();
    push_word(&mut words, "-v");
    push_word(&mut words, "error");
    push_word(&mut words, "-nostdin");
    push_word(&mut words, "-threads");
    push_word(&mut words, "2");
    push_word(&mut words, "-i");
    push_word(&mut words, path);
    push_word(&mut words, "-map");
    push_word(&mut words, "0:v:0");
    push_word(&mut words, "-vf");
    push_word(&mut words, filter.as_str());
    push_word(&mut words, "-filter_threads");
    push_word(&mut words, "1");
    push_word(&mut words, "-frames:v");
    push_word(&mut words, "1");
    push_word(&mut words, "-threads:v");
    push_word(&mut words, "1");
    push_word(&mut words, "-pix_fmt");
    push_word(&mut words, "rgba");
    push_word(&mut words, "-f");
    push_word(&mut words, "rawvideo");
    push_word(&mut words, "pipe:1");
    proof {
        assert(crate::text::views(words@) =~= thumbnail_words(path@, width as nat, height as nat));
    }
    words
}

/// The pixels of a card, four bytes for each.
pub fn extract(success: bool, bytes: Vec<u8>, width: u32, height: u32) -> (r: Result<
    Vec<u8>,
    String,
>)
    ensures
        if !success {
            r matches Err(message) && message@ == "video thumbnail decoding failed"@
        } else if bytes@.len() < width * height * 4 {
            r matches Err(message) && message@ == "invalid thumbnail size"@
        } else {
            r == Ok::<Vec<u8>, String>(bytes)
        },
{
    if !success {
        return Err("video thumbnail decoding failed".to_owned());
    }
    proof {
        assert(width * height <= u32::MAX * u32::MAX) by (nonlinear_arith);
    }
    if (bytes.len() as u128) < width as u128 * height as u128 * 4 {
        return Err("invalid thumbnail size".to_owned());
    }
    Ok(bytes)
}

/// Whether a picture that was handed over in a file is small enough to be shown.
pub fn legacy_size(bytes: u64, limit: u64) -> (r: Result<(), String>)
    ensures
        if bytes > limit {
            r matches Err(message) && message@ == "thumbnail PNG is too large"@
        } else {
            r is Ok
        },
{
    if bytes > limit {
        Err("thumbnail PNG is too large".to_owned())
    } else {
        Ok(())
    }
}

/// A thumbnail is made of the file's first picture, scaled and cut to the size that was asked for,
/// the width before the height.
pub proof fn lemma_thumbnail_told(path: &str, width: u32, height: u32, words: Vec<String>)
    requires
        call_ensures(extract_args, (path, width, height), words),
    ensures
        ({
            let told = crate::text::views(words@);
            let size = crate::text::decimal(width as nat) + ":"@ + crate::text::decimal(
                height as nat,
            );
            &&& told.len() == 22
            &&& crate::text::stands_behind(told, "-i"@, path@)
            &&& crate::text::stands_behind(told, "-vf"@, card_filter(width as nat, height as nat))
            &&& crate::text::without_prefix(
                card_filter(width as nat, height as nat),
                "scale="@ + size + ":force_original_aspect_ratio=increase,crop="@ + size,
            ) is Some
            &&& crate::text::stands_behind(told, "-map"@, "0:v:0"@)
            &&& crate::text::stands_behind(told, "-frames:v"@, "1"@)
            &&& crate::text::stands_behind(told, "-pix_fmt"@, "rgba"@)
            &&& crate::text::stands_behind(told, "-f"@, "rawvideo"@)
            &&& told.last() == "pipe:1"@
        }),
{
    let told = thumbnail_words(path@, width as nat, height as nat);
    assert(told[5] == "-i"@);
    assert(told[7] == "-map"@);
    assert(told[9] == "-vf"@);
    assert(told[13] == "-frames:v"@);
    assert(told[17] == "-pix_fmt"@);
    assert(told[19] == "-f"@);
    let size = crate::text::decimal(width as nat) + ":"@ + crate::text::decimal(height as nat);
    let head = "scale="@ + size + ":force_original_aspect_ratio=increase,crop="@ + size;
    assert(card_filter(width as nat, height as nat).take(head.len() as int) =~= head);
}

/// A thumbnail is taken where it could be made and has four bytes for each pixel at least.
pub proof fn lemma_extracted(
    success: bool,
    bytes: Vec<u8>,
    width: u32,
    height: u32,
    r: Result<Vec<u8>, String>,
    size: u64,
    limit: u64,
    fits: Result<(), String>,
)
    requires
        call_ensures(extract, (success, bytes, width, height), r),
        call_ensures(legacy_size, (size, limit), fits),
    ensures
        r is Ok <==> success && bytes@.len() >= 4 * (width * height),
        r matches Ok(taken) ==> taken == bytes,
        fits is Ok <==> size <= limit,
{
    assert(width * height * 4 == 4 * (width * height));
}

} // verus!
