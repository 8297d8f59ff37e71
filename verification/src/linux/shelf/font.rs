//! Which font the shelf and the selector use.
use vstd::prelude::*;
use vstd::string::StringExecFns;

use crate::text::{
    ascii_lowercase, chars_of, lines, parse_integer, push_word, rsplit_once, same, split_once, trim,
    trim_char,
};

verus! {

/// The end of the digits from `at` on.
pub open spec fn digits_end(text: Seq<char>, at: int) -> int
    decreases text.len() - at,
{
    if 0 <= at < text.len() && '0' <= text[at] <= '9' {
        digits_end(text, at + 1)
    } else {
        at
    }
}

/// The place behind a sign at `at`, or `at` where there is none.
pub open spec fn behind_sign(text: Seq<char>, at: int) -> int {
    if 0 <= at < text.len() && (text[at] == '+' || text[at] == '-') {
        at + 1
    } else {
        at
    }
}

/// The end of a number's digits from `at` on, before and behind a point.
pub open spec fn mantissa_end(text: Seq<char>, at: int) -> int {
    let whole = digits_end(text, at);
    if 0 <= whole < text.len() && text[whole] == '.' {
        digits_end(text, whole + 1)
    } else {
        whole
    }
}

/// The number of digits from `at` on, before and behind a point.
pub open spec fn mantissa_digits(text: Seq<char>, at: int) -> int {
    let whole = digits_end(text, at);
    if 0 <= whole < text.len() && text[whole] == '.' {
        (whole - at) + (digits_end(text, whole + 1) - (whole + 1))
    } else {
        whole - at
    }
}

/// The text is a number: an optional sign, and `inf`, `infinity`, `nan` in any case, or digits with
/// at most one point among them and an optional exponent.
pub open spec fn is_number(text: Seq<char>) -> bool {
    let start = behind_sign(text, 0);
    let word = crate::text::lowered(text.skip(start));
    if word == "inf"@ || word == "infinity"@ || word == "nan"@ {
        true
    } else {
        let end = mantissa_end(text, start);
        &&& mantissa_digits(text, start) > 0
        &&& (end == text.len() || ((text[end] == 'e' || text[end] == 'E') && {
            let digits = behind_sign(text, end + 1);
            digits < text.len() && digits_end(text, digits) == text.len()
        }))
    }
}

/// The end of the digits from `at` on.
fn skip_digits(chars: &Vec<char>, at: usize) -> (r: usize)
    requires
        at <= chars.len(),
    ensures
        r == digits_end(chars@, at as int),
        at <= r <= chars.len(),
{
    let mut end: usize = at;
    while end < chars.len() && '0' <= chars[end] && chars[end] <= '9'
        invariant
            at <= end <= chars.len(),
            digits_end(chars@, at as int) == digits_end(chars@, end as int),
        decreases chars.len() - end,
    {
        end = end + 1;
    }
    end
}

/// Whether a text is a number.
pub fn parses_as_number(text: &str) -> (r: bool)
    ensures
        r == is_number(text@),
{
    let chars = chars_of(text);
    let mut start: usize = 0;
    if chars.len() > 0 && (chars[0] == '+' || chars[0] == '-') {
        start = 1;
    }
    let rest = crate::text::slice_text(&chars, start, chars.len());
    proof {
        assert(rest@ =~= text@.skip(start as int));
    }
    let word = ascii_lowercase(rest.as_str());
    if same(word.as_str(), "inf") || same(word.as_str(), "infinity") || same(word.as_str(), "nan") {
        return true;
    }
    let whole: usize = skip_digits(&chars, start);
    let mut end: usize = whole;
    let mut digits: usize = whole - start;
    if whole < chars.len() && chars[whole] == '.' {
        end = skip_digits(&chars, whole + 1);
        digits = digits + (end - (whole + 1));
    }
    if digits == 0 {
        return false;
    }
    if end == chars.len() {
        return true;
    }
    if chars[end] != 'e' && chars[end] != 'E' {
        return false;
    }
    let mut power: usize = end + 1;
    if power < chars.len() && (chars[power] == '+' || chars[power] == '-') {
        power = power + 1;
    }
    power < chars.len() && skip_digits(&chars, power) == chars.len()
}

/// The font that the desktop names: the text in quotes without the size at its end.
pub open spec fn desktop_font(output: Seq<char>) -> Option<Seq<char>> {
    let value = crate::text::without_trailing(
        crate::text::without_leading(crate::text::trimmed(output), '\''),
        '\'',
    );
    match crate::text::split_last(value, ' ') {
        Some((family, size)) => if is_number(size) && family.len() > 0 {
            Some(family)
        } else {
            None
        },
        None => None,
    }
}

/// The font that the desktop names.
pub fn parse_gsettings_font(output: &str) -> (r: Option<String>)
    ensures
        desktop_font(output@) == crate::text::view_of(r),
{
    let trimmed = trim(output);
    let value = trim_char(trimmed.as_str(), '\'');
    match rsplit_once(value.as_str(), ' ') {
        Some((family, size)) => {
            if !parses_as_number(size.as_str()) || family.as_str().unicode_len() == 0 {
                return None;
            }
            Some(family)
        },
        None => None,
    }
}

/// The file and the place in it that fontconfig names in its first line.
pub open spec fn font_file(output: Seq<char>) -> Option<(Seq<char>, int)> {
    let all = crate::text::line_views(output);
    if all.len() == 0 {
        None
    } else {
        match crate::text::split(all[0], '\t') {
            Some((path, index)) => match crate::text::integer(
                crate::text::trimmed(index),
                0,
                u32::MAX as int,
            ) {
                Ok(index) if path.len() > 0 => Some((path, index)),
                _ => None,
            },
            None => None,
        }
    }
}

/// The file and the place in it that fontconfig names.
pub fn parse_fc_match(output: &str) -> (r: Option<(String, u32)>)
    ensures
        font_file(output@) == (match r {
            Some((path, index)) => Some((path@, index as int)),
            None => None,
        }),
{
    let all = lines(output);
    if all.len() == 0 {
        return None;
    }
    proof {
        assert(crate::text::views(all@)[0] == all@[0]@);
    }
    match split_once(all[0].as_str(), '\t') {
        Some((path, index)) => {
            let text = trim(index.as_str());
            match parse_integer(text.as_str(), 0, u32::MAX as u64) {
                Ok(index) => {
                    if path.as_str().unicode_len() == 0 {
                        return None;
                    }
                    Some((path, index as u32))
                },
                Err(_) => None,
            }
        },
        None => None,
    }
}

/// The fonts that are asked for, in order.
pub open spec fn asked_fonts(family: Option<Seq<char>>, desktop: Option<Seq<char>>) -> Seq<
    Seq<char>,
> {
    (match family {
        Some(family) if family.len() > 0 => seq![family],
        _ => Seq::empty(),
    }) + (match desktop {
        Some(desktop) => seq![desktop],
        None => Seq::empty(),
    }) + seq!["sans-serif"@]
}

/// The fonts that are asked for until there is one: the one in the settings, the desktop's, and any
/// without serifs.
pub fn font_queries(family: Option<&str>, desktop: Option<&str>) -> (r: Vec<String>)
    ensures
        crate::text::views(r@) == asked_fonts(
            match family {
                Some(family) => Some(family@),
                None => None,
            },
            match desktop {
                Some(desktop) => Some(desktop@),
                None => None,
            },
        ),
{
    let mut queries: Vec<String> = Vec::new();
    match family {
        Some(family) => {
            if family.unicode_len() > 0 {
                push_word(&mut queries, family);
            }
        },
        None => {},
    }
    match desktop {
        Some(desktop) => {
            push_word(&mut queries, desktop);
        },
        None => {},
    }
    push_word(&mut queries, "sans-serif");
    proof {
        let named = match family {
            Some(family) => Some(family@),
            None => None,
        };
        let shown = match desktop {
            Some(desktop) => Some(desktop@),
            None => None,
        };
        assert(crate::text::views(queries@) =~= asked_fonts(named, shown));
    }
    queries
}

/// Digits end at the first character that is none.
proof fn lemma_digits(text: Seq<char>, at: int)
    requires
        0 <= at <= text.len(),
    ensures
        at <= digits_end(text, at) <= text.len(),
        forall|i: int| at <= i < digits_end(text, at) ==> '0' <= #[trigger] text[i] <= '9',
        digits_end(text, at) < text.len() ==> !('0' <= text[digits_end(text, at)] <= '9'),
    decreases text.len() - at,
{
    if at < text.len() && '0' <= text[at] <= '9' {
        lemma_digits(text, at + 1);
    }
}

proof fn lemma_digits_reach(text: Seq<char>, at: int, end: int)
    requires
        0 <= at <= end <= text.len(),
        forall|i: int| at <= i < end ==> '0' <= #[trigger] text[i] <= '9',
        end == text.len() || !('0' <= text[end] <= '9'),
    ensures
        digits_end(text, at) == end,
    decreases end - at,
{
    if at < end {
        assert('0' <= text[at] <= '9');
        lemma_digits_reach(text, at + 1, end);
    }
}

/// A whole number and one with a point between digits are numbers; a text without a digit is none,
/// but for the three names of what is no number.
pub proof fn lemma_numbers(whole: Seq<char>, part: Seq<char>, text: Seq<char>)
    requires
        forall|i: int| 0 <= i < whole.len() ==> '0' <= #[trigger] whole[i] <= '9',
        forall|i: int| 0 <= i < part.len() ==> '0' <= #[trigger] part[i] <= '9',
    ensures
        whole.len() > 0 ==> is_number(whole),
        whole.len() > 0 ==> is_number(whole.push('.') + part),
        (forall|i: int| 0 <= i < text.len() ==> !('0' <= #[trigger] text[i] <= '9'))
            && crate::text::lowered(text.skip(behind_sign(text, 0))) != "inf"@
            && crate::text::lowered(text.skip(behind_sign(text, 0))) != "infinity"@
            && crate::text::lowered(text.skip(behind_sign(text, 0))) != "nan"@ ==> !is_number(text),
{
    if whole.len() > 0 {
        assert('0' <= whole[0] <= '9');
        lemma_digits_reach(whole, 0, whole.len() as int);
        let both = whole.push('.') + part;
        assert(both[0] == whole[0]);
        assert forall|i: int| 0 <= i < whole.len() implies '0' <= #[trigger] both[i] <= '9' by {
            assert(both[i] == whole[i]);
        }
        assert(both[whole.len() as int] == '.');
        lemma_digits_reach(both, 0, whole.len() as int);
        assert forall|i: int| whole.len() + 1 <= i < both.len() implies '0' <= #[trigger] both[i]
            <= '9' by {
            assert(both[i] == part[i - whole.len() - 1]);
        }
        lemma_digits_reach(both, whole.len() as int + 1, both.len() as int);
    }
    if forall|i: int| 0 <= i < text.len() ==> !('0' <= #[trigger] text[i] <= '9') {
        let start = behind_sign(text, 0);
        lemma_digits(text, start);
        let whole_end = digits_end(text, start);
        if whole_end > start {
            assert('0' <= text[start] <= '9');
        }
        if whole_end < text.len() && text[whole_end] == '.' {
            lemma_digits(text, whole_end + 1);
            if digits_end(text, whole_end + 1) > whole_end + 1 {
                assert('0' <= text[whole_end + 1] <= '9');
            }
        }
    }
}

/// The desktop's font is what stands before the size, within the quotes.
pub proof fn lemma_desktop_font(output: &str, font: Option<String>)
    requires
        call_ensures(parse_gsettings_font, (output,), font),
    ensures
        ({
            let value = crate::text::without_trailing(
                crate::text::without_leading(crate::text::trimmed(output@), '\''),
                '\'',
            );
            font matches Some(family) ==> family@.len() > 0 && (crate::text::split_last(value, ' ')
                matches Some((before, size)) && before == family@ && is_number(size))
        }),
{
}

/// The font's file is what stands before the tab in the first line, and its face the number behind.
pub proof fn lemma_font_file(output: &str, file: Option<(String, u32)>)
    requires
        call_ensures(parse_fc_match, (output,), file),
    ensures
        file matches Some(found) ==> {
            let line = crate::text::line_views(output@)[0];
            &&& crate::text::line_views(output@).len() > 0
            &&& found.0@.len() > 0
            &&& !found.0@.contains('\t')
            &&& exists|rest: Seq<char>|
                line == #[trigger] (found.0@.push('\t') + rest) && crate::text::integer(
                    crate::text::trimmed(rest),
                    0,
                    u32::MAX as int,
                ) == Ok::<int, crate::text::IntError>(found.1 as int)
        },
{
    if let Some(found) = file {
        let line = crate::text::line_views(output@)[0];
        crate::text::lemma_split(line, '\t');
        let (path, rest) = crate::text::split(line, '\t')->Some_0;
        assert(line == found.0@.push('\t') + rest);
    }
}

/// The font that is set is asked for first, then the desktop's, and always one without serifs at
/// last.
pub proof fn lemma_asked_fonts(family: Option<Seq<char>>, desktop: Option<Seq<char>>)
    ensures
        asked_fonts(family, desktop).last() == "sans-serif"@,
        family matches Some(family) ==> (family.len() > 0 ==> asked_fonts(Some(family), desktop)[0]
            == family),
        desktop matches Some(desktop) ==> asked_fonts(family, Some(desktop))[asked_fonts(
            family,
            Some(desktop),
        ).len() - 2] == desktop,
        asked_fonts(None, None).len() == 1,
        asked_fonts(Some(Seq::empty()), desktop) == asked_fonts(None, desktop),
{
    assert(asked_fonts(Some(Seq::empty()), desktop) =~= asked_fonts(None, desktop));
}

} // verus!
