//! Text helpers.
use vstd::prelude::*;
use vstd::string::{StrSliceExecFns, StringExecFns};

verus! {

/// `a` and `b` hold the same characters.
///
/// Calls `str`'s `==`, which compares the two strings' contents.
#[verifier::external_body]
pub(crate) fn same(a: &str, b: &str) -> (r: bool)
    ensures
        r == (a@ == b@),
{
    a == b
}

/// Calls `String::push`, which appends one character.
#[verifier::external_body]
pub(crate) fn push(out: &mut String, c: char)
    ensures
        final(out)@ == old(out)@.push(c),
{
    out.push(c)
}

/// The characters of each of `texts`.
pub open spec fn views(texts: Seq<String>) -> Seq<Seq<char>> {
    Seq::new(texts.len(), |i: int| texts[i]@)
}

/// The characters of `text`, where there is one.
pub open spec fn view_of(text: Option<String>) -> Option<Seq<char>> {
    match text {
        Some(text) => Some(text@),
        None => None,
    }
}

/// What `{:?}` prints for text that may be missing.
pub uninterp spec fn debugged(text: Option<Seq<char>>) -> Seq<char>;

/// Calls `format!` with `{:?}` on an `Option` of text. What it prints depends on the text alone.
#[verifier::external_body]
pub(crate) fn debug_text(text: Option<&str>) -> (r: String)
    ensures
        text matches Some(text) ==> r@ == debugged(Some(text@)),
        text is None ==> r@ == debugged(None),
{
    format!("{text:?}")
}

/// `first` followed by `second`.
pub(crate) fn joined(first: &str, second: &str) -> (r: String)
    ensures
        r@ == first@ + second@,
{
    let mut out: String = first.to_owned();
    out.append(second);
    out
}

/// The decimal digit `digit`.
pub open spec fn digit_char(digit: int) -> char {
    (48 + digit) as char
}

/// `value` in decimal digits, without leading zeros.
pub open spec fn decimal(value: nat) -> Seq<char>
    decreases value,
{
    if value < 10 {
        seq![digit_char(value as int)]
    } else {
        decimal(value / 10).push(digit_char((value % 10) as int))
    }
}

/// `value` in decimal digits, without leading zeros.
pub fn decimal_string(value: u128) -> (r: String)
    ensures
        r@ == decimal(value as nat),
    decreases value,
{
    if value < 10 {
        let mut out: String = String::new();
        push(&mut out, (48 + value as u8) as char);
        proof {
            assert(out@ =~= decimal(value as nat));
        }
        out
    } else {
        let mut out: String = decimal_string(value / 10);
        push(&mut out, (48 + (value % 10) as u8) as char);
        out
    }
}

/// `true` or `false`.
pub open spec fn bool_text(value: bool) -> Seq<char> {
    if value {
        "true"@
    } else {
        "false"@
    }
}

/// The characters of `s`, in order.
pub fn chars_of(s: &str) -> (r: Vec<char>)
    ensures
        r@ == s@,
{
    let mut out: Vec<char> = Vec::new();
    for c in it: s.chars()
        invariant
            it.seq() == s@,
            out@ == s@.take(it.index() as int),
    {
        out.push(c);
    }
    out
}

/// `text` without `prefix`, where it begins with it.
pub open spec fn without_prefix(text: Seq<char>, prefix: Seq<char>) -> Option<Seq<char>> {
    if prefix.len() <= text.len() && text.take(prefix.len() as int) == prefix {
        Some(text.skip(prefix.len() as int))
    } else {
        None
    }
}

/// `text` without `prefix`, where it begins with it.
pub fn strip_prefix(text: &str, prefix: &str) -> (r: Option<String>)
    ensures
        view_of(r) == without_prefix(text@, prefix@),
{
    let length: usize = text.unicode_len();
    let start: usize = prefix.unicode_len();
    if start <= length && same(text.substring_char(0, start), prefix) {
        proof {
            assert(text@.subrange(0, start as int) =~= text@.take(start as int));
            assert(text@.subrange(start as int, length as int) =~= text@.skip(start as int));
        }
        Some(text.substring_char(start, length).to_owned())
    } else {
        proof {
            assert(start <= length ==> text@.subrange(0, start as int) =~= text@.take(start as int));
        }
        None
    }
}

/// The characters of `chars` from `from` up to `to`, as text.
pub fn slice_text(chars: &Vec<char>, from: usize, to: usize) -> (r: String)
    requires
        from <= to <= chars.len(),
    ensures
        r@ == chars@.subrange(from as int, to as int),
{
    let mut out: String = String::new();
    let mut i: usize = from;
    while i < to
        invariant
            from <= i <= to <= chars.len(),
            out@ == chars@.subrange(from as int, i as int),
        decreases to - i,
    {
        push(&mut out, chars[i]);
        i = i + 1;
        proof {
            assert(out@ =~= chars@.subrange(from as int, i as int));
        }
    }
    out
}

/// An ASCII letter or digit.
pub open spec fn is_alphanumeric(c: char) -> bool {
    '0' <= c <= '9' || 'a' <= c <= 'z' || 'A' <= c <= 'Z'
}

/// `c` is an ASCII letter or digit.
pub fn ascii_alphanumeric(c: char) -> (r: bool)
    ensures
        r == is_alphanumeric(c),
{
    ('0' <= c && c <= '9') || ('a' <= c && c <= 'z') || ('A' <= c && c <= 'Z')
}

/// The lower-case form of an ASCII character.
pub open spec fn lower(c: char) -> char {
    if 'A' <= c <= 'Z' {
        (c as int + 32) as char
    } else {
        c
    }
}

/// What `str::to_lowercase` makes of a text.
pub uninterp spec fn lowercased(text: Seq<char>) -> Seq<char>;

/// Calls `str::to_lowercase`. The result depends on the text alone; of ASCII text it changes the
/// letters from `A` to `Z` and nothing else.
#[verifier::external_body]
pub(crate) fn to_lowercase(text: &str) -> (r: String)
    ensures
        r@ == lowercased(text@),
        vstd::utf8::is_ascii_chars(text@) ==> r@ == lowered(text@),
{
    text.to_lowercase()
}

/// A character with Unicode's property `White_Space`.
pub open spec fn is_space(c: char) -> bool {
    ||| 0x9 <= c as u32 <= 0xd
    ||| c as u32 == 0x20
    ||| c as u32 == 0x85
    ||| c as u32 == 0xa0
    ||| c as u32 == 0x1680
    ||| 0x2000 <= c as u32 <= 0x200a
    ||| c as u32 == 0x2028
    ||| c as u32 == 0x2029
    ||| c as u32 == 0x202f
    ||| c as u32 == 0x205f
    ||| c as u32 == 0x3000
}

/// `c` is a white space.
pub fn space(c: char) -> (r: bool)
    ensures
        r == is_space(c),
{
    let n: u32 = c as u32;
    (0x9 <= n && n <= 0xd) || n == 0x20 || n == 0x85 || n == 0xa0 || n == 0x1680 || (0x2000 <= n && n
        <= 0x200a) || n == 0x2028 || n == 0x2029 || n == 0x202f || n == 0x205f || n == 0x3000
}

/// `text` without the white space that it begins with.
pub open spec fn trimmed_start(text: Seq<char>) -> Seq<char>
    decreases text.len(),
{
    if text.len() > 0 && is_space(text[0]) {
        trimmed_start(text.skip(1))
    } else {
        text
    }
}

/// `text` without the white space that it ends with.
pub open spec fn trimmed_end(text: Seq<char>) -> Seq<char>
    decreases text.len(),
{
    if text.len() > 0 && is_space(text.last()) {
        trimmed_end(text.drop_last())
    } else {
        text
    }
}

/// `text` without the white space around it.
pub open spec fn trimmed(text: Seq<char>) -> Seq<char> {
    trimmed_end(trimmed_start(text))
}

/// `text` without the white space that it begins with.
pub fn trim_start(text: &str) -> (r: String)
    ensures
        r@ == trimmed_start(text@),
{
    let chars = chars_of(text);
    let mut from: usize = 0;
    proof {
        assert(chars@.skip(0) =~= chars@);
    }
    while from < chars.len() && space(chars[from])
        invariant
            from <= chars.len(),
            trimmed_start(chars@) == trimmed_start(chars@.skip(from as int)),
        decreases chars.len() - from,
    {
        proof {
            assert(chars@.skip(from as int).skip(1) =~= chars@.skip(from + 1));
        }
        from = from + 1;
    }
    proof {
        assert(chars@.subrange(from as int, chars@.len() as int) =~= chars@.skip(from as int));
    }
    slice_text(&chars, from, chars.len())
}

/// `c` stands in `text`.
pub fn contains_char(text: &str, c: char) -> (r: bool)
    ensures
        r == text@.contains(c),
{
    let chars = chars_of(text);
    let mut i: usize = 0;
    while i < chars.len()
        invariant
            i <= chars.len(),
            chars@ == text@,
            forall|j: int| 0 <= j < i ==> text@[j] != c,
        decreases chars.len() - i,
    {
        if chars[i] == c {
            assert(text@[i as int] == c);
            return true;
        }
        i = i + 1;
    }
    false
}

/// `text` without the white space around it.
pub fn trim(text: &str) -> (r: String)
    ensures
        r@ == trimmed(text@),
{
    let chars = chars_of(text);
    let mut from: usize = 0;
    proof {
        assert(chars@.skip(0) =~= chars@);
    }
    while from < chars.len() && space(chars[from])
        invariant
            from <= chars.len(),
            trimmed_start(chars@) == trimmed_start(chars@.skip(from as int)),
        decreases chars.len() - from,
    {
        proof {
            assert(chars@.skip(from as int).skip(1) =~= chars@.skip(from + 1));
        }
        from = from + 1;
    }
    let mut to: usize = chars.len();
    let ghost rest = chars@.skip(from as int);
    proof {
        assert(chars@.subrange(from as int, to as int) =~= rest);
    }
    while from < to && space(chars[to - 1])
        invariant
            from <= to <= chars.len(),
            trimmed_end(rest) == trimmed_end(chars@.subrange(from as int, to as int)),
        decreases to - from,
    {
        proof {
            assert(chars@.subrange(from as int, to as int).drop_last() =~= chars@.subrange(
                from as int,
                to - 1,
            ));
        }
        to = to - 1;
    }
    slice_text(&chars, from, to)
}

/// `text` ends with `suffix`.
pub open spec fn has_suffix(text: Seq<char>, suffix: Seq<char>) -> bool {
    suffix.len() <= text.len() && text.skip(text.len() - suffix.len()) == suffix
}

/// `text` ends with `suffix`.
pub fn ends_with(text: &str, suffix: &str) -> (r: bool)
    ensures
        r == has_suffix(text@, suffix@),
{
    let length: usize = text.unicode_len();
    let size: usize = suffix.unicode_len();
    if size > length {
        return false;
    }
    proof {
        assert(text@.subrange(length - size, length as int) =~= text@.skip(length - size));
    }
    same(text.substring_char(length - size, length), suffix)
}

/// Why a text is not a number.
#[derive(Clone, Copy, Debug, PartialEq, Eq, Structural)]
pub enum IntError {
    Empty,
    InvalidDigit,
    TooLarge,
    TooSmall,
}

impl IntError {
    /// What is said of the text.
    pub open spec fn text(self) -> Seq<char> {
        match self {
            IntError::Empty => "cannot parse integer from empty string"@,
            IntError::InvalidDigit => "invalid digit found in string"@,
            IntError::TooLarge => "number too large to fit in target type"@,
            IntError::TooSmall => "number too small to fit in target type"@,
        }
    }

    /// What is said of the text.
    pub fn message(self) -> (r: String)
        ensures
            r@ == self.text(),
    {
        match self {
            IntError::Empty => "cannot parse integer from empty string".to_owned(),
            IntError::InvalidDigit => "invalid digit found in string".to_owned(),
            IntError::TooLarge => "number too large to fit in target type".to_owned(),
            IntError::TooSmall => "number too small to fit in target type".to_owned(),
        }
    }
}

/// The number that `so_far` and the decimal digits from `at` on give together; the first digit that
/// is none, or that leads out of the range, decides the error.
pub open spec fn digits_from(
    text: Seq<char>,
    at: int,
    so_far: int,
    negative: bool,
    min: int,
    max: int,
) -> Result<int, IntError>
    decreases text.len() - at,
{
    if at >= text.len() {
        Ok(so_far)
    } else if !('0' <= text[at] <= '9') {
        Err(IntError::InvalidDigit)
    } else {
        let digit = text[at] as int - 48;
        let next = if negative {
            so_far * 10 - digit
        } else {
            so_far * 10 + digit
        };
        if next > max {
            Err(IntError::TooLarge)
        } else if next < min {
            Err(IntError::TooSmall)
        } else {
            digits_from(text, at + 1, next, negative, min, max)
        }
    }
}

/// The number from `min` to `max` that a text gives in decimal: an optional sign, where there are
/// negative numbers also `-`, and at least one digit.
pub open spec fn integer(text: Seq<char>, min: int, max: int) -> Result<int, IntError> {
    if text.len() == 0 {
        Err(IntError::Empty)
    } else if text[0] == '+' || (text[0] == '-' && min < 0) {
        if text.len() == 1 {
            Err(IntError::InvalidDigit)
        } else {
            digits_from(text, 1, 0, text[0] == '-', min, max)
        }
    } else {
        digits_from(text, 0, 0, false, min, max)
    }
}

/// A number that is read is in the range.
proof fn lemma_digits_range(
    text: Seq<char>,
    at: int,
    so_far: int,
    negative: bool,
    min: int,
    max: int,
)
    requires
        min <= so_far <= max,
    ensures
        digits_from(text, at, so_far, negative, min, max) matches Ok(value) ==> min <= value <= max,
    decreases text.len() - at,
{
    if at < text.len() && '0' <= text[at] <= '9' {
        let digit = text[at] as int - 48;
        let next = if negative {
            so_far * 10 - digit
        } else {
            so_far * 10 + digit
        };
        if min <= next <= max {
            lemma_digits_range(text, at + 1, next, negative, min, max);
        }
    }
}

/// The number from `min` to `max` that `text` gives in decimal.
pub fn parse_integer(text: &str, min: i64, max: u64) -> (r: Result<i128, IntError>)
    requires
        min <= 0,
    ensures
        integer(text@, min as int, max as int) == (match r {
            Ok(value) => Ok(value as int),
            Err(error) => Err(error),
        }),
        r matches Ok(value) ==> min <= value <= max,
{
    let chars = chars_of(text);
    if chars.len() == 0 {
        return Err(IntError::Empty);
    }
    let mut negative: bool = false;
    let mut i: usize = 0;
    if chars[0] == '+' || (chars[0] == '-' && min < 0) {
        if chars.len() == 1 {
            return Err(IntError::InvalidDigit);
        }
        negative = chars[0] == '-';
        i = 1;
    }
    let mut value: i128 = 0;
    while i < chars.len()
        invariant
            chars@ == text@,
            i <= chars.len(),
            min <= value <= max,
            min <= 0,
            integer(text@, min as int, max as int) == digits_from(
                text@,
                i as int,
                value as int,
                negative,
                min as int,
                max as int,
            ),
        decreases chars.len() - i,
    {
        let c = chars[i];
        if c < '0' || '9' < c {
            return Err(IntError::InvalidDigit);
        }
        let digit: i128 = (c as u32 - 48) as i128;
        let next: i128 = if negative {
            value * 10 - digit
        } else {
            value * 10 + digit
        };
        if next > max as i128 {
            return Err(IntError::TooLarge);
        }
        if next < min as i128 {
            return Err(IntError::TooSmall);
        }
        value = next;
        i = i + 1;
    }
    Ok(value)
}

/// Where `c` stands first in `text` from `at` on, or the end of the text.
pub open spec fn find(text: Seq<char>, c: char, at: int) -> int
    decreases text.len() - at,
{
    if 0 <= at < text.len() && text[at] != c {
        find(text, c, at + 1)
    } else {
        at
    }
}

/// What stands before and behind the first `c` in `text`.
pub open spec fn split(text: Seq<char>, c: char) -> Option<(Seq<char>, Seq<char>)> {
    let at = find(text, c, 0);
    if at < text.len() {
        Some((text.take(at), text.skip(at + 1)))
    } else {
        None
    }
}

/// Where `c` stands first in `chars` from `at` on, or their end.
pub fn find_char(chars: &Vec<char>, c: char, at: usize) -> (r: usize)
    requires
        at <= chars.len(),
    ensures
        r == find(chars@, c, at as int),
        at <= r <= chars.len(),
        r < chars.len() ==> chars@[r as int] == c,
{
    let mut i: usize = at;
    while i < chars.len() && chars[i] != c
        invariant
            at <= i <= chars.len(),
            find(chars@, c, at as int) == find(chars@, c, i as int),
        decreases chars.len() - i,
    {
        i = i + 1;
    }
    i
}

/// What stands before and behind the first `c` in `text`.
pub fn split_once(text: &str, c: char) -> (r: Option<(String, String)>)
    ensures
        split(text@, c) == (match r {
            Some((before, behind)) => Some((before@, behind@)),
            None => None,
        }),
{
    let chars = chars_of(text);
    let at: usize = find_char(&chars, c, 0);
    if at < chars.len() {
        proof {
            assert(chars@.subrange(0, at as int) =~= text@.take(at as int));
            assert(chars@.subrange(at + 1, chars@.len() as int) =~= text@.skip(at + 1));
        }
        Some((slice_text(&chars, 0, at), slice_text(&chars, at + 1, chars.len())))
    } else {
        None
    }
}

/// `value` in decimal digits, with a sign where it is negative.
pub open spec fn signed_decimal(value: int) -> Seq<char> {
    if value < 0 {
        "-"@ + decimal((-value) as nat)
    } else {
        decimal(value as nat)
    }
}

/// `value` in decimal digits, with a sign where it is negative.
pub fn signed_decimal_string(value: i64) -> (r: String)
    ensures
        r@ == signed_decimal(value as int),
{
    if value < 0 {
        let mut out: String = "-".to_owned();
        out.append(decimal_string((-(value as i128)) as u128).as_str());
        out
    } else {
        decimal_string(value as u128)
    }
}

/// A line without the carriage return that ends it.
pub open spec fn without_return(line: Seq<char>) -> Seq<char> {
    if line.len() > 0 && line.last() == '\r' {
        line.drop_last()
    } else {
        line
    }
}

/// The lines of a text: a line ends with a line feed, or with a carriage return and a line feed.
pub open spec fn line_views(text: Seq<char>) -> Seq<Seq<char>>
    decreases text.len(),
{
    let at = find(text, '\n', 0);
    if text.len() == 0 {
        Seq::empty()
    } else if 0 <= at < text.len() {
        seq![without_return(text.take(at))] + line_views(text.skip(at + 1))
    } else {
        seq![text]
    }
}

/// The first place is within the text or its end.
proof fn lemma_find(text: Seq<char>, c: char, at: int)
    requires
        0 <= at <= text.len(),
    ensures
        at <= find(text, c, at) <= text.len(),
    decreases text.len() - at,
{
    if at < text.len() && text[at] != c {
        lemma_find(text, c, at + 1);
    }
}

/// Looking for a character behind a place is looking for it in the rest.
proof fn lemma_find_skip(text: Seq<char>, c: char, from: int, at: int)
    requires
        0 <= from <= at <= text.len(),
    ensures
        find(text, c, at) == from + find(text.skip(from), c, at - from),
    decreases text.len() - at,
{
    if at < text.len() && text[at] != c {
        lemma_find_skip(text, c, from, at + 1);
    }
}

/// The lines of `text`.
pub fn lines(text: &str) -> (r: Vec<String>)
    ensures
        views(r@) == line_views(text@),
{
    let chars = chars_of(text);
    let mut out: Vec<String> = Vec::new();
    let mut i: usize = 0;
    proof {
        assert(chars@.skip(0) =~= text@);
        assert(views(out@) + line_views(text@) =~= line_views(text@));
    }
    while i < chars.len()
        invariant
            i <= chars.len(),
            chars@ == text@,
            views(out@) + line_views(text@.skip(i as int)) == line_views(text@),
        decreases chars.len() - i,
    {
        let at: usize = find_char(&chars, '\n', i);
        let ghost rest = text@.skip(i as int);
        let ghost before = views(out@);
        proof {
            lemma_find_skip(text@, '\n', i as int, i as int);
            lemma_find(rest, '\n', 0);
        }
        if at < chars.len() {
            let end: usize = if at > i && chars[at - 1] == '\r' {
                at - 1
            } else {
                at
            };
            let line = slice_text(&chars, i, end);
            proof {
                assert(line@ =~= without_return(rest.take(at - i)));
                assert(rest.skip(at - i + 1) =~= text@.skip(at + 1));
            }
            out.push(line);
            proof {
                assert(views(out@) =~= before.push(line@));
                assert(views(out@) + line_views(text@.skip(at + 1)) =~= before + (seq![line@]
                    + line_views(text@.skip(at + 1))));
            }
            i = at + 1;
        } else {
            let line = slice_text(&chars, i, chars.len());
            proof {
                assert(line@ =~= rest);
            }
            out.push(line);
            proof {
                assert(views(out@) =~= before.push(line@));
                assert(text@.skip(text@.len() as int) =~= Seq::<char>::empty());
                assert(views(out@) + line_views(text@.skip(text@.len() as int)) =~= before + (seq![
                    line@,
                ]));
            }
            i = chars.len();
        }
    }
    proof {
        assert(text@.skip(i as int) =~= Seq::<char>::empty());
        assert(views(out@) + Seq::<Seq<char>>::empty() =~= views(out@));
    }
    out
}

/// The parts of a text that `first` and `second` separate.
pub open spec fn parts(text: Seq<char>, first: char, second: char) -> Seq<Seq<char>>
    decreases text.len(),
{
    let a = find(text, first, 0);
    let b = find(text, second, 0);
    let at = if a < b {
        a
    } else {
        b
    };
    if 0 <= at < text.len() {
        seq![text.take(at)] + parts(text.skip(at + 1), first, second)
    } else {
        seq![text]
    }
}

/// The parts of `text` that `first` and `second` separate.
pub fn split_parts(text: &str, first: char, second: char) -> (r: Vec<String>)
    ensures
        views(r@) == parts(text@, first, second),
{
    let chars = chars_of(text);
    let mut out: Vec<String> = Vec::new();
    let mut i: usize = 0;
    let mut done: bool = false;
    proof {
        assert(chars@.skip(0) =~= text@);
        assert(views(out@) + parts(text@, first, second) =~= parts(text@, first, second));
    }
    while !done
        invariant
            i <= chars.len(),
            chars@ == text@,
            !done ==> views(out@) + parts(text@.skip(i as int), first, second) == parts(
                text@,
                first,
                second,
            ),
            done ==> views(out@) == parts(text@, first, second),
        decreases
                chars.len() + 1 - i + (if done {
                    0int
                } else {
                    1int
                }),
    {
        let a: usize = find_char(&chars, first, i);
        let b: usize = find_char(&chars, second, i);
        let at: usize = if a < b {
            a
        } else {
            b
        };
        let ghost rest = text@.skip(i as int);
        let ghost before = views(out@);
        proof {
            lemma_find_skip(text@, first, i as int, i as int);
            lemma_find_skip(text@, second, i as int, i as int);
            lemma_find(rest, first, 0);
            lemma_find(rest, second, 0);
        }
        let part = slice_text(&chars, i, at);
        proof {
            assert(part@ =~= rest.take(at - i));
        }
        out.push(part);
        proof {
            assert(views(out@) =~= before.push(part@));
        }
        if at < chars.len() {
            proof {
                assert(rest.skip(at - i + 1) =~= text@.skip(at + 1));
                assert(views(out@) + parts(text@.skip(at + 1), first, second) =~= before + (seq![
                    part@,
                ] + parts(text@.skip(at + 1), first, second)));
            }
            i = at + 1;
        } else {
            proof {
                assert(part@ =~= rest);
                assert(views(out@) =~= before + seq![part@]);
            }
            done = true;
        }
    }
    out
}

/// `text` without `suffix`, where it ends with it.
pub fn strip_suffix(text: &str, suffix: &str) -> (r: Option<String>)
    ensures
        view_of(r) == (if has_suffix(text@, suffix@) {
            Some(text@.take(text@.len() - suffix@.len()))
        } else {
            None
        }),
{
    if !ends_with(text, suffix) {
        return None;
    }
    let end: usize = text.unicode_len() - suffix.unicode_len();
    proof {
        assert(text@.subrange(0, end as int) =~= text@.take(end as int));
    }
    Some(text.substring_char(0, end).to_owned())
}

/// `texts` one behind the other, with `separator` between them.
pub open spec fn joined_by(texts: Seq<Seq<char>>, separator: Seq<char>) -> Seq<char>
    decreases texts.len(),
{
    if texts.len() == 0 {
        Seq::empty()
    } else if texts.len() == 1 {
        texts[0]
    } else {
        joined_by(texts.drop_last(), separator) + separator + texts.last()
    }
}

/// `texts` one behind the other, with `separator` between them.
pub fn join_texts(texts: &Vec<String>, separator: &str) -> (r: String)
    ensures
        r@ == joined_by(views(texts@), separator@),
{
    let mut out: String = String::new();
    let mut i: usize = 0;
    let ghost all = views(texts@);
    while i < texts.len()
        invariant
            i <= texts.len(),
            all == views(texts@),
            out@ == joined_by(all.take(i as int), separator@),
        decreases texts.len() - i,
    {
        if i > 0 {
            out.append(separator);
        }
        out.append(texts[i].as_str());
        proof {
            assert(all.take(i + 1).drop_last() =~= all.take(i as int));
            assert(all.take(i + 1).last() == texts@[i as int]@);
            assert(out@ =~= joined_by(all.take(i + 1), separator@));
        }
        i = i + 1;
    }
    proof {
        assert(all.take(i as int) =~= all);
    }
    out
}

/// `text` with its ASCII letters in lower case.
pub open spec fn lowered(text: Seq<char>) -> Seq<char> {
    Seq::new(text.len(), |i: int| lower(text[i]))
}

/// `text` with its ASCII letters in lower case.
pub fn ascii_lowercase(text: &str) -> (r: String)
    ensures
        r@ == lowered(text@),
{
    let chars = chars_of(text);
    let mut out: String = String::new();
    let mut i: usize = 0;
    while i < chars.len()
        invariant
            i <= chars.len(),
            chars@ == text@,
            out@ == lowered(text@).take(i as int),
        decreases chars.len() - i,
    {
        let c = chars[i];
        push(
            &mut out,
            if 'A' <= c && c <= 'Z' {
                (c as u8 + 32) as char
            } else {
                c
            },
        );
        proof {
            assert(out@ =~= lowered(text@).take(i + 1));
        }
        i = i + 1;
    }
    proof {
        assert(lowered(text@).take(i as int) =~= lowered(text@));
    }
    out
}

/// Appends `word` to `words`.
pub fn push_word(words: &mut Vec<String>, word: &str)
    ensures
        views(final(words)@) == views(old(words)@).push(word@),
{
    let ghost before = views(words@);
    words.push(word.to_owned());
    proof {
        assert(views(words@) =~= before.push(word@));
    }
}

/// `text` is one of `texts`.
pub open spec fn is_among(texts: Seq<Seq<char>>, text: Seq<char>) -> bool {
    exists|i: int| 0 <= i < texts.len() && texts[i] == text
}

/// `text` is one of `texts`.
pub fn among(texts: &Vec<String>, text: &str) -> (r: bool)
    ensures
        r == is_among(views(texts@), text@),
{
    let mut i: usize = 0;
    while i < texts.len()
        invariant
            i <= texts.len(),
            forall|j: int| 0 <= j < i ==> views(texts@)[j] != text@,
        decreases texts.len() - i,
    {
        if same(texts[i].as_str(), text) {
            assert(views(texts@)[i as int] == text@);
            return true;
        }
        i = i + 1;
    }
    false
}

/// `part` stands in `text` at the place `at`.
pub open spec fn stands_at(text: Seq<char>, part: Seq<char>, at: int) -> bool {
    0 <= at && at + part.len() <= text.len() && text.subrange(at, at + part.len()) == part
}

/// `part` stands somewhere in `text`.
pub open spec fn has_part(text: Seq<char>, part: Seq<char>) -> bool {
    exists|at: int| #[trigger] stands_at(text, part, at)
}

/// Whether `part` stands somewhere in `text`.
pub fn contains(text: &str, part: &str) -> (r: bool)
    ensures
        r == has_part(text@, part@),
{
    let chars = chars_of(text);
    let wanted = chars_of(part);
    if wanted.len() > chars.len() {
        return false;
    }
    let last: usize = chars.len() - wanted.len();
    let mut at: usize = 0;
    while at <= last
        invariant
            chars@ == text@,
            wanted@ == part@,
            last == chars.len() - wanted.len(),
            at <= last + 1,
            last + 1 <= usize::MAX || at <= last,
            forall|i: int| 0 <= i < at ==> !(#[trigger] stands_at(text@, part@, i)),
        decreases last + 1 - at,
    {
        let mut i: usize = 0;
        while i < wanted.len() && chars[at + i] == wanted[i]
            invariant
                at + wanted.len() <= chars.len(),
                i <= wanted.len(),
                forall|j: int| 0 <= j < i ==> chars@[at + j] == #[trigger] wanted@[j],
            decreases wanted.len() - i,
        {
            i = i + 1;
        }
        if i == wanted.len() {
            proof {
                assert(text@.subrange(at as int, at + part@.len()) =~= part@);
                assert(stands_at(text@, part@, at as int));
            }
            return true;
        }
        proof {
            assert(text@.subrange(at as int, at + part@.len())[i as int] == chars@[at + i]);
        }
        if at == last {
            return false;
        }
        at = at + 1;
    }
    false
}

/// What `String::from_utf8_lossy` makes of bytes.
pub uninterp spec fn lossy(bytes: Seq<u8>) -> Seq<char>;

/// Calls `String::from_utf8_lossy`. The text depends on the bytes alone; of UTF-8 it is the text
/// that they encode.
#[verifier::external_body]
pub(crate) fn text_of(bytes: &[u8]) -> (r: String)
    ensures
        r@ == lossy(bytes@),
        vstd::utf8::valid_utf8(bytes@) ==> vstd::utf8::encode_utf8(r@) == bytes@,
{
    String::from_utf8_lossy(bytes).into_owned()
}

/// The first `count` characters of `text`.
pub open spec fn beginning(text: Seq<char>, count: nat) -> Seq<char> {
    if text.len() <= count {
        text
    } else {
        text.take(count as int)
    }
}

/// The first `count` characters of `text`.
pub fn first_chars(text: &str, count: usize) -> (r: String)
    ensures
        r@ == beginning(text@, count as nat),
{
    let chars = chars_of(text);
    if chars.len() <= count {
        return text.to_owned();
    }
    let start = slice_text(&chars, 0, count);
    proof {
        assert(start@ =~= text@.take(count as int));
    }
    start
}

/// Numbers that print alike are the same.
pub proof fn lemma_decimal_tells(a: nat, b: nat)
    requires
        decimal(a) == decimal(b),
    ensures
        a == b,
    decreases a,
{
    lemma_decimal_length(a);
    lemma_decimal_length(b);
    if a >= 10 && b >= 10 {
        let first = decimal(a / 10);
        let second = decimal(b / 10);
        assert(decimal(a).drop_last() =~= first);
        assert(decimal(b).drop_last() =~= second);
        lemma_decimal_tells(a / 10, b / 10);
        assert(decimal(a).last() == digit_char((a % 10) as int));
        assert(decimal(b).last() == digit_char((b % 10) as int));
        assert(a % 10 == b % 10);
    } else if a >= 10 {
        lemma_decimal_length(a / 10);
        assert(decimal(a).len() > 1);
        assert(decimal(b).len() == 1);
    } else if b >= 10 {
        lemma_decimal_length(b / 10);
        assert(decimal(b).len() > 1);
        assert(decimal(a).len() == 1);
    } else {
        assert(decimal(a)[0] == digit_char(a as int));
        assert(decimal(b)[0] == digit_char(b as int));
    }
}

/// A number prints as at least one digit.
pub proof fn lemma_decimal_length(value: nat)
    ensures
        decimal(value).len() > 0,
    decreases value,
{
    if value >= 10 {
        lemma_decimal_length(value / 10);
    }
}

/// No more different texts than there are can be found among others.
pub proof fn lemma_as_many(found: Seq<Seq<char>>, among: Seq<Seq<char>>)
    requires
        found.no_duplicates(),
        forall|i: int| 0 <= i < found.len() ==> is_among(among, #[trigger] found[i]),
    ensures
        found.len() <= among.len(),
{
    found.unique_seq_to_set();
    among.lemma_cardinality_of_set();
    assert(found.to_set().subset_of(among.to_set())) by {
        assert forall|text: Seq<char>| found.to_set().contains(text) implies among.to_set().contains(
            text,
        ) by {
            let i = choose|i: int| 0 <= i < found.len() && found[i] == text;
            assert(is_among(among, found[i]));
        }
    }
    vstd::set_lib::lemma_len_subset(found.to_set(), among.to_set());
}

/// The text before the last `c` and the text behind it.
pub open spec fn split_last(text: Seq<char>, c: char) -> Option<(Seq<char>, Seq<char>)>
    decreases text.len(),
{
    if text.len() == 0 {
        None
    } else if text.last() == c {
        Some((text.drop_last(), Seq::empty()))
    } else {
        match split_last(text.drop_last(), c) {
            Some((before, behind)) => Some((before, behind.push(text.last()))),
            None => None,
        }
    }
}

/// Where the last `c` stands decides how a text is split.
proof fn lemma_split_last(text: Seq<char>, c: char, at: int)
    requires
        0 <= at < text.len(),
        text[at] == c,
        forall|i: int| at < i < text.len() ==> text[i] != c,
    ensures
        split_last(text, c) == Some((text.take(at), text.skip(at + 1))),
    decreases text.len(),
{
    if at == text.len() - 1 {
        assert(text.drop_last() =~= text.take(at));
        assert(text.skip(at + 1) =~= Seq::<char>::empty());
    } else {
        let shorter = text.drop_last();
        assert(text.last() != c);
        lemma_split_last(shorter, c, at);
        assert(shorter.take(at) =~= text.take(at));
        assert(shorter.skip(at + 1).push(text.last()) =~= text.skip(at + 1));
    }
}

proof fn lemma_split_last_none(text: Seq<char>, c: char)
    requires
        forall|i: int| 0 <= i < text.len() ==> text[i] != c,
    ensures
        split_last(text, c) is None,
    decreases text.len(),
{
    if text.len() > 0 {
        assert(text.last() == text[text.len() - 1]);
        lemma_split_last_none(text.drop_last(), c);
    }
}

/// The text before the last `c` and the text behind it.
pub fn rsplit_once(text: &str, c: char) -> (r: Option<(String, String)>)
    ensures
        split_last(text@, c) == (match r {
            Some((before, behind)) => Some((before@, behind@)),
            None => None,
        }),
{
    let chars = chars_of(text);
    let mut at: usize = chars.len();
    while at > 0 && chars[at - 1] != c
        invariant
            chars@ == text@,
            at <= chars.len(),
            forall|i: int| at <= i < chars.len() ==> chars@[i] != c,
        decreases at,
    {
        at = at - 1;
    }
    if at == 0 {
        proof {
            lemma_split_last_none(text@, c);
        }
        return None;
    }
    proof {
        lemma_split_last(text@, c, at - 1);
    }
    let before = slice_text(&chars, 0, at - 1);
    let behind = slice_text(&chars, at, chars.len());
    proof {
        assert(before@ =~= text@.take(at - 1));
        assert(behind@ =~= text@.skip(at as int));
    }
    Some((before, behind))
}

/// `text` without the characters `c` that it begins with.
pub open spec fn without_leading(text: Seq<char>, c: char) -> Seq<char>
    decreases text.len(),
{
    if text.len() > 0 && text[0] == c {
        without_leading(text.skip(1), c)
    } else {
        text
    }
}

/// `text` without the characters `c` that it ends with.
pub open spec fn without_trailing(text: Seq<char>, c: char) -> Seq<char>
    decreases text.len(),
{
    if text.len() > 0 && text.last() == c {
        without_trailing(text.drop_last(), c)
    } else {
        text
    }
}

/// `text` without the characters `c` that it begins and ends with.
pub fn trim_char(text: &str, c: char) -> (r: String)
    ensures
        r@ == without_trailing(without_leading(text@, c), c),
{
    let chars = chars_of(text);
    let mut from: usize = 0;
    proof {
        assert(chars@.skip(0) =~= chars@);
    }
    while from < chars.len() && chars[from] == c
        invariant
            from <= chars.len(),
            without_leading(chars@, c) == without_leading(chars@.skip(from as int), c),
        decreases chars.len() - from,
    {
        proof {
            assert(chars@.skip(from as int).skip(1) =~= chars@.skip(from + 1));
        }
        from = from + 1;
    }
    let mut to: usize = chars.len();
    let ghost rest = chars@.skip(from as int);
    proof {
        assert(chars@.subrange(from as int, to as int) =~= rest);
    }
    while to > from && chars[to - 1] == c
        invariant
            from <= to <= chars.len(),
            without_trailing(rest, c) == without_trailing(
                chars@.subrange(from as int, to as int),
                c,
            ),
        decreases to,
    {
        proof {
            assert(chars@.subrange(from as int, to as int).drop_last() =~= chars@.subrange(
                from as int,
                to - 1,
            ));
            assert(chars@.subrange(from as int, to as int).last() == chars@[to - 1]);
        }
        to = to - 1;
    }
    proof {
        if to > from {
            assert(chars@.subrange(from as int, to as int).last() == chars@[to - 1]);
        }
    }
    slice_text(&chars, from, to)
}

/// The value of the option `flag` among words that are options with a value each, from `at` on: the
/// word behind the first word of that name.
pub open spec fn option_from(words: Seq<Seq<char>>, flag: Seq<char>, at: int) -> Option<Seq<char>>
    decreases words.len() - at,
{
    if at < 0 || at + 1 >= words.len() {
        None
    } else if words[at] == flag {
        Some(words[at + 1])
    } else {
        option_from(words, flag, at + 2)
    }
}

/// `value` stands directly behind a word `flag`.
pub open spec fn stands_behind(words: Seq<Seq<char>>, flag: Seq<char>, value: Seq<char>) -> bool {
    exists|i: int| 0 <= i < words.len() - 1 && #[trigger] words[i] == flag && words[i + 1] == value
}

/// What is put together from two runs of texts is what each gives, with the separator between them.
pub proof fn lemma_joined_parts(first: Seq<Seq<char>>, second: Seq<Seq<char>>, separator: Seq<char>)
    requires
        first.len() > 0,
        second.len() > 0,
    ensures
        joined_by(first + second, separator) == joined_by(first, separator) + separator
            + joined_by(second, separator),
        joined_by(first.take(1), separator) == first[0],
    decreases second.len(),
{
    let all = first + second;
    assert(first.take(1)[0] == first[0]);
    assert(all.last() == second.last());
    if second.len() == 1 {
        assert(all.drop_last() =~= first);
    } else {
        lemma_joined_parts(first, second.drop_last(), separator);
        assert(all.drop_last() =~= first + second.drop_last());
        assert(joined_by(all, separator) =~= joined_by(first, separator) + separator + joined_by(
            second,
            separator,
        ));
    }
}

/// Reading another digit.
proof fn lemma_digit_read(text: Seq<char>, c: char, at: int, so_far: int, negative: bool, min: int, max: int)
    requires
        0 <= at <= text.len(),
        '0' <= c <= '9',
    ensures
        digits_from(text.push(c), at, so_far, negative, min, max) == (match digits_from(
            text,
            at,
            so_far,
            negative,
            min,
            max,
        ) {
            Ok(value) => {
                let digit = c as int - 48;
                let next = if negative {
                    value * 10 - digit
                } else {
                    value * 10 + digit
                };
                if next > max {
                    Err(IntError::TooLarge)
                } else if next < min {
                    Err(IntError::TooSmall)
                } else {
                    Ok(next)
                }
            },
            Err(error) => Err(error),
        }),
    decreases text.len() - at,
{
    let longer = text.push(c);
    if at == text.len() {
        assert(longer[at] == c);
        reveal_with_fuel(digits_from, 2);
    } else {
        assert(longer[at] == text[at]);
        if '0' <= text[at] <= '9' {
            let digit = text[at] as int - 48;
            let next = if negative {
                so_far * 10 - digit
            } else {
                so_far * 10 + digit
            };
            if min <= next <= max {
                lemma_digit_read(text, c, at + 1, next, negative, min, max);
            }
        }
    }
}

/// The digits of a number are read as the number, behind a sign as well.
proof fn lemma_digits_read_back(value: nat, negative: bool, min: int, max: int, sign: Seq<char>)
    requires
        min <= 0 <= max,
        if negative {
            min <= -value
        } else {
            value <= max
        },
        sign.len() <= 1,
    ensures
        digits_from(sign + decimal(value), sign.len() as int, 0, negative, min, max) == Ok::<
            int,
            IntError,
        >(
            if negative {
                -value
            } else {
                value as int
            },
        ),
        forall|i: int| 0 <= i < decimal(value).len() ==> '0' <= #[trigger] decimal(value)[i] <= '9',
    decreases value,
{
    let digit = digit_char((value % 10) as int);
    if value < 10 {
        assert(sign + decimal(value) =~= sign.push(digit));
        lemma_digit_read(sign, digit, sign.len() as int, 0, negative, min, max);
        reveal_with_fuel(digits_from, 2);
    } else {
        lemma_digits_read_back(value / 10, negative, min, max, sign);
        let shorter = sign + decimal(value / 10);
        assert(sign + decimal(value) =~= shorter.push(digit));
        lemma_digit_read(shorter, digit, sign.len() as int, 0, negative, min, max);
    }
}

/// A number that is printed is read as the same number.
pub proof fn lemma_number_read_back(value: int, min: int, max: int)
    requires
        min <= 0 <= max,
        min <= value <= max,
    ensures
        integer(signed_decimal(value), min, max) == Ok::<int, IntError>(value),
        value >= 0 ==> integer(decimal(value as nat), min, max) == Ok::<int, IntError>(value),
{
    reveal_strlit("-");
    let none: Seq<char> = Seq::empty();
    if value < 0 {
        lemma_digits_read_back((-value) as nat, true, min, max, "-"@);
        lemma_decimal_length((-value) as nat);
        assert(signed_decimal(value)[0] == '-');
    } else {
        lemma_digits_read_back(value as nat, false, min, max, none);
        lemma_decimal_length(value as nat);
        assert(none + decimal(value as nat) =~= decimal(value as nat));
        assert('0' <= decimal(value as nat)[0] <= '9');
    }
}

/// Trimming takes off white space and nothing else, and leaves none at the ends.
pub proof fn lemma_trimmed(text: Seq<char>)
    ensures
        exists|from: int, to: int|
            0 <= from <= to <= text.len() && trimmed(text) == #[trigger] text.subrange(from, to) && (
            forall|i: int| (0 <= i < from || to <= i < text.len()) ==> is_space(#[trigger] text[i])),
        trimmed(text).len() > 0 ==> !is_space(trimmed(text)[0]) && !is_space(trimmed(text).last()),
{
    let from = lemma_trimmed_start(text);
    let rest = trimmed_start(text);
    let to = lemma_trimmed_end(rest);
    let kept = trimmed(text);
    assert(kept =~= text.subrange(from, from + to));
    assert forall|i: int| (0 <= i < from || from + to <= i < text.len()) implies is_space(
        #[trigger] text[i],
    ) by {
        if i >= from {
            assert(rest[i - from] == text[i]);
        }
    }
}

proof fn lemma_trimmed_start(text: Seq<char>) -> (from: int)
    ensures
        0 <= from <= text.len(),
        trimmed_start(text) == text.skip(from),
        forall|i: int| 0 <= i < from ==> is_space(#[trigger] text[i]),
        trimmed_start(text).len() > 0 ==> !is_space(trimmed_start(text)[0]),
    decreases text.len(),
{
    if text.len() > 0 && is_space(text[0]) {
        let rest = lemma_trimmed_start(text.skip(1));
        assert(text.skip(1).skip(rest) =~= text.skip(rest + 1));
        assert forall|i: int| 0 <= i < rest + 1 implies is_space(#[trigger] text[i]) by {
            if i > 0 {
                assert(text.skip(1)[i - 1] == text[i]);
            }
        }
        rest + 1
    } else {
        assert(text.skip(0) =~= text);
        0
    }
}

proof fn lemma_trimmed_end(text: Seq<char>) -> (to: int)
    ensures
        0 <= to <= text.len(),
        trimmed_end(text) == text.take(to),
        forall|i: int| to <= i < text.len() ==> is_space(#[trigger] text[i]),
        to > 0 ==> !is_space(text[to - 1]),
        text.len() > 0 && !is_space(text[0]) ==> to > 0,
    decreases text.len(),
{
    if text.len() > 0 && is_space(text.last()) {
        let shorter = text.drop_last();
        let to = lemma_trimmed_end(shorter);
        assert(shorter.take(to) =~= text.take(to));
        assert forall|i: int| to <= i < text.len() implies is_space(#[trigger] text[i]) by {
            if i < shorter.len() {
                assert(shorter[i] == text[i]);
            }
        }
        if to > 0 {
            assert(shorter[to - 1] == text[to - 1]);
        }
        to
    } else {
        assert(text.take(text.len() as int) =~= text);
        text.len() as int
    }
}

/// The first place of a character has it, and no place before has.
proof fn lemma_found(text: Seq<char>, c: char, at: int)
    requires
        0 <= at <= text.len(),
    ensures
        at <= find(text, c, at) <= text.len(),
        find(text, c, at) < text.len() ==> text[find(text, c, at)] == c,
        forall|i: int| at <= i < find(text, c, at) ==> #[trigger] text[i] != c,
    decreases text.len() - at,
{
    if at < text.len() && text[at] != c {
        lemma_found(text, c, at + 1);
    }
}

/// A text is split at the first of the characters: what stands before has none, and both sides with
/// it between them are the text.
pub proof fn lemma_split(text: Seq<char>, c: char)
    ensures
        split(text, c) is Some <==> text.contains(c),
        split(text, c) matches Some((before, behind)) ==> text == before.push(c) + behind
            && !before.contains(c),
{
    lemma_found(text, c, 0);
    let at = find(text, c, 0);
    if at < text.len() {
        assert(text =~= text.take(at).push(c) + text.skip(at + 1));
        assert(text.contains(c));
        if text.take(at).contains(c) {
            let i = choose|i: int| 0 <= i < at && text.take(at)[i] == c;
            assert(text[i] == c);
        }
    }
}

/// Options that stand behind others are read where those do not name the option.
pub proof fn lemma_options_joined(
    first: Seq<Seq<char>>,
    second: Seq<Seq<char>>,
    flag: Seq<char>,
    at: int,
)
    requires
        0 <= at <= first.len(),
        (first.len() - at) % 2 == 0,
    ensures
        option_from(first + second, flag, at) == (if option_from(first, flag, at) is Some {
            option_from(first, flag, at)
        } else {
            option_from(second, flag, 0)
        }),
    decreases first.len() - at,
{
    if at < first.len() {
        assert(at + 1 < first.len());
        assert((first + second)[at] == first[at]);
        assert((first + second)[at + 1] == first[at + 1]);
        lemma_options_joined(first, second, flag, at + 2);
    } else {
        lemma_options_behind(first, second, flag, 0);
    }
}

/// Options are read the same from behind others.
proof fn lemma_options_behind(
    first: Seq<Seq<char>>,
    second: Seq<Seq<char>>,
    flag: Seq<char>,
    at: int,
)
    requires
        0 <= at,
    ensures
        option_from(first + second, flag, first.len() + at) == option_from(second, flag, at),
    decreases second.len() - at,
{
    if at + 1 < second.len() {
        assert((first + second)[first.len() + at] == second[at]);
        assert((first + second)[first.len() + at + 1] == second[at + 1]);
        lemma_options_behind(first, second, flag, at + 2);
    }
}

/// Each of the texts that are put together stands in what they give.
pub proof fn lemma_joined_holds(texts: Seq<Seq<char>>, separator: Seq<char>, i: int)
    requires
        0 <= i < texts.len(),
    ensures
        has_part(joined_by(texts, separator), texts[i]),
    decreases texts.len(),
{
    let all = joined_by(texts, separator);
    if texts.len() == 1 {
        assert(all.subrange(0, all.len() as int) =~= texts[i]);
        assert(stands_at(all, texts[i], 0));
    } else if i == texts.len() - 1 {
        let at = all.len() - texts[i].len();
        assert(all.subrange(at, at + texts[i].len()) =~= texts[i]);
        assert(stands_at(all, texts[i], at));
    } else {
        let shorter = texts.drop_last();
        lemma_joined_holds(shorter, separator, i);
        let before = joined_by(shorter, separator);
        let at = choose|at: int| #[trigger] stands_at(before, shorter[i], at);
        assert(all.subrange(at, at + texts[i].len()) =~= before.subrange(at, at + texts[i].len()));
        assert(stands_at(all, texts[i], at));
    }
}

/// A number in decimal is made of digits, one at least.
pub proof fn lemma_decimal_digits(value: nat)
    ensures
        decimal(value).len() > 0,
        forall|i: int| 0 <= i < decimal(value).len() ==> '0' <= #[trigger] decimal(value)[i] <= '9',
    decreases value,
{
    if value >= 10 {
        lemma_decimal_digits(value / 10);
    }
}

/// A text is split at the first place where the character stands.
pub proof fn lemma_split_first(before: Seq<char>, c: char, behind: Seq<char>)
    requires
        !before.contains(c),
    ensures
        split(before.push(c) + behind, c) == Some((before, behind)),
{
    let text = before.push(c) + behind;
    assert(text[before.len() as int] == c);
    lemma_split(text, c);
    lemma_found(text, c, 0);
    let at = find(text, c, 0);
    if at < before.len() {
        assert(before[at] == text[at]);
        assert(before.contains(c));
    }
    if at > before.len() {
        assert(text[before.len() as int] != c);
    }
    assert(text.take(at) =~= before);
    assert(text.skip(at + 1) =~= behind);
}

/// Text without space at its ends is trimmed already.
pub proof fn lemma_trimmed_bare(text: Seq<char>)
    requires
        text.len() > 0 ==> !is_space(text[0]) && !is_space(text.last()),
    ensures
        trimmed(text) == text,
{
}

/// A number in decimal has no space around it, and nothing in it but digits and a sign.
pub proof fn lemma_number_text(value: int)
    ensures
        signed_decimal(value).len() > 0,
        forall|i: int|
            0 <= i < signed_decimal(value).len() ==> '0' <= #[trigger] signed_decimal(value)[i]
                <= '9' || signed_decimal(value)[i] == '-',
        trimmed(signed_decimal(value)) == signed_decimal(value),
        value >= 0 ==> signed_decimal(value) == decimal(value as nat),
        value < 0 ==> signed_decimal(value)[0] == '-',
{
    reveal_strlit("-");
    if value < 0 {
        lemma_decimal_digits((-value) as nat);
        assert(signed_decimal(value).skip(1) =~= decimal((-value) as nat));
        assert forall|i: int| 0 <= i < signed_decimal(value).len() implies '0'
            <= #[trigger] signed_decimal(value)[i] <= '9' || signed_decimal(value)[i] == '-' by {
            if i > 0 {
                assert(signed_decimal(value)[i] == decimal((-value) as nat)[i - 1]);
            }
        }
    } else {
        lemma_decimal_digits(value as nat);
    }
    lemma_trimmed_bare(signed_decimal(value));
}

/// A number that is read is within its limits.
pub proof fn lemma_integer_range(text: Seq<char>, min: int, max: int)
    requires
        min <= 0 <= max,
    ensures
        integer(text, min, max) matches Ok(value) ==> min <= value <= max,
{
    lemma_digits_range(text, 1, 0, text[0] == '-', min, max);
    lemma_digits_range(text, 0, 0, false, min, max);
}

/// The beginning of a text is no longer than asked for, and the text itself where it is short.
pub proof fn lemma_beginning(text: Seq<char>, count: nat)
    ensures
        beginning(text, count).len() <= count,
        text.len() <= count ==> beginning(text, count) == text,
        text.len() >= count ==> beginning(text, count) == text.take(count as int),
{
    assert(text.take(text.len() as int) =~= text);
}

/// Letters are made small one by one, and everything else stays.
pub proof fn lemma_lowered(text: Seq<char>, i: int)
    requires
        0 <= i < text.len(),
    ensures
        lowered(text).len() == text.len(),
        'A' <= text[i] <= 'Z' ==> lowered(text)[i] as int == text[i] as int + 32,
        !('A' <= text[i] <= 'Z') ==> lowered(text)[i] == text[i],
{
}

/// Blanks, tabs and ends of lines are space; what can be seen in ASCII is not.
pub proof fn lemma_space(c: char)
    ensures
        c == ' ' || c == '\t' || c == '\n' || c == '\r' ==> is_space(c),
        '!' <= c <= '~' ==> !is_space(c),
{
}

/// A text is split into lines at their ends, in order; the mark of a return before an end is no part
/// of the line, and an end behind the last line begins no other.
pub proof fn lemma_lines(line: Seq<char>, rest: Seq<char>)
    requires
        !line.contains('\n'),
    ensures
        line_views(line.push('\n') + rest) == seq![without_return(line)] + line_views(rest),
        line.len() > 0 ==> line_views(line) == seq![line],
        line_views(Seq::empty()).len() == 0,
        line.len() > 0 && line.last() == '\r' ==> without_return(line) == line.drop_last(),
        line.len() == 0 || line.last() != '\r' ==> without_return(line) == line,
{
    let text = line.push('\n') + rest;
    lemma_split_first(line, '\n', rest);
    lemma_found(text, '\n', 0);
    let at = find(text, '\n', 0);
    assert(text.take(at) == line);
    assert(text.skip(at + 1) == rest);
    lemma_found(line, '\n', 0);
    let none = find(line, '\n', 0);
    if none < line.len() {
        assert(line.contains(line[none]));
    }
    assert(line_views(line) =~= if line.len() > 0 {
        seq![line]
    } else {
        Seq::empty()
    });
}

/// A text is split at each of two characters, in order, and empty parts count.
pub proof fn lemma_parts(part: Seq<char>, c: char, rest: Seq<char>, first: char, second: char)
    requires
        !part.contains(first),
        !part.contains(second),
        c == first || c == second,
    ensures
        parts(part.push(c) + rest, first, second) == seq![part] + parts(rest, first, second),
        parts(part, first, second) == seq![part],
{
    let text = part.push(c) + rest;
    assert(text[part.len() as int] == c);
    lemma_found(text, first, 0);
    lemma_found(text, second, 0);
    let a = find(text, first, 0);
    let b = find(text, second, 0);
    if a < part.len() {
        assert(part[a] == text[a]);
        assert(part.contains(first));
    }
    if b < part.len() {
        assert(part[b] == text[b]);
        assert(part.contains(second));
    }
    if a > part.len() {
        assert(text[part.len() as int] != first);
    }
    if b > part.len() {
        assert(text[part.len() as int] != second);
    }
    let at = if a < b {
        a
    } else {
        b
    };
    assert(at == part.len());
    assert(text.take(at) =~= part);
    assert(text.skip(at + 1) =~= rest);
    lemma_found(part, first, 0);
    lemma_found(part, second, 0);
    if find(part, first, 0) < part.len() {
        assert(part.contains(part[find(part, first, 0)]));
    }
    if find(part, second, 0) < part.len() {
        assert(part.contains(part[find(part, second, 0)]));
    }
}

/// A text is split at the last place where the character stands.
pub proof fn lemma_split_at_last(before: Seq<char>, c: char, behind: Seq<char>)
    requires
        !behind.contains(c),
    ensures
        split_last(before.push(c) + behind, c) == Some((before, behind)),
        split_last(behind, c) is None,
{
    let text = before.push(c) + behind;
    let at = before.len() as int;
    assert(text[at] == c);
    assert forall|i: int| at < i < text.len() implies text[i] != c by {
        assert(text[i] == behind[i - at - 1]);
        assert(behind.contains(behind[i - at - 1]));
    }
    lemma_split_last(text, c, at);
    assert(text.take(at) =~= before);
    assert(text.skip(at + 1) =~= behind);
    assert forall|i: int| 0 <= i < behind.len() implies behind[i] != c by {
        assert(behind.contains(behind[i]));
    }
    lemma_split_last_none(behind, c);
}

/// What stands in front of a text is taken away as often as it is the character, and no more.
pub proof fn lemma_without_leading(text: Seq<char>, c: char)
    ensures
        without_leading(text, c).len() <= text.len(),
        has_suffix(text, without_leading(text, c)),
        without_leading(text, c).len() > 0 ==> without_leading(text, c)[0] != c,
        forall|i: int|
            0 <= i < text.len() - without_leading(text, c).len() ==> #[trigger] text[i] == c,
    decreases text.len(),
{
    if text.len() > 0 && text[0] == c {
        let shorter = text.skip(1);
        lemma_without_leading(shorter, c);
        let rest = without_leading(text, c);
        assert(text.skip(text.len() - rest.len()) =~= shorter.skip(shorter.len() - rest.len()));
        assert forall|i: int| 0 <= i < text.len() - rest.len() implies #[trigger] text[i] == c by {
            if i > 0 {
                assert(shorter[i - 1] == text[i]);
            }
        }
    } else {
        assert(text.skip(0) =~= text);
    }
}

/// What stands behind a text is taken away as often as it is the character, and no more.
pub proof fn lemma_without_trailing(text: Seq<char>, c: char)
    ensures
        without_trailing(text, c).len() <= text.len(),
        without_prefix(text, without_trailing(text, c)) is Some,
        without_trailing(text, c).len() > 0 ==> without_trailing(text, c).last() != c,
        forall|i: int|
            without_trailing(text, c).len() <= i < text.len() ==> #[trigger] text[i] == c,
    decreases text.len(),
{
    if text.len() > 0 && text.last() == c {
        let shorter = text.drop_last();
        lemma_without_trailing(shorter, c);
        let rest = without_trailing(text, c);
        assert(text.take(rest.len() as int) =~= shorter.take(rest.len() as int));
        assert forall|i: int| rest.len() <= i < text.len() implies #[trigger] text[i] == c by {
            if i < text.len() - 1 {
                assert(shorter[i] == text[i]);
            }
        }
    } else {
        assert(text.take(text.len() as int) =~= text);
    }
}

/// A number with one digit more is ten times the number and the digit, away from zero, while it is
/// within the limits; a number has nothing in it but digits and a sign before them.
pub proof fn lemma_integer_digit(text: Seq<char>, c: char, min: int, max: int)
    requires
        min <= 0 <= max,
        '0' <= c <= '9',
    ensures
        integer(text, min, max) matches Ok(value) ==> {
            let digit = c as int - '0' as int;
            let next = if text[0] == '-' {
                10 * value - digit
            } else {
                10 * value + digit
            };
            integer(text.push(c), min, max) == (if next > max {
                Err(IntError::TooLarge)
            } else if next < min {
                Err(IntError::TooSmall)
            } else {
                Ok(next)
            })
        },
        integer(Seq::empty(), min, max) == Err::<int, IntError>(IntError::Empty),
        integer(text, min, max) is Ok ==> forall|i: int|
            1 <= i < text.len() ==> '0' <= #[trigger] text[i] <= '9',
        integer(text, min, max) is Ok ==> ('0' <= text[0] <= '9' || text[0] == '+' || text[0] == '-'),
        c as int - 48 <= max ==> integer(seq![c], min, max) == Ok::<int, IntError>(c as int - 48),
{
    if integer(text, min, max) is Ok {
        assert(text.push(c)[0] == text[0]);
        let negative = text[0] == '-' && min < 0;
        if text[0] == '+' || negative {
            lemma_digit_read(text, c, 1, 0, negative, min, max);
            lemma_all_digits(text, 1, 0, negative, min, max);
        } else {
            lemma_digit_read(text, c, 0, 0, false, min, max);
            lemma_all_digits(text, 0, 0, false, min, max);
        }
    }
    reveal_with_fuel(digits_from, 2);
}

proof fn lemma_all_digits(
    text: Seq<char>,
    at: int,
    so_far: int,
    negative: bool,
    min: int,
    max: int,
)
    requires
        0 <= at,
        digits_from(text, at, so_far, negative, min, max) is Ok,
    ensures
        forall|i: int| at <= i < text.len() ==> '0' <= #[trigger] text[i] <= '9',
    decreases text.len() - at,
{
    if at < text.len() {
        let digit = text[at] as int - 48;
        let next = if negative {
            so_far * 10 - digit
        } else {
            so_far * 10 + digit
        };
        lemma_all_digits(text, at + 1, next, negative, min, max);
    }
}

} // verus!
