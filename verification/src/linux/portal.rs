//! Screenshots through the desktop portal.
use vstd::prelude::*;
use vstd::string::StringExecFns;

use crate::text::{chars_of, decimal_string, joined, push, strip_prefix, text_of};

verus! {

/// The value of a hexadecimal digit.
pub open spec fn hex_value(byte: u8) -> Option<int> {
    if 0x30 <= byte <= 0x39 {
        Some(byte - 0x30)
    } else if 0x41 <= byte <= 0x46 {
        Some(byte - 0x41 + 10)
    } else if 0x61 <= byte <= 0x66 {
        Some(byte - 0x61 + 10)
    } else {
        None
    }
}

/// The value of two hexadecimal digits, or of one behind a `+`.
pub open spec fn hex_pair(high: u8, low: u8) -> Option<u8> {
    match (hex_value(high), hex_value(low)) {
        (Some(high), Some(low)) => Some((high * 16 + low) as u8),
        (None, Some(low)) if high == 0x2b => Some(low as u8),
        _ => None,
    }
}

/// The bytes that an address stands for from `at` on: `%` and two hexadecimal digits are a byte,
/// anything else is itself.
pub open spec fn unescaped(bytes: Seq<u8>, at: int) -> Seq<u8>
    decreases bytes.len() - at,
{
    if at < 0 || at >= bytes.len() {
        Seq::empty()
    } else if bytes[at] == 0x25 && at + 2 < bytes.len() && hex_pair(
        bytes[at + 1],
        bytes[at + 2],
    ) is Some {
        seq![hex_pair(bytes[at + 1], bytes[at + 2])->0] + unescaped(bytes, at + 3)
    } else {
        seq![bytes[at]] + unescaped(bytes, at + 1)
    }
}

/// The value of a hexadecimal digit.
fn hex(byte: u8) -> (r: Option<u8>)
    ensures
        hex_value(byte) == (match r {
            Some(value) => Some(value as int),
            None => None,
        }),
        r matches Some(value) ==> value < 16,
{
    if 0x30 <= byte && byte <= 0x39 {
        Some(byte - 0x30)
    } else if 0x41 <= byte && byte <= 0x46 {
        Some(byte - 0x41 + 10)
    } else if 0x61 <= byte && byte <= 0x66 {
        Some(byte - 0x61 + 10)
    } else {
        None
    }
}

/// The value of two hexadecimal digits, or of one behind a `+`.
fn pair(high: u8, low: u8) -> (r: Option<u8>)
    ensures
        r == hex_pair(high, low),
{
    match (hex(high), hex(low)) {
        (Some(high), Some(low)) => Some(high * 16 + low),
        (None, Some(low)) => if high == 0x2b {
            Some(low)
        } else {
            None
        },
        _ => None,
    }
}

/// The bytes that an address stands for.
pub fn unescape(bytes: &[u8]) -> (r: Vec<u8>)
    ensures
        r@ == unescaped(bytes@, 0),
{
    let mut out: Vec<u8> = Vec::new();
    let mut i: usize = 0;
    while i < bytes.len()
        invariant
            i <= bytes.len(),
            out@ + unescaped(bytes@, i as int) == unescaped(bytes@, 0),
        decreases bytes.len() - i,
    {
        let ghost before = out@;
        let ghost at = i as int;
        if bytes[i] == 0x25 && bytes.len() - i > 2 {
            if let Some(byte) = pair(bytes[i + 1], bytes[i + 2]) {
                out.push(byte);
                proof {
                    assert(before + (seq![byte] + unescaped(bytes@, at + 3)) =~= out@ + unescaped(
                        bytes@,
                        at + 3,
                    ));
                }
                i = i + 3;
                continue;
            }
        }
        out.push(bytes[i]);
        proof {
            assert(before + (seq![bytes@[at]] + unescaped(bytes@, at + 1)) =~= out@ + unescaped(
                bytes@,
                at + 1,
            ));
        }
        i = i + 1;
    }
    proof {
        assert(out@ + Seq::<u8>::empty() =~= out@);
    }
    out
}

/// The two bytes behind a `%` at `i` do not cut a character apart: they are two ASCII characters,
/// or one of two bytes.
pub open spec fn escape_is_whole(text: Seq<char>, i: int) -> bool {
    if (text[i + 1] as u32) < 0x80 {
        i + 2 == text.len() || (text[i + 2] as u32) < 0x80
    } else {
        (text[i + 1] as u32) < 0x800
    }
}

/// No `%` of the text cuts a character apart.
pub open spec fn escapes_are_whole(text: Seq<char>) -> bool {
    forall|i: int|
        0 <= i < text.len() - 1 && text[i] == '%' ==> #[trigger] escape_is_whole(text, i)
}

/// The path in an address.
pub fn percent_decode(s: &str) -> (r: String)
    requires
        escapes_are_whole(s@),
    ensures
        r@ == crate::text::lossy(unescaped(vstd::utf8::encode_utf8(s@), 0)),
        vstd::utf8::valid_utf8(unescaped(vstd::utf8::encode_utf8(s@), 0)) ==> vstd::utf8::encode_utf8(
            r@,
        ) == unescaped(vstd::utf8::encode_utf8(s@), 0),
{
    let out = unescape(s.as_bytes());
    text_of(out.as_slice())
}

/// The bytes of ASCII text.
pub open spec fn ascii_bytes(text: Seq<char>) -> Seq<u8> {
    Seq::new(text.len(), |i: int| text[i] as u8)
}

/// An address begins with the path's first byte.
proof fn lemma_escaped_front(bytes: Seq<u8>)
    requires
        bytes.len() > 0,
    ensures
        crate::linux::clipboard::escaped(bytes) == crate::linux::clipboard::escaped_byte(bytes[0]) + crate::linux::clipboard::escaped(bytes.skip(1)),
    decreases bytes.len(),
{
    if bytes.len() == 1 {
        assert(bytes.drop_last() =~= Seq::<u8>::empty());
        assert(bytes.skip(1) =~= Seq::<u8>::empty());
        assert(crate::linux::clipboard::escaped(bytes) =~= crate::linux::clipboard::escaped_byte(bytes[0]) + crate::linux::clipboard::escaped(bytes.skip(1)));
    } else {
        lemma_escaped_front(bytes.drop_last());
        assert(bytes.drop_last().skip(1) =~= bytes.skip(1).drop_last());
        assert(bytes.skip(1).last() == bytes.last());
        assert(crate::linux::clipboard::escaped(bytes) =~= crate::linux::clipboard::escaped_byte(bytes[0]) + crate::linux::clipboard::escaped(bytes.skip(1)));
    }
}

/// A byte that was written into an address is read out of it.
proof fn lemma_byte_roundtrip(byte: u8)
    ensures
        crate::linux::clipboard::is_plain(byte) ==> byte != 0x25,
        hex_pair(crate::linux::clipboard::hex_digit(byte as int / 16) as u8, crate::linux::clipboard::hex_digit(byte as int % 16) as u8) == Some(byte),
{
    let high = byte as int / 16;
    let low = byte as int % 16;
    assert(hex_value(crate::linux::clipboard::hex_digit(high) as u8) == Some(high));
    assert(hex_value(crate::linux::clipboard::hex_digit(low) as u8) == Some(low));
}

/// What was written into an address behind `before` is read out of it.
proof fn lemma_unescape_behind(before: Seq<u8>, bytes: Seq<u8>)
    ensures
        unescaped(before + ascii_bytes(crate::linux::clipboard::escaped(bytes)), before.len() as int) == bytes,
    decreases bytes.len(),
{
    let address = before + ascii_bytes(crate::linux::clipboard::escaped(bytes));
    let at = before.len() as int;
    if bytes.len() == 0 {
        assert(unescaped(address, at) =~= bytes);
    } else {
        lemma_escaped_front(bytes);
        lemma_byte_roundtrip(bytes[0]);
        let first = crate::linux::clipboard::escaped_byte(bytes[0]);
        let rest = bytes.skip(1);
        let next = before + ascii_bytes(first);
        assert(address =~= next + ascii_bytes(crate::linux::clipboard::escaped(rest)));
        lemma_unescape_behind(next, rest);
        if crate::linux::clipboard::is_plain(bytes[0]) {
            assert(address[at] == bytes[0]);
            assert(next.len() == at + 1);
        } else {
            assert(address[at] == 0x25);
            assert(address[at + 1] == crate::linux::clipboard::hex_digit(bytes[0] as int / 16) as u8);
            assert(address[at + 2] == crate::linux::clipboard::hex_digit(bytes[0] as int % 16) as u8);
            assert(next.len() == at + 3);
        }
        assert(seq![bytes[0]] + rest =~= bytes);
    }
}

/// What was written into an address is read out of it again, whatever bytes the path has.
pub proof fn lemma_escape_roundtrip(bytes: Seq<u8>)
    ensures
        unescaped(ascii_bytes(crate::linux::clipboard::escaped(bytes)), 0) == bytes,
{
    lemma_unescape_behind(Seq::empty(), bytes);
    assert(Seq::<u8>::empty() + ascii_bytes(crate::linux::clipboard::escaped(bytes)) =~= ascii_bytes(crate::linux::clipboard::escaped(bytes)));
}

/// The name of the sender in a request's path: its name on the bus without `:` at its start and
/// with `_` for `.`.
pub open spec fn sender_of(unique_name: Seq<char>) -> Seq<char> {
    let name = crate::text::without_leading(unique_name, ':');
    Seq::new(
        name.len(),
        |i: int|
            if name[i] == '.' {
                '_'
            } else {
                name[i]
            },
    )
}

/// The name of the sender in a request's path.
fn sender(unique_name: &str) -> (r: String)
    ensures
        r@ == sender_of(unique_name@),
{
    let chars = chars_of(unique_name);
    let mut from: usize = 0;
    proof {
        assert(chars@.skip(0) =~= chars@);
    }
    while from < chars.len() && chars[from] == ':'
        invariant
            from <= chars.len(),
            crate::text::without_leading(chars@, ':') == crate::text::without_leading(chars@.skip(from as int), ':'),
        decreases chars.len() - from,
    {
        proof {
            assert(chars@.skip(from as int).skip(1) =~= chars@.skip(from + 1));
        }
        from = from + 1;
    }
    let ghost name = chars@.skip(from as int);
    let mut out: String = String::new();
    let mut i: usize = from;
    while i < chars.len()
        invariant
            from <= i <= chars.len(),
            name == chars@.skip(from as int),
            out@.len() == i - from,
            forall|j: int|
                0 <= j < i - from ==> #[trigger] out@[j] == (if name[j] == '.' {
                    '_'
                } else {
                    name[j]
                }),
        decreases chars.len() - i,
    {
        push(
            &mut out,
            if chars[i] == '.' {
                '_'
            } else {
                chars[i]
            },
        );
        i = i + 1;
    }
    proof {
        assert(out@ =~= sender_of(unique_name@));
    }
    out
}

/// The token of the requests of the process `pid`.
pub fn request_token(pid: u32) -> (r: String)
    ensures
        r@ == "boltsnap"@ + crate::text::decimal(pid as nat),
{
    joined("boltsnap", decimal_string(pid as u128).as_str())
}

/// The path of the request that the process `pid` makes under the name `unique_name`. It is known
/// before the request is made, so that no answer is missed.
pub fn request_path(unique_name: &str, pid: u32) -> (r: String)
    ensures
        r@ == "/org/freedesktop/portal/desktop/request/"@ + sender_of(unique_name@) + "/"@
            + "boltsnap"@ + crate::text::decimal(pid as nat),
{
    let mut path: String = joined(
        "/org/freedesktop/portal/desktop/request/",
        sender(unique_name).as_str(),
    );
    path.append("/");
    path.append(request_token(pid).as_str());
    proof {
        assert(path@ =~= "/org/freedesktop/portal/desktop/request/"@ + sender_of(unique_name@)
            + "/"@ + "boltsnap"@ + crate::text::decimal(pid as nat));
    }
    path
}

/// The path in the portal's answer can be read.
pub open spec fn is_readable(uri: Seq<char>) -> bool {
    crate::text::without_prefix(uri, "file://"@) matches Some(path) ==> escapes_are_whole(path)
}

/// The file that the portal's answer names.
pub fn answered_path(code: u32, uri: Option<&str>) -> (r: Result<String, String>)
    requires
        code == 0 ==> (uri matches Some(uri) ==> is_readable(uri@)),
    ensures
        if code != 0 {
            r matches Err(message) && message@ == "portal screenshot denied or cancelled (code "@
                + crate::text::decimal(code as nat) + ")"@
        } else {
            match uri {
                None => r matches Err(message) && message@ == "portal response carries no uri"@,
                Some(uri) => match crate::text::without_prefix(uri@, "file://"@) {
                    Some(path) => r matches Ok(decoded) && decoded@ == crate::text::lossy(
                        unescaped(vstd::utf8::encode_utf8(path), 0),
                    ),
                    None => r matches Err(message) && message@ == "unexpected portal uri "@ + uri@,
                },
            }
        },
{
    if code != 0 {
        let mut message: String = joined(
            "portal screenshot denied or cancelled (code ",
            decimal_string(code as u128).as_str(),
        );
        message.append(")");
        return Err(message);
    }
    match uri {
        None => Err("portal response carries no uri".to_owned()),
        Some(uri) => match strip_prefix(uri, "file://") {
            Some(path) => Ok(percent_decode(path.as_str())),
            None => Err(joined("unexpected portal uri ", uri)),
        },
    }
}

/// A byte that is escaped is the number of its two digits in base sixteen, in either case.
pub proof fn lemma_hex_pair(high: u8, low: u8)
    ensures
        hex_value(high) is Some && hex_value(low) is Some ==> hex_pair(high, low) == Some(
            (16 * hex_value(high)->Some_0 + hex_value(low)->Some_0) as u8,
        ),
        hex_value(low) is None ==> hex_pair(high, low) is None,
        hex_value(high) is Some <==> 0x30 <= high <= 0x39 || 0x41 <= high <= 0x46 || 0x61 <= high
            <= 0x66,
        0x61 <= high <= 0x66 ==> hex_value(high) == hex_value((high - 0x20) as u8),
        0x30 <= high < 0x39 || 0x41 <= high < 0x46 ==> hex_value((high + 1) as u8) == Some(
            hex_value(high)->Some_0 + 1,
        ),
        hex_value(0x30) == Some(0int) && hex_value(0x39) == Some(9int) && hex_value(0x41) == Some(
            10int,
        ),
{
}

/// A path without a percent sign is what it says.
pub proof fn lemma_plain_unescaped(bytes: Seq<u8>, at: int)
    requires
        0 <= at <= bytes.len(),
        forall|i: int| 0 <= i < bytes.len() ==> #[trigger] bytes[i] != 0x25,
    ensures
        unescaped(bytes, at) == bytes.skip(at),
    decreases bytes.len() - at,
{
    if at < bytes.len() {
        lemma_plain_unescaped(bytes, at + 1);
        assert(seq![bytes[at]] + bytes.skip(at + 1) =~= bytes.skip(at));
    } else {
        assert(bytes.skip(at) =~= Seq::<u8>::empty());
    }
}

/// A request is known by the sender and by the token that was made for the process.
pub proof fn lemma_request(unique_name: &str, pid: u32, token: String, path: String)
    requires
        call_ensures(request_token, (pid,), token),
        call_ensures(request_path, (unique_name, pid), path),
    ensures
        crate::text::has_suffix(path@, "/"@ + token@),
        crate::text::without_prefix(path@, "/org/freedesktop/portal/desktop/request/"@) is Some,
        forall|i: int|
            0 <= i < sender_of(unique_name@).len() ==> #[trigger] sender_of(unique_name@)[i] != '.',
        sender_of(unique_name@).len() == crate::text::without_leading(unique_name@, ':').len(),
        forall|i: int|
            0 <= i < sender_of(unique_name@).len() && crate::text::without_leading(
                unique_name@,
                ':',
            )[i] != '.' ==> #[trigger] sender_of(unique_name@)[i] == crate::text::without_leading(
                unique_name@,
                ':',
            )[i],
        path@.len() == 40 + sender_of(unique_name@).len() + 1 + token@.len(),
{
    reveal_strlit("/org/freedesktop/portal/desktop/request/");
    reveal_strlit("/");
    let tail = "/"@ + token@;
    assert(path@.skip(path@.len() - tail.len()) =~= tail);
    assert(path@.take(40) =~= "/org/freedesktop/portal/desktop/request/"@);
}

/// The portal's answer is a path only where it allowed the picture and told a file.
pub proof fn lemma_answered(code: u32, uri: Option<&str>, path: Result<String, String>)
    requires
        code == 0 ==> (uri matches Some(uri) ==> is_readable(uri@)),
        call_ensures(answered_path, (code, uri), path),
    ensures
        path is Ok <==> code == 0 && uri is Some && crate::text::without_prefix(
            uri->Some_0@,
            "file://"@,
        ) is Some,
        path matches Ok(path) ==> path@ == crate::text::lossy(
            unescaped(
                vstd::utf8::encode_utf8(
                    crate::text::without_prefix(uri->Some_0@, "file://"@)->Some_0,
                ),
                0,
            ),
        ),
{
}

/// A sender's name has an underscore for each of its dots.
pub proof fn lemma_sender(name: Seq<char>, i: int)
    requires
        0 <= i < name.len(),
        name[0] != ':',
    ensures
        sender_of(name).len() == name.len(),
        name[i] == '.' ==> sender_of(name)[i] == '_',
        name[i] != '.' ==> sender_of(name)[i] == name[i],
        sender_of(seq![':'] + name) == sender_of(name),
{
    reveal_with_fuel(crate::text::without_leading, 2);
    assert((seq![':'] + name).skip(1) =~= name);
}

} // verus!
