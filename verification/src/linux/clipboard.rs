//! What is put on the clipboard.
use vstd::prelude::*;
use vstd::string::StringExecFns;

use crate::cli::Backend;
use crate::text::push;

verus! {

/// A byte that stands for itself in a file's address.
pub open spec fn is_plain(byte: u8) -> bool {
    ||| 0x30 <= byte <= 0x39
    ||| 0x41 <= byte <= 0x5a
    ||| 0x61 <= byte <= 0x7a
    ||| byte == 0x2d
    ||| byte == 0x2e
    ||| byte == 0x5f
    ||| byte == 0x7e
    ||| byte == 0x2f
}

/// The hexadecimal digit of `value`.
pub open spec fn hex_digit(value: int) -> char {
    if value < 10 {
        (0x30 + value) as char
    } else {
        (0x41 + value - 10) as char
    }
}

/// How a byte is written in a file's address.
pub open spec fn escaped_byte(byte: u8) -> Seq<char> {
    if is_plain(byte) {
        seq![byte as char]
    } else {
        seq!['%', hex_digit(byte as int / 16), hex_digit(byte as int % 16)]
    }
}

/// How bytes are written in a file's address.
pub open spec fn escaped(bytes: Seq<u8>) -> Seq<char>
    decreases bytes.len(),
{
    if bytes.len() == 0 {
        Seq::empty()
    } else {
        escaped(bytes.drop_last()) + escaped_byte(bytes.last())
    }
}

/// The hexadecimal digit of `value`.
fn hex(value: u8) -> (r: char)
    requires
        value < 16,
    ensures
        r == hex_digit(value as int),
{
    if value < 10 {
        (0x30 + value) as char
    } else {
        (0x41 + (value - 10)) as char
    }
}

/// `byte` stands for itself in a file's address.
fn plain(byte: u8) -> (r: bool)
    ensures
        r == is_plain(byte),
{
    (0x30 <= byte && byte <= 0x39) || (0x41 <= byte && byte <= 0x5a) || (0x61 <= byte && byte <= 0x7a)
        || byte == 0x2d || byte == 0x2e || byte == 0x5f || byte == 0x7e || byte == 0x2f
}

/// The list with the address of the file at `path`, a path from the root on.
pub fn uri_list_for(path: &[u8]) -> (r: String)
    ensures
        r@ == "file://"@ + escaped(path@) + "\r\n"@,
{
    let mut uri: String = "file://".to_owned();
    let mut i: usize = 0;
    while i < path.len()
        invariant
            i <= path.len(),
            uri@ == "file://"@ + escaped(path@.take(i as int)),
        decreases path.len() - i,
    {
        let byte: u8 = path[i];
        let ghost before = uri@;
        proof {
            assert(path@.take(i + 1).drop_last() =~= path@.take(i as int));
            assert(path@.take(i + 1).last() == byte);
        }
        if plain(byte) {
            push(&mut uri, byte as char);
        } else {
            push(&mut uri, '%');
            push(&mut uri, hex(byte / 16));
            push(&mut uri, hex(byte % 16));
        }
        proof {
            assert(uri@ =~= before + escaped_byte(byte));
            assert("file://"@ + escaped(path@.take(i + 1)) =~= before + escaped_byte(byte));
        }
        i = i + 1;
    }
    proof {
        assert(path@.take(i as int) =~= path@);
    }
    uri.append("\r\n");
    uri
}

/// How an image gets onto the clipboard.
#[derive(Clone, Copy, Debug, PartialEq, Eq, Structural)]
pub enum ClipboardRoute {
    /// A process of its own serves the image, so that the command can end.
    Serve,
    /// The image is handed to the X server's selection.
    Hand,
}

/// How an image gets onto the clipboard with a backend that was resolved.
pub fn clipboard_route(backend: Backend) -> (r: Result<ClipboardRoute, String>)
    requires
        backend != Backend::Auto,
    ensures
        match backend {
            Backend::Wayland => r == Ok::<ClipboardRoute, String>(ClipboardRoute::Serve),
            Backend::X11 => r == Ok::<ClipboardRoute, String>(ClipboardRoute::Hand),
            _ => r matches Err(message) && message@ == "Windows clipboard is unavailable on Linux"@,
        },
{
    match backend {
        Backend::Wayland => Ok(ClipboardRoute::Serve),
        Backend::X11 => Ok(ClipboardRoute::Hand),
        _ => Err("Windows clipboard is unavailable on Linux".to_owned()),
    }
}

/// The value of a digit in base sixteen.
pub open spec fn hex_value(digit: char) -> int {
    if '0' <= digit <= '9' {
        digit as int - '0' as int
    } else {
        digit as int - 'A' as int + 10
    }
}

/// A byte is told by itself where it is a letter, a digit or one of `-._~/`; any other is a percent
/// sign and the two digits in base sixteen that give it.
pub proof fn lemma_escaped_byte(byte: u8)
    ensures
        escaped_byte(byte).len() == 1 <==> {
            ||| 'a' <= byte as char <= 'z'
            ||| 'A' <= byte as char <= 'Z'
            ||| '0' <= byte as char <= '9'
            ||| "-._~/"@.contains(byte as char)
        },
        escaped_byte(byte).len() == 1 ==> escaped_byte(byte)[0] as int == byte,
        escaped_byte(byte).len() != 1 ==> escaped_byte(byte).len() == 3 && escaped_byte(byte)[0]
            == '%' && 16 * hex_value(escaped_byte(byte)[1]) + hex_value(escaped_byte(byte)[2])
            == byte && (forall|i: int|
            1 <= i < 3 ==> '0' <= #[trigger] escaped_byte(byte)[i] <= '9' || 'A' <= escaped_byte(
                byte,
            )[i] <= 'F'),
{
    reveal_strlit("-._~/");
    let marks = "-._~/"@;
    assert(marks.len() == 5);
    assert(marks[0] == '-' && marks[1] == '.' && marks[2] == '_' && marks[3] == '~' && marks[4]
        == '/');
    let c = byte as char;
    assert(marks.contains(c) <==> c == '-' || c == '.' || c == '_' || c == '~' || c == '/') by {
        if c == '-' || c == '.' || c == '_' || c == '~' || c == '/' {
            assert(marks.contains(marks[0]));
            assert(marks.contains(marks[1]));
            assert(marks.contains(marks[2]));
            assert(marks.contains(marks[3]));
            assert(marks.contains(marks[4]));
        }
    }
}

/// Bytes are told one behind the other.
pub proof fn lemma_escaped_parts(first: Seq<u8>, second: Seq<u8>)
    ensures
        escaped(first + second) == escaped(first) + escaped(second),
        escaped(seq![]) == Seq::<char>::empty(),
        first.len() == 1 ==> escaped(first) == escaped_byte(first[0]),
    decreases second.len(),
{
    reveal_with_fuel(escaped, 2);
    if first.len() == 1 {
        assert(first.drop_last() =~= Seq::empty());
        assert(escaped(first) =~= escaped_byte(first[0]));
    }
    if second.len() == 0 {
        assert(first + second =~= first);
        assert(escaped(first) + escaped(second) =~= escaped(first));
    } else {
        assert((first + second).drop_last() =~= first + second.drop_last());
        lemma_escaped_parts(first, second.drop_last());
        assert(escaped(first + second) =~= escaped(first) + escaped(second));
    }
}

/// A list of one file is its path behind `file://`, and one line.
pub proof fn lemma_uri_list(path: &[u8], list: String)
    requires
        call_ensures(uri_list_for, (path,), list),
    ensures
        list@ == "file://"@ + escaped(path@) + "\r\n"@,
{
}

/// The clipboard is served on Wayland and handed over on X11; Windows' is not to be had.
pub proof fn lemma_route(backend: Backend, route: Result<ClipboardRoute, String>)
    requires
        backend != Backend::Auto,
        call_ensures(clipboard_route, (backend,), route),
    ensures
        route == Ok::<ClipboardRoute, String>(ClipboardRoute::Serve) <==> backend
            == Backend::Wayland,
        route == Ok::<ClipboardRoute, String>(ClipboardRoute::Hand) <==> backend == Backend::X11,
        route is Err <==> backend != Backend::Wayland && backend != Backend::X11,
{
}

} // verus!
