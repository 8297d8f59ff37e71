//! The clipboard of Windows.
use vstd::prelude::*;

use crate::text::joined;

verus! {

/// The length of the header before the names of files.
pub const HEADER: usize = 20;

/// The two bytes of a unit, the lower first.
pub open spec fn unit_bytes(unit: u16) -> Seq<u8> {
    seq![(unit % 256) as u8, (unit / 256) as u8]
}

/// The bytes of units.
pub open spec fn wide_bytes(units: Seq<u16>) -> Seq<u8>
    decreases units.len(),
{
    if units.len() == 0 {
        Seq::empty()
    } else {
        wide_bytes(units.drop_last()) + unit_bytes(units.last())
    }
}

/// The header before the names of files: where they begin, a place that is not used, and that they
/// are wide.
pub open spec fn drop_header() -> Seq<u8> {
    seq![20u8, 0, 0, 0, 0, 0, 0, 0, 0, 0, 0, 0, 0, 0, 0, 0, 1, 0, 0, 0]
}

/// What is put on the clipboard for a file whose path has the given units: the list ends with an
/// empty name.
pub fn drop_files(path: &Vec<u16>) -> (r: Vec<u8>)
    ensures
        r@ == drop_header() + wide_bytes(path@) + seq![0u8, 0, 0, 0],
{
    let mut bytes: Vec<u8> = Vec::new();
    bytes.push(20);
    let mut i: usize = 1;
    while i < 16
        invariant
            1 <= i <= 16,
            bytes@ == drop_header().take(i as int),
        decreases 16 - i,
    {
        bytes.push(0);
        proof {
            assert(bytes@ =~= drop_header().take(i + 1));
        }
        i = i + 1;
    }
    bytes.push(1);
    bytes.push(0);
    bytes.push(0);
    bytes.push(0);
    proof {
        assert(bytes@ =~= drop_header());
        assert(path@.take(0) =~= Seq::empty());
        assert(bytes@ =~= drop_header() + wide_bytes(path@.take(0)));
    }
    let mut at: usize = 0;
    while at < path.len()
        invariant
            at <= path.len(),
            bytes@ == drop_header() + wide_bytes(path@.take(at as int)),
        decreases path.len() - at,
    {
        let unit: u16 = path[at];
        let ghost before = bytes@;
        bytes.push((unit % 256) as u8);
        bytes.push((unit / 256) as u8);
        proof {
            assert(path@.take(at + 1).drop_last() =~= path@.take(at as int));
            assert(path@.take(at + 1).last() == unit);
            assert(bytes@ =~= drop_header() + wide_bytes(path@.take(at + 1)));
        }
        at = at + 1;
    }
    proof {
        assert(path@.take(at as int) =~= path@);
    }
    let ghost named = bytes@;
    bytes.push(0);
    bytes.push(0);
    bytes.push(0);
    bytes.push(0);
    proof {
        assert(bytes@ =~= named + seq![0u8, 0, 0, 0]);
    }
    bytes
}

/// How often the clipboard is tried, ten milliseconds apart.
pub const OPEN_ATTEMPTS: u32 = 10;

/// Whether the clipboard was opened: `None` where it is tried again. `tries` is the number of tries
/// that failed before this one.
pub fn opened(tries: u32, success: bool) -> (r: Option<Result<(), String>>)
    requires
        tries < OPEN_ATTEMPTS,
    ensures
        if success {
            r matches Some(Ok(_))
        } else if tries + 1 < OPEN_ATTEMPTS {
            r is None
        } else {
            r matches Some(Err(message)) && message@
                == "open Windows clipboard for file reference failed"@
        },
{
    if success {
        Some(Ok(()))
    } else if tries + 1 < OPEN_ATTEMPTS {
        None
    } else {
        Some(Err("open Windows clipboard for file reference failed".to_owned()))
    }
}

/// What came of the clipboard that was opened: it is emptied and then filled.
pub fn filled(emptied: Result<(), String>, set: Result<(), String>) -> (r: Result<(), String>)
    ensures
        match emptied {
            Err(error) => r matches Err(message) && message@ == "empty Windows clipboard: "@
                + error@,
            Ok(_) => match set {
                Err(error) => r matches Err(message) && message@
                    == "set Windows file clipboard: "@ + error@,
                Ok(_) => r is Ok,
            },
        },
{
    match emptied {
        Err(error) => Err(joined("empty Windows clipboard: ", error.as_str())),
        Ok(_) => match set {
            Err(error) => Err(joined("set Windows file clipboard: ", error.as_str())),
            Ok(_) => Ok(()),
        },
    }
}

/// What is said to those who want the helper of another system.
pub fn serve_wayland_clipboard() -> (r: Result<(), String>)
    ensures
        r matches Err(message) && message@
            == "the Wayland clipboard helper is unavailable on Windows"@,
{
    Err("the Wayland clipboard helper is unavailable on Windows".to_owned())
}

/// What is said to those who want the helper of another system.
pub fn serve_wayland_uri_list() -> (r: Result<(), String>)
    ensures
        r matches Err(message) && message@ == "the Wayland URI helper is unavailable on Windows"@,
{
    Err("the Wayland URI helper is unavailable on Windows".to_owned())
}

/// Characters of a path are two bytes each, the lower first, one behind the other.
pub proof fn lemma_wide_bytes(units: Seq<u16>, i: int)
    requires
        0 <= i < units.len(),
    ensures
        wide_bytes(units).len() == 2 * units.len(),
        wide_bytes(units)[2 * i] + 256 * wide_bytes(units)[2 * i + 1] == units[i],
    decreases units.len(),
{
    let shorter = units.drop_last();
    if i < units.len() - 1 {
        lemma_wide_bytes(shorter, i);
    } else if shorter.len() > 0 {
        lemma_wide_bytes(shorter, 0);
    }
    if shorter.len() == 0 {
        assert(wide_bytes(shorter).len() == 0);
    }
}

/// A file on the clipboard is a header that tells where its path begins and that it is wide, the
/// path, and two empty characters.
pub proof fn lemma_drop_files(path: &Vec<u16>, bytes: Vec<u8>)
    requires
        call_ensures(drop_files, (path,), bytes),
    ensures
        bytes@.len() == 24 + 2 * path@.len(),
        bytes@[0] == 20 && bytes@[1] == 0 && bytes@[2] == 0 && bytes@[3] == 0,
        bytes@[16] == 1,
        bytes@.subrange(20, 20 + 2 * path@.len() as int) == wide_bytes(path@),
        bytes@[bytes@.len() - 1] == 0 && bytes@[bytes@.len() - 2] == 0 && bytes@[bytes@.len() - 3]
            == 0 && bytes@[bytes@.len() - 4] == 0,
{
    if path@.len() > 0 {
        lemma_wide_bytes(path@, 0);
    }
    assert(bytes@.subrange(20, 20 + 2 * path@.len() as int) =~= wide_bytes(path@));
}

/// The clipboard is opened where that succeeds, ten tries at most; it is filled where it could be
/// emptied and set.
pub proof fn lemma_filled(
    tries: u32,
    success: bool,
    r: Option<Result<(), String>>,
    emptied: Result<(), String>,
    set: Result<(), String>,
    done: Result<(), String>,
)
    requires
        tries < OPEN_ATTEMPTS,
        call_ensures(opened, (tries, success), r),
        call_ensures(filled, (emptied, set), done),
    ensures
        r is None <==> !success && tries < 9,
        r is Some && r->Some_0 is Ok <==> success,
        done is Ok <==> emptied is Ok && set is Ok,
        emptied matches Err(error) ==> done->Err_0@ == "empty Windows clipboard: "@ + error@,
        emptied is Ok ==> (set matches Err(error) ==> done->Err_0@
            == "set Windows file clipboard: "@ + error@),
{
}

} // verus!
