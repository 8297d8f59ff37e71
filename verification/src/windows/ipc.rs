//! The connection to the shelf's daemon on Windows.
use vstd::prelude::*;
use vstd::string::StringExecFns;

use crate::protocol::{ErrorKind, WireError, WireErrorView};
use crate::text::{ascii_alphanumeric, chars_of, joined, push};

verus! {

/// A character as it stands in the name of a pipe.
pub open spec fn pipe_char(c: char) -> char {
    if crate::windows::paths::is_safe(c) {
        crate::text::lower(c)
    } else {
        '_'
    }
}

/// A text as it stands in the name of a pipe.
pub open spec fn pipe_text(value: Seq<char>) -> Seq<char> {
    Seq::new(value.len(), |i: int| pipe_char(value[i]))
}

/// A text as it stands in the name of a pipe.
pub fn sanitize_pipe_component(value: &str) -> (r: String)
    ensures
        r@ == pipe_text(value@),
{
    let chars = chars_of(value);
    let mut out: String = String::new();
    let mut i: usize = 0;
    while i < chars.len()
        invariant
            chars@ == value@,
            i <= chars.len(),
            out@ == pipe_text(value@).take(i as int),
        decreases chars.len() - i,
    {
        let c: char = chars[i];
        if ascii_alphanumeric(c) || c == '-' || c == '_' {
            if 'A' <= c && c <= 'Z' {
                push(&mut out, (c as u8 + 32) as char);
            } else {
                push(&mut out, c);
            }
        } else {
            push(&mut out, '_');
        }
        proof {
            assert(out@ =~= pipe_text(value@).take(i + 1));
        }
        i = i + 1;
    }
    proof {
        assert(pipe_text(value@).take(i as int) =~= pipe_text(value@));
    }
    out
}

/// The name of a pipe holds only small letters, digits, `-` and `_`.
pub proof fn lemma_pipe_is_safe(value: Seq<char>, i: int)
    requires
        0 <= i < value.len(),
    ensures
        ({
            let c = pipe_text(value)[i];
            'a' <= c <= 'z' || '0' <= c <= '9' || c == '-' || c == '_'
        }),
{
}

/// A text that stands in the name of a pipe stays as it is.
pub proof fn lemma_pipe_twice(value: Seq<char>)
    ensures
        pipe_text(pipe_text(value)) == pipe_text(value),
{
    assert(pipe_text(pipe_text(value)) =~= pipe_text(value));
}

/// Where the daemon of a user listens.
pub open spec fn pipe_of(domain: Option<Seq<char>>, user: Option<Seq<char>>) -> Seq<char> {
    let d = match domain {
        Some(domain) => domain,
        None => Seq::empty(),
    };
    let u = match user {
        Some(user) => user,
        None => "user"@,
    };
    "\\\\.\\pipe\\boltsnap-"@ + pipe_text(d + "-"@ + u)
}

/// Where the daemon of a user listens, given the variables `USERDOMAIN` and `USERNAME`.
pub fn socket_path(domain: Option<&str>, user: Option<&str>) -> (r: String)
    ensures
        r@ == pipe_of(
            match domain {
                Some(domain) => Some(domain@),
                None => None,
            },
            match user {
                Some(user) => Some(user@),
                None => None,
            },
        ),
{
    let mut key: String = match domain {
        Some(domain) => domain.to_owned(),
        None => String::new(),
    };
    let ghost d = match domain {
        Some(domain) => domain@,
        None => Seq::empty(),
    };
    proof {
        assert(key@ =~= d);
    }
    key.append("-");
    match user {
        Some(user) => {
            key.append(user);
        },
        None => {
            key.append("user");
        },
    }
    joined("\\\\.\\pipe\\boltsnap-", sanitize_pipe_component(key.as_str()).as_str())
}

/// What is said to those who want to follow a recording.
pub fn watch_recording() -> (r: WireError)
    ensures
        r@ == (WireErrorView {
            kind: ErrorKind::Unsupported,
            message: "live recording event streaming is not connected on Windows yet"@,
        }),
{
    WireError {
        kind: ErrorKind::Unsupported,
        message: "live recording event streaming is not connected on Windows yet".to_owned(),
    }
}

/// How far the connection has come.
#[derive(Clone, Copy, Debug, PartialEq, Eq, Structural)]
pub enum Reaching {
    /// The daemon is tried as it is.
    First,
    /// It is started.
    Spawn,
    /// It is tried again, after so many tries.
    Again(u32),
    Connected,
    TimedOut,
}

/// How often a daemon that was started is tried, ten milliseconds apart.
pub const DAEMON_ATTEMPTS: u32 = 100;

/// How far the connection has come after a step, which succeeded or not.
pub open spec fn reached(at: Reaching, success: bool) -> Reaching {
    match at {
        Reaching::First => if success {
            Reaching::Connected
        } else {
            Reaching::Spawn
        },
        Reaching::Spawn => Reaching::Again(0),
        Reaching::Again(tries) => if success {
            Reaching::Connected
        } else if tries + 1 < DAEMON_ATTEMPTS {
            Reaching::Again((tries + 1) as u32)
        } else {
            Reaching::TimedOut
        },
        end => end,
    }
}

/// How far the connection has come after a step. A daemon that cannot be started ends it with that
/// error, so that this step counts only where it succeeded.
pub fn ensure_daemon(at: Reaching, success: bool) -> (r: Reaching)
    requires
        at matches Reaching::Again(tries) ==> tries < DAEMON_ATTEMPTS,
    ensures
        r == reached(at, success),
        r matches Reaching::Again(tries) ==> tries < DAEMON_ATTEMPTS,
{
    match at {
        Reaching::First => if success {
            Reaching::Connected
        } else {
            Reaching::Spawn
        },
        Reaching::Spawn => Reaching::Again(0),
        Reaching::Again(tries) => if success {
            Reaching::Connected
        } else if tries + 1 < DAEMON_ATTEMPTS {
            Reaching::Again(tries + 1)
        } else {
            Reaching::TimedOut
        },
        end => end,
    }
}

/// What is said where the daemon cannot be reached.
pub fn unreachable_daemon() -> (r: WireError)
    ensures
        r@ == (WireErrorView {
            kind: ErrorKind::TimedOut,
            message: "Boltsnap daemon did not open its Windows named pipe"@,
        }),
{
    WireError {
        kind: ErrorKind::TimedOut,
        message: "Boltsnap daemon did not open its Windows named pipe".to_owned(),
    }
}

/// The pipe is named for the domain and the user, in that order, in small letters, and anything
/// unsafe in them is an underscore.
pub proof fn lemma_pipe(domain: Option<&str>, user: Option<&str>, path: String)
    requires
        call_ensures(socket_path, (domain, user), path),
    ensures
        domain is Some && user is Some ==> path@ == "\\\\.\\pipe\\boltsnap-"@ + pipe_text(
            domain->Some_0@ + "-"@ + user->Some_0@,
        ),
        domain is None && user is Some ==> path@ == "\\\\.\\pipe\\boltsnap-"@ + pipe_text(
            Seq::empty() + "-"@ + user->Some_0@,
        ),
        domain is None && user is None ==> path@ == "\\\\.\\pipe\\boltsnap-"@ + pipe_text(
            Seq::empty() + "-"@ + "user"@,
        ),
{
}

/// A character of a pipe's name is the character itself in small, where it is safe.
pub proof fn lemma_pipe_char(c: char)
    ensures
        'a' <= c <= 'z' || '0' <= c <= '9' || c == '-' || c == '_' ==> pipe_char(c) == c,
        'A' <= c <= 'Z' ==> pipe_char(c) as int == c as int + 32,
        !('a' <= c <= 'z' || 'A' <= c <= 'Z' || '0' <= c <= '9' || c == '-') ==> pipe_char(c) == '_',
{
}

/// The daemon is reached exactly where a try to connect succeeds, and given up exactly where the
/// last of a hundred tries fails.
pub proof fn lemma_reached(at: Reaching, success: bool, next: Reaching)
    requires
        at matches Reaching::Again(tries) ==> tries < DAEMON_ATTEMPTS,
        at !is Connected,
        at !is TimedOut,
        call_ensures(ensure_daemon, (at, success), next),
    ensures
        next is Connected <==> success && (at is First || at is Again),
        next is TimedOut <==> !success && at == Reaching::Again(99),
        next is Spawn <==> at is First && !success,
        next == Reaching::Again(0) <==> at is Spawn,
        at matches Reaching::Again(tries) ==> (!success && tries < 99 ==> next == Reaching::Again(
            (tries + 1) as u32,
        )),
        next !is First,
{
}

} // verus!
