//! The connection to the shelf's daemon.
use vstd::prelude::*;

use crate::paths::{join, Environment};
use crate::protocol::{ErrorKind, WireError, WireErrorView};
use crate::text::push_word;

verus! {

/// Where the daemon listens.
pub open spec fn socket_of(environment: &Environment) -> Seq<char> {
    match environment.value("XDG_RUNTIME_DIR"@) {
        Some(dir) if dir.len() > 0 => crate::paths::joined(dir, "boltsnap.sock"@),
        _ => crate::paths::joined(environment.temp_dir@, "boltsnap.sock"@),
    }
}

/// Where the daemon listens.
pub fn socket_path(environment: &Environment) -> (r: String)
    ensures
        r@ == socket_of(environment),
{
    match environment.var("XDG_RUNTIME_DIR") {
        Some(dir) => {
            if dir.unicode_len() > 0 {
                return join(dir, "boltsnap.sock");
            }
        },
        None => {},
    }
    join(environment.temp_dir.as_str(), "boltsnap.sock")
}

/// The words that ask the user's service manager to start the daemon.
pub fn systemd_start_args() -> (r: Vec<String>)
    ensures
        crate::text::views(r@) == seq![
            "--user"@,
            "start"@,
            "--no-block"@,
            "boltsnap-daemon.service"@,
        ],
{
    let mut words: Vec<String> = Vec::new();
    push_word(&mut words, "--user");
    push_word(&mut words, "start");
    push_word(&mut words, "--no-block");
    push_word(&mut words, "boltsnap-daemon.service");
    proof {
        assert(crate::text::views(words@) =~= seq![
            "--user"@,
            "start"@,
            "--no-block"@,
            "boltsnap-daemon.service"@,
        ]);
    }
    words
}

/// How often a daemon that was started is tried, ten milliseconds apart.
pub const DAEMON_ATTEMPTS: u32 = 100;

/// How far the connection has come.
#[derive(Clone, Copy, Debug, PartialEq, Eq, Structural)]
pub enum Reaching {
    /// The daemon is tried as it is.
    First,
    /// The service manager is asked to start it.
    Service,
    /// It is started by hand.
    Spawn,
    /// It is tried again, after so many tries.
    Again(u32),
    Connected,
    TimedOut,
}

/// How far the connection has come after a step, which succeeded or not.
pub open spec fn reached(at: Reaching, success: bool) -> Reaching {
    match at {
        Reaching::First => if success {
            Reaching::Connected
        } else {
            Reaching::Service
        },
        Reaching::Service => if success {
            Reaching::Again(0)
        } else {
            Reaching::Spawn
        },
        Reaching::Spawn => Reaching::Again(0),
        Reaching::Again(tries) => if success {
            Reaching::Connected
        } else if tries + 1 < DAEMON_ATTEMPTS {
            Reaching::Again((tries + 1) as u32)
        } else {
            Reaching::TimedOut
        },
        end => end,
    }
}

/// How far the connection has come after a step. A daemon that cannot even be started by hand ends
/// it with that error, so that this step counts only where it succeeded.
pub fn ensure_daemon(at: Reaching, success: bool) -> (r: Reaching)
    requires
        at matches Reaching::Again(tries) ==> tries < DAEMON_ATTEMPTS,
    ensures
        r == reached(at, success),
        r matches Reaching::Again(tries) ==> tries < DAEMON_ATTEMPTS,
{
    match at {
        Reaching::First => if success {
            Reaching::Connected
        } else {
            Reaching::Service
        },
        Reaching::Service => if success {
            Reaching::Again(0)
        } else {
            Reaching::Spawn
        },
        Reaching::Spawn => Reaching::Again(0),
        Reaching::Again(tries) => if success {
            Reaching::Connected
        } else if tries + 1 < DAEMON_ATTEMPTS {
            Reaching::Again(tries + 1)
        } else {
            Reaching::TimedOut
        },
        end => end,
    }
}

/// How many steps are left at most.
pub open spec fn steps_left(at: Reaching) -> int {
    match at {
        Reaching::First => DAEMON_ATTEMPTS + 3,
        Reaching::Service => DAEMON_ATTEMPTS + 2,
        Reaching::Spawn => DAEMON_ATTEMPTS + 1,
        Reaching::Again(tries) => DAEMON_ATTEMPTS - tries,
        _ => 0,
    }
}

/// Every step brings the connection closer to its end, whatever comes of the step.
pub proof fn lemma_connection_ends(at: Reaching, success: bool)
    requires
        at matches Reaching::Again(tries) ==> tries < DAEMON_ATTEMPTS,
        at !is Connected,
        at !is TimedOut,
    ensures
        0 <= steps_left(reached(at, success)) < steps_left(at),
{
}

/// What is said where the daemon cannot be reached.
pub fn unreachable_daemon() -> (r: WireError)
    ensures
        r@ == (WireErrorView { kind: ErrorKind::TimedOut, message: "daemon did not start"@ }),
{
    WireError { kind: ErrorKind::TimedOut, message: "daemon did not start".to_owned() }
}

/// The socket is in the directory for sockets, where one is set to something, or else among the
/// temporary files.
pub proof fn lemma_socket(environment: &Environment, path: String)
    requires
        call_ensures(socket_path, (environment,), path),
    ensures
        environment.value("XDG_RUNTIME_DIR"@) matches Some(dir) ==> (dir.len() > 0 ==> path@
            == crate::paths::joined(dir, "boltsnap.sock"@)),
        environment.value("XDG_RUNTIME_DIR"@) is None || environment.value(
            "XDG_RUNTIME_DIR"@,
        )->Some_0.len() == 0 ==> path@ == crate::paths::joined(
            environment.temp_dir@,
            "boltsnap.sock"@,
        ),
{
}

/// The daemon is reached exactly where a try to connect succeeds, and given up exactly where the
/// last of a hundred tries fails; it is spawned only where its service cannot be started.
pub proof fn lemma_reached(at: Reaching, success: bool, next: Reaching)
    requires
        at matches Reaching::Again(tries) ==> tries < DAEMON_ATTEMPTS,
        at !is Connected,
        at !is TimedOut,
        call_ensures(ensure_daemon, (at, success), next),
    ensures
        next is Connected <==> success && (at is First || at is Again),
        next is TimedOut <==> !success && at == Reaching::Again(99),
        next is Service <==> at is First && !success,
        next is Spawn <==> at is Service && !success,
        next == Reaching::Again(0) <==> at is Spawn || (at is Service && success),
        at matches Reaching::Again(tries) ==> (!success && tries < 99 ==> next == Reaching::Again(
            (tries + 1) as u32,
        )),
        next !is First,
{
}

} // verus!
