//! Programs that are run for the replay.
use vstd::prelude::*;

verus! {

/// How much a program that is asked may print.
pub const ANSWER_LIMIT: usize = 65_536;

/// How many milliseconds a program has to end after it was asked to.
pub const PATIENCE: u64 = 2000;

/// What a program printed, where that is not too much.
pub fn bounded(printed: Vec<u8>, limit: usize) -> (r: Result<Vec<u8>, String>)
    ensures
        if printed@.len() > limit {
            r matches Err(message) && message@ == "media process output exceeds its limit"@
        } else {
            r == Ok::<Vec<u8>, String>(printed)
        },
{
    if printed.len() > limit {
        Err("media process output exceeds its limit".to_owned())
    } else {
        Ok(printed)
    }
}

/// What a look at a program that runs shows.
pub enum Seen {
    Ended,
    Running,
    Unknown(String),
}

/// What follows from a look at a program that runs.
pub enum Next {
    Ended,
    LookAgain,
    /// It is to be ended, and this is why.
    Terminate(String),
}

/// What follows from a look at a program that has run for `elapsed` milliseconds.
pub fn watch(seen: Seen, elapsed: u64, timeout: u64) -> (r: Next)
    ensures
        match seen {
            Seen::Ended => r is Ended,
            Seen::Running => if elapsed < timeout {
                r is LookAgain
            } else {
                r matches Next::Terminate(message) && message@
                    == "media capability probe timed out"@
            },
            Seen::Unknown(message) => r == Next::Terminate(message),
        },
{
    match seen {
        Seen::Ended => Next::Ended,
        Seen::Running => if elapsed < timeout {
            Next::LookAgain
        } else {
            Next::Terminate("media capability probe timed out".to_owned())
        },
        Seen::Unknown(message) => Next::Terminate(message),
    }
}

/// What is done next to end a program.
#[derive(Clone, Copy, Debug, PartialEq, Eq, Structural)]
pub enum Ending {
    /// Nothing: it is not running, or nothing is known of it.
    Over,
    /// It is asked to end.
    Ask,
    /// It is looked at again.
    Wait,
    /// It is killed.
    Kill,
}

/// What is done next to end a program; `asked` says how many milliseconds ago it was asked to.
pub fn terminate(running: bool, asked: Option<u64>) -> (r: Ending)
    ensures
        r == (if !running {
            Ending::Over
        } else {
            match asked {
                None => Ending::Ask,
                Some(elapsed) => if elapsed < PATIENCE {
                    Ending::Wait
                } else {
                    Ending::Kill
                },
            }
        }),
{
    if !running {
        return Ending::Over;
    }
    match asked {
        None => Ending::Ask,
        Some(elapsed) => if elapsed < PATIENCE {
            Ending::Wait
        } else {
            Ending::Kill
        },
    }
}

/// What a program that ended printed and said. What it printed counts only where it ended by
/// itself.
pub fn finished(
    ended: Result<bool, String>,
    printed: Result<Vec<u8>, String>,
    errors: Result<Vec<u8>, String>,
) -> (r: Result<(bool, Vec<u8>, Vec<u8>), String>)
    ensures
        match (ended, printed, errors) {
            (Err(message), _, _) => r matches Err(error) && error == message,
            (Ok(_), Err(message), _) => r matches Err(error) && error == message,
            (Ok(_), Ok(_), Err(message)) => r matches Err(error) && error == message,
            (Ok(success), Ok(printed), Ok(errors)) => r matches Ok((s, p, e)) && s == success && p
                == printed && e == errors,
        },
{
    let success = match ended {
        Err(message) => {
            return Err(message);
        },
        Ok(success) => success,
    };
    let printed = match printed {
        Err(message) => {
            return Err(message);
        },
        Ok(printed) => printed,
    };
    match errors {
        Err(message) => Err(message),
        Ok(errors) => Ok((success, printed, errors)),
    }
}

/// What a process prints is taken up to its limit and refused beyond.
pub proof fn lemma_bounded(printed: Vec<u8>, limit: usize, r: Result<Vec<u8>, String>)
    requires
        call_ensures(bounded, (printed, limit), r),
    ensures
        r is Ok <==> printed@.len() <= limit,
        r matches Ok(bytes) ==> bytes == printed,
{
}

/// A process is looked at again while it runs and its time is not over, and terminated otherwise.
pub proof fn lemma_watched(seen: Seen, elapsed: u64, timeout: u64, next: Next)
    requires
        call_ensures(watch, (seen, elapsed, timeout), next),
    ensures
        next is Ended <==> seen is Ended,
        next is LookAgain <==> seen is Running && elapsed < timeout,
        seen matches Seen::Unknown(message) ==> next == Next::Terminate(message),
{
}

/// A process that runs is asked to end, waited for two seconds, and killed.
pub proof fn lemma_terminated(running: bool, asked: Option<u64>, ending: Ending)
    requires
        call_ensures(terminate, (running, asked), ending),
    ensures
        ending == Ending::Over <==> !running,
        ending == Ending::Ask <==> running && asked is None,
        ending == Ending::Wait <==> running && asked is Some && asked->Some_0 < 2000,
        ending == Ending::Kill <==> running && asked is Some && asked->Some_0 >= 2000,
{
}

/// A process that ended is told with what it printed and with its errors, which are not mixed up;
/// the first failure of these is told alone.
pub proof fn lemma_finished(
    ended: Result<bool, String>,
    printed: Result<Vec<u8>, String>,
    errors: Result<Vec<u8>, String>,
    r: Result<(bool, Vec<u8>, Vec<u8>), String>,
)
    requires
        call_ensures(finished, (ended, printed, errors), r),
    ensures
        r is Ok <==> ended is Ok && printed is Ok && errors is Ok,
        r matches Ok(all) ==> ended == Ok::<bool, String>(all.0) && printed == Ok::<
            Vec<u8>,
            String,
        >(all.1) && errors == Ok::<Vec<u8>, String>(all.2),
        ended matches Err(message) ==> r->Err_0 == message,
        ended is Ok ==> (printed matches Err(message) ==> r->Err_0 == message),
{
}

} // verus!
