//! Questions to Hyprland over its socket.
use vstd::prelude::*;

use crate::document::{Document, DocumentView};
use crate::paths::{join, Environment};
use crate::text::joined;

verus! {

/// Where Hyprland listens, where it runs.
pub open spec fn hypr_socket(environment: &Environment) -> Option<Seq<char>> {
    match (
        environment.value("XDG_RUNTIME_DIR"@),
        environment.value("HYPRLAND_INSTANCE_SIGNATURE"@),
    ) {
        (Some(dir), Some(instance)) => Some(
            crate::paths::joined(
                crate::paths::joined(crate::paths::joined(dir, "hypr"@), instance),
                ".socket.sock"@,
            ),
        ),
        _ => None,
    }
}

/// Where Hyprland listens, where it runs.
pub fn socket_path(environment: &Environment) -> (r: Option<String>)
    ensures
        hypr_socket(environment) == crate::text::view_of(r),
{
    match (
        environment.var("XDG_RUNTIME_DIR"),
        environment.var("HYPRLAND_INSTANCE_SIGNATURE"),
    ) {
        (Some(dir), Some(instance)) => Some(
            join(join(join(dir, "hypr").as_str(), instance).as_str(), ".socket.sock"),
        ),
        _ => None,
    }
}

/// The question that asks for a command's answer as JSON.
pub fn json_request(command: &str) -> (r: String)
    ensures
        r@ == "j/"@ + command@,
{
    joined("j/", command)
}

/// The answer to a question: that of the socket, or where it has none, what `hyprctl` printed when
/// it ended well. Off Hyprland there is no answer.
pub fn json(
    running: bool,
    reply: Option<Vec<u8>>,
    printed: Option<(bool, Vec<u8>)>,
) -> (r: Option<Vec<u8>>)
    ensures
        r == (if !running {
            None
        } else if (reply matches Some(bytes) && bytes@.len() > 0) {
            reply
        } else {
            match printed {
                Some((true, bytes)) => Some(bytes),
                _ => None,
            }
        }),
{
    if !running {
        return None;
    }
    match reply {
        Some(bytes) => {
            if bytes.len() > 0 {
                return Some(bytes);
            }
        },
        None => {},
    }
    match printed {
        Some((success, bytes)) => if success {
            Some(bytes)
        } else {
            None
        },
        None => None,
    }
}

/// The place of the first focused output from `at` on: the length where there is none.
pub open spec fn focused_from(outputs: Seq<DocumentView>, at: int) -> int
    decreases outputs.len() - at,
{
    if at < 0 || at >= outputs.len() || outputs[at].bool_at("focused"@) == Some(true) {
        at
    } else {
        focused_from(outputs, at + 1)
    }
}

/// The name of the focused output, given what Hyprland says of its outputs.
pub fn focused_name(answer: &Document) -> (r: Option<String>)
    ensures
        crate::text::view_of(r) == (match answer@ {
            DocumentView::Array(outputs) => {
                let at = focused_from(outputs, 0);
                if at < outputs.len() {
                    outputs[at].text_at("name"@)
                } else {
                    None
                }
            },
            _ => None,
        }),
{
    match answer {
        Document::Array(outputs) => {
            let ghost all = crate::document::item_views(outputs@);
            proof {
                crate::document::lemma_item_views(outputs@);
            }
            let mut at: usize = 0;
            while at < outputs.len()
                invariant
                    at <= outputs.len(),
                    all == crate::document::item_views(outputs@),
                    all.len() == outputs.len(),
                    answer@ == DocumentView::Array(all),
                    forall|i: int| 0 <= i < outputs@.len() ==> #[trigger] all[i] == outputs@[i].view(),
                    focused_from(all, 0) == focused_from(all, at as int),
                decreases outputs.len() - at,
            {
                assert(all[at as int] == outputs@[at as int].view());
                match outputs[at].bool_at("focused") {
                    Some(true) => {
                        return match outputs[at].text_at("name") {
                            Some(name) => Some(name.to_owned()),
                            None => None,
                        };
                    },
                    _ => {},
                }
                at = at + 1;
            }
            None
        },
        _ => None,
    }
}

/// The compositor is reached in the directory of the instance that runs, where both that and the
/// directory for sockets are told.
pub proof fn lemma_socket(environment: &Environment, path: Option<String>)
    requires
        call_ensures(socket_path, (environment,), path),
    ensures
        path is Some <==> environment.value("XDG_RUNTIME_DIR"@) is Some && environment.value(
            "HYPRLAND_INSTANCE_SIGNATURE"@,
        ) is Some,
        path matches Some(path) ==> path@ == crate::paths::joined(
            crate::paths::joined(
                crate::paths::joined(environment.value("XDG_RUNTIME_DIR"@)->Some_0, "hypr"@),
                environment.value("HYPRLAND_INSTANCE_SIGNATURE"@)->Some_0,
            ),
            ".socket.sock"@,
        ),
{
}

/// What the compositor tells: its reply where there is one that is not empty, or else what its
/// command printed where that succeeded; nothing where it does not run.
pub proof fn lemma_told(
    running: bool,
    reply: Option<Vec<u8>>,
    printed: Option<(bool, Vec<u8>)>,
    told: Option<Vec<u8>>,
)
    requires
        call_ensures(json, (running, reply, printed), told),
    ensures
        !running ==> told is None,
        running && reply is Some && reply->Some_0@.len() > 0 ==> told == reply,
        running && !(reply is Some && reply->Some_0@.len() > 0) ==> {
            &&& told is Some <==> printed is Some && printed->Some_0.0
            &&& told is Some ==> told->Some_0 == printed->Some_0.1
        },
{
}

/// The first focused output from `at` on.
pub proof fn lemma_focused(outputs: Seq<DocumentView>, at: int)
    requires
        0 <= at <= outputs.len(),
    ensures
        at <= focused_from(outputs, at) <= outputs.len(),
        focused_from(outputs, at) < outputs.len() ==> outputs[focused_from(outputs, at)].field(
            "focused"@,
        ) == Some(DocumentView::Bool(true)),
        forall|i: int|
            at <= i < focused_from(outputs, at) ==> (#[trigger] outputs[i]).field("focused"@)
                != Some(DocumentView::Bool(true)),
    decreases outputs.len() - at,
{
    if at < outputs.len() {
        lemma_focused(outputs, at + 1);
    }
}

/// The focused output's name is the name of an output that is focused, the first such one.
pub proof fn lemma_focused_name(answer: &Document, outputs: Seq<DocumentView>, i: int, name: Option<String>)
    requires
        call_ensures(focused_name, (answer,), name),
        answer@ == DocumentView::Array(outputs),
        0 <= i < outputs.len(),
        outputs[i].field("focused"@) == Some(DocumentView::Bool(true)),
        forall|k: int|
            0 <= k < i ==> (#[trigger] outputs[k]).field("focused"@) != Some(
                DocumentView::Bool(true),
            ),
    ensures
        name is Some <==> outputs[i].field("name"@) is Some && outputs[i].field("name"@)->Some_0
            is Text,
        name matches Some(name) ==> outputs[i].field("name"@) == Some(DocumentView::Text(name@)),
{
    lemma_focused(outputs, 0);
    let at = focused_from(outputs, 0);
    if at < i {
        assert(outputs[at].field("focused"@) != Some(DocumentView::Bool(true)));
    } else if i < at {
        assert(outputs[i].field("focused"@) != Some(DocumentView::Bool(true)));
    }
}

} // verus!
