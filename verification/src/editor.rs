//! The editor for screenshots.
use vstd::prelude::*;
use vstd::string::StringExecFns;

use crate::paths::{join, Environment};
use crate::text::{joined, push_word};

verus! {

/// The words that the editor is started with. It leaves the clipboard alone.
pub open spec fn editor_words(image: Seq<char>, output: Seq<char>) -> Seq<Seq<char>> {
    seq!["-f"@, image, "-o"@, output, "--no-copy"@]
}

/// The words that the editor is started with.
pub fn editor_args(image: &str, output: &str) -> (r: Vec<String>)
    ensures
        crate::text::views(r@) == editor_words(image@, output@),
{
    let mut words: Vec<String> = Vec::new();
    push_word(&mut words, "-f");
    push_word(&mut words, image);
    push_word(&mut words, "-o");
    push_word(&mut words, output);
    push_word(&mut words, "--no-copy");
    proof {
        assert(crate::text::views(words@) =~= editor_words(image@, output@));
    }
    words
}

/// The editor that is asked for: the one on the command line, or else that of the environment, of
/// the settings, the one that is installed, and the one that the user built.
pub open spec fn asked_editor(
    cli: Option<Seq<char>>,
    variable: Option<Seq<char>>,
    configured: Option<Seq<char>>,
    on_path: bool,
    built: Option<Seq<char>>,
) -> Option<Seq<char>> {
    if cli is Some {
        cli
    } else if variable is Some {
        variable
    } else if configured is Some {
        configured
    } else if on_path {
        Some("eddy"@)
    } else {
        built
    }
}

/// The editor that is asked for. `on_path` says whether `eddy` is installed, and `built` whether
/// the user built it.
pub fn resolve_editor(
    cli: Option<&str>,
    environment: &Environment,
    configured: Option<&str>,
    on_path: bool,
    built: bool,
) -> (r: Option<String>)
    ensures
        crate::text::view_of(r) == asked_editor(
            match cli {
                Some(editor) => Some(editor@),
                None => None,
            },
            environment.value("BOLTSNAP_EDITOR"@),
            match configured {
                Some(editor) => Some(editor@),
                None => None,
            },
            on_path,
            if built {
                Some(crate::paths::joined(environment.home_dir@, "projects/eddy/build/eddy"@))
            } else {
                None
            },
        ),
{
    if let Some(editor) = cli {
        return Some(editor.to_owned());
    }
    if let Some(editor) = environment.var("BOLTSNAP_EDITOR") {
        return Some(editor.to_owned());
    }
    if let Some(editor) = configured {
        return Some(editor.to_owned());
    }
    if on_path {
        Some("eddy".to_owned())
    } else if built {
        Some(join(environment.home_dir.as_str(), "projects/eddy/build/eddy"))
    } else {
        None
    }
}

/// The editor, where there is one.
pub fn found_editor(editor: Option<String>) -> (r: Result<String, String>)
    ensures
        match editor {
            Some(editor) => r matches Ok(found) && found@ == editor@,
            None => r matches Err(message) && message@
                == "no editor found \u{2014} install eddy, set `editor` in ~/.config/boltsnap/config.toml, or set $BOLTSNAP_EDITOR"@,
        },
{
    match editor {
        Some(editor) => Ok(editor),
        None => Err(
            "no editor found \u{2014} install eddy, set `editor` in ~/.config/boltsnap/config.toml, or set $BOLTSNAP_EDITOR".to_owned(),
        ),
    }
}

/// How the editor ended.
pub enum EditorEnd {
    /// It could not be started.
    Failed(String),
    /// It ended with a status.
    Ended { success: bool, status: String },
}

/// What comes of the editor: whether what it wrote is copied. It writes only where the user saves,
/// so that `written` says whether there is something to copy.
pub fn run_editor(editor: &str, end: EditorEnd, copy_after: bool, written: bool) -> (r: Result<
    bool,
    String,
>)
    ensures
        match end {
            EditorEnd::Failed(error) => r matches Err(message) && message@
                == "failed to launch editor '"@ + editor@ + "': "@ + error@,
            EditorEnd::Ended { success, status } => if success {
                r matches Ok(copied) && copied == (copy_after && written)
            } else {
                r matches Err(message) && message@ == "editor '"@ + editor@
                    + "' exited with status "@ + status@
            },
        },
{
    match end {
        EditorEnd::Failed(error) => {
            let mut message: String = joined("failed to launch editor '", editor);
            message.append("': ");
            message.append(error.as_str());
            Err(message)
        },
        EditorEnd::Ended { success, status } => if success {
            Ok(copy_after && written)
        } else {
            let mut message: String = joined("editor '", editor);
            message.append("' exited with status ");
            message.append(status.as_str());
            Err(message)
        },
    }
}

/// The editor opens the image and writes to the output: the word behind `-f` is the image, the one
/// behind `-o` is the output, and the clipboard is left alone.
pub proof fn lemma_editor_files(image: Seq<char>, output: Seq<char>)
    ensures
        ({
            let words = editor_words(image, output);
            &&& crate::text::option_from(words, "-f"@, 0) == Some(image)
            &&& crate::text::option_from(words, "-o"@, 0) == Some(output)
            &&& words.last() == "--no-copy"@
            &&& words.len() == 5
        }),
{
    reveal_strlit("-f");
    reveal_strlit("-o");
    assert("-f"@[1] != "-o"@[1]);
    reveal_with_fuel(crate::text::option_from, 3);
}

/// What is asked for first decides: an editor that is named more directly is taken, whatever else
/// could be used, and one of the others only where it is not there.
pub proof fn lemma_editor_order(
    cli: Option<Seq<char>>,
    variable: Option<Seq<char>>,
    configured: Option<Seq<char>>,
    on_path: bool,
    built: Option<Seq<char>>,
)
    ensures
        ({
            let editor = asked_editor(cli, variable, configured, on_path, built);
            &&& editor is None <==> cli is None && variable is None && configured is None
                && !on_path && built is None
            &&& cli is Some ==> editor == cli
            &&& cli is None && variable is Some ==> editor == variable
            &&& cli is None && variable is None && configured is Some ==> editor == configured
            &&& cli is None && variable is None && configured is None ==> editor == (if on_path {
                Some("eddy"@)
            } else {
                built
            })
        }),
{
}

/// An editor that is found is used, and none is an error.
pub proof fn lemma_found_editor(editor: Option<String>, found: Result<String, String>)
    requires
        call_ensures(found_editor, (editor,), found),
    ensures
        found is Ok <==> editor is Some,
        found matches Ok(name) ==> name@ == editor->Some_0@,
{
}

/// What was edited is copied where that is wanted and the editor wrote it; an editor that fails, or
/// cannot be run, is told by its name and how it ended.
pub proof fn lemma_edited(
    editor: &str,
    end: EditorEnd,
    copy_after: bool,
    written: bool,
    r: Result<bool, String>,
)
    requires
        call_ensures(run_editor, (editor, end, copy_after, written), r),
    ensures
        r is Ok <==> (end matches EditorEnd::Ended { success, .. } && success),
        r matches Ok(copy) ==> (copy <==> copy_after && written),
        end matches EditorEnd::Failed(error) ==> r->Err_0@ == "failed to launch editor '"@ + editor@
            + "': "@ + error@,
        end matches EditorEnd::Ended { success, status } ==> (!success ==> r->Err_0@ == "editor '"@
            + editor@ + "' exited with status "@ + status@),
{
}

} // verus!
