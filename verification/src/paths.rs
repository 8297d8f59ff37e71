//! Where files go.
//!
//! A path is text in the manner of Unix: `/` separates its parts. What the process finds around it
//! is handed in as an [`Environment`].
use vstd::prelude::*;
use vstd::string::{StrSliceExecFns, StringExecFns};

use crate::cli::Args;
use crate::text::{decimal_string, ends_with, same, strip_prefix, trim};

verus! {

/// What the process finds around it.
pub struct Environment {
    /// The variables of the environment.
    pub vars: Vec<(String, String)>,
    pub home_dir: String,
    pub config_dir: String,
    /// Where screenshots are saved unless something else is set.
    pub screenshot_dir: String,
    pub temp_dir: String,
    /// The directory that relative paths start from, or `.` where it is not known.
    pub current_dir: String,
}

/// The value of the variable `name`: the first one of that name.
pub open spec fn lookup(vars: Seq<(String, String)>, name: Seq<char>) -> Option<Seq<char>>
    decreases vars.len(),
{
    if vars.len() == 0 {
        None
    } else if vars[0].0@ == name {
        Some(vars[0].1@)
    } else {
        lookup(vars.skip(1), name)
    }
}

impl Environment {
    /// The value of the variable `name`.
    pub open spec fn value(&self, name: Seq<char>) -> Option<Seq<char>> {
        lookup(self.vars@, name)
    }

    /// The value of the variable `name`.
    pub fn var(&self, name: &str) -> (r: Option<&str>)
        ensures
            self.value(name@) == (match r {
                Some(value) => Some(value@),
                None => None,
            }),
    {
        let mut i: usize = 0;
        proof {
            assert(self.vars@.skip(0) =~= self.vars@);
        }
        while i < self.vars.len()
            invariant
                i <= self.vars.len(),
                lookup(self.vars@, name@) == lookup(self.vars@.skip(i as int), name@),
            decreases self.vars.len() - i,
        {
            if same(self.vars[i].0.as_str(), name) {
                return Some(self.vars[i].1.as_str());
            }
            proof {
                assert(self.vars@.skip(i as int).skip(1) =~= self.vars@.skip(i + 1));
            }
            i = i + 1;
        }
        None
    }
}

/// `path` begins at the root.
pub open spec fn is_absolute(path: Seq<char>) -> bool {
    path.len() > 0 && path[0] == '/'
}

/// `base` followed by `part`; an absolute part stands alone.
pub open spec fn joined(base: Seq<char>, part: Seq<char>) -> Seq<char> {
    if is_absolute(part) {
        part
    } else if base.len() > 0 && base.last() != '/' {
        base.push('/') + part
    } else {
        base + part
    }
}

/// `path` begins at the root.
pub fn absolute(path: &str) -> (r: bool)
    ensures
        r == is_absolute(path@),
{
    !path.is_empty() && path.get_char(0) == '/'
}

/// `base` followed by `part`; an absolute part stands alone.
pub fn join(base: &str, part: &str) -> (r: String)
    ensures
        r@ == joined(base@, part@),
{
    if absolute(part) {
        return part.to_owned();
    }
    let mut path: String = base.to_owned();
    let length: usize = base.unicode_len();
    if length > 0 && base.get_char(length - 1) != '/' {
        crate::text::push(&mut path, '/');
    }
    path.append(part);
    path
}

impl Environment {
    /// Where boltsnap keeps what it can do without.
    pub open spec fn cache(&self) -> Seq<char> {
        match self.value("XDG_CACHE_HOME"@) {
            Some(cache) => joined(cache, "boltsnap"@),
            None => match self.value("HOME"@) {
                Some(home) => joined(joined(home, ".cache"@), "boltsnap"@),
                None => joined(self.temp_dir@, "boltsnap"@),
            },
        }
    }

    /// `path` from the root on.
    pub open spec fn normalized(&self, path: Seq<char>) -> Seq<char> {
        if is_absolute(path) {
            path
        } else {
            joined(self.current_dir@, path)
        }
    }

    /// Where a screenshot is saved that was asked to be saved at `stamp`.
    pub open spec fn saved_at(&self, stamp: u128) -> Seq<char> {
        joined(
            joined(
                joined(
                    match self.value("HOME"@) {
                        Some(home) => home,
                        None => "."@,
                    },
                    "Pictures"@,
                ),
                "Screenshots"@,
            ),
            "boltsnap-"@ + crate::text::decimal(stamp as nat) + ".png"@,
        )
    }

    /// Where a screenshot or an edited image goes: `-o`, then `--save`, then `usual` in the cache.
    pub open spec fn target(
        &self,
        output: Option<Seq<char>>,
        save: bool,
        usual: Seq<char>,
        stamp: u128,
    ) -> Seq<char> {
        match output {
            Some(path) => self.normalized(path),
            None => if save {
                self.saved_at(stamp)
            } else {
                joined(self.cache(), usual)
            },
        }
    }
}

/// Where boltsnap keeps what it can do without.
pub fn cache_dir(environment: &Environment) -> (r: String)
    ensures
        r@ == environment.cache(),
{
    match environment.var("XDG_CACHE_HOME") {
        Some(cache) => join(cache, "boltsnap"),
        None => match environment.var("HOME") {
            Some(home) => join(join(home, ".cache").as_str(), "boltsnap"),
            None => join(environment.temp_dir.as_str(), "boltsnap"),
        },
    }
}

/// The file that says which screenshot was the last.
pub fn last_pointer_path(environment: &Environment) -> (r: String)
    ensures
        r@ == joined(environment.cache(), "last.txt"@),
{
    join(cache_dir(environment).as_str(), "last.txt")
}

/// `path` from the root on.
pub fn normalize_path(path: &str, environment: &Environment) -> (r: String)
    ensures
        r@ == environment.normalized(path@),
{
    if absolute(path) {
        path.to_owned()
    } else {
        join(environment.current_dir.as_str(), path)
    }
}

/// A path from the root on stays as it is, so that doing it twice changes nothing more.
pub proof fn lemma_normalized_twice(environment: &Environment, path: Seq<char>)
    requires
        is_absolute(environment.current_dir@),
    ensures
        environment.normalized(environment.normalized(path)) == environment.normalized(path),
{
}

/// Succeeds where `exists` says that there is a file at `path`.
pub fn ensure_file(path: &str, exists: bool) -> (r: Result<(), String>)
    ensures
        exists ==> r is Ok,
        !exists ==> (r matches Err(message) && message@ == "file not found: "@ + path@),
{
    if exists {
        Ok(())
    } else {
        Err(crate::text::joined("file not found: ", path))
    }
}

/// Where a screenshot is saved that was asked to be saved at `stamp`.
pub fn default_save_path(environment: &Environment, stamp: u128) -> (r: String)
    ensures
        r@ == environment.saved_at(stamp),
{
    let home = match environment.var("HOME") {
        Some(home) => home,
        None => ".",
    };
    let mut name: String = crate::text::joined("boltsnap-", decimal_string(stamp).as_str());
    name.append(".png");
    join(join(join(home, "Pictures").as_str(), "Screenshots").as_str(), name.as_str())
}

/// Where a screenshot goes: `-o`, then `--save`, then `last.png` in the cache.
pub fn target_path(args: &Args, environment: &Environment, stamp: u128) -> (r: String)
    ensures
        r@ == environment.target(args@.output, args@.save, "last.png"@, stamp),
{
    match &args.output {
        Some(path) => normalize_path(path.as_str(), environment),
        None => if args.save {
            default_save_path(environment, stamp)
        } else {
            join(cache_dir(environment).as_str(), "last.png")
        },
    }
}

/// Where an edited image goes: `-o`, then `--save`, then `last-edited.png` in the cache.
pub fn edit_output_path(args: &Args, environment: &Environment, stamp: u128) -> (r: Option<String>)
    ensures
        r matches Some(path) && path@ == environment.target(
            args@.output,
            args@.save,
            "last-edited.png"@,
            stamp,
        ),
{
    match &args.output {
        Some(path) => Some(normalize_path(path.as_str(), environment)),
        None => if args.save {
            Some(default_save_path(environment, stamp))
        } else {
            Some(join(cache_dir(environment).as_str(), "last-edited.png"))
        },
    }
}

/// The name of a temporary file.
pub open spec fn temp_name(prefix: Seq<char>, pid: u32, stamp: u128, extension: Seq<char>) -> Seq<
    char,
> {
    "boltsnap-"@ + prefix + "-"@ + crate::text::decimal(pid as nat) + "-"@ + crate::text::decimal(
        stamp as nat,
    ) + "."@ + extension
}

/// A temporary file of the process `pid` at `stamp`.
pub fn temp_file(prefix: &str, extension: &str, environment: &Environment, pid: u32, stamp: u128)
    -> (r: String)
    ensures
        r@ == joined(environment.temp_dir@, temp_name(prefix@, pid, stamp, extension@)),
{
    let mut name: String = crate::text::joined("boltsnap-", prefix);
    name.append("-");
    name.append(decimal_string(pid as u128).as_str());
    name.append("-");
    name.append(decimal_string(stamp).as_str());
    name.append(".");
    name.append(extension);
    join(environment.temp_dir.as_str(), name.as_str())
}

/// A temporary image of the process `pid` at `stamp`.
pub fn temp_png(prefix: &str, environment: &Environment, pid: u32, stamp: u128) -> (r: String)
    ensures
        r@ == joined(environment.temp_dir@, temp_name(prefix@, pid, stamp, "png"@)),
{
    temp_file(prefix, "png", environment, pid, stamp)
}

/// Where a picture is written when it is taken: to a temporary file where an editor follows, so that
/// what is at `-o` stays until the user saves, and otherwise where it goes.
pub fn capture_path(args: &Args, environment: &Environment, pid: u32, stamp: u128) -> (r: String)
    ensures
        r@ == (if args@.edit {
            joined(environment.temp_dir@, temp_name("shot"@, pid, stamp, "png"@))
        } else {
            environment.target(args@.output, args@.save, "last.png"@, stamp)
        }),
{
    if args.edit {
        temp_png("shot", environment, pid, stamp)
    } else {
        target_path(args, environment, stamp)
    }
}

/// The name of an image that a shelf left behind.
pub open spec fn is_shelf_temp(name: Seq<char>) -> bool {
    crate::text::without_prefix(name, "boltsnap-shelf-"@) is Some && crate::text::has_suffix(
        name,
        ".png"@,
    )
}

/// `name` is that of an image that a shelf left behind. When no daemon is running the shelf is
/// empty, so such a file can go.
pub fn is_orphan_shelf_temp(name: &str) -> (r: bool)
    ensures
        r == is_shelf_temp(name@),
{
    strip_prefix(name, "boltsnap-shelf-").is_some() && ends_with(name, ".png")
}

/// The images that the shelf makes are the ones that are cleaned up.
pub proof fn lemma_shelf_temps_are_cleaned(pid: u32, stamp: u128)
    ensures
        is_shelf_temp(temp_name("shelf"@, pid, stamp, "png"@)),
{
    reveal_strlit("boltsnap-");
    reveal_strlit("shelf");
    reveal_strlit("-");
    reveal_strlit("boltsnap-shelf-");
    reveal_strlit(".");
    reveal_strlit("png");
    reveal_strlit(".png");
    let name = temp_name("shelf"@, pid, stamp, "png"@);
    assert(name.take(15) =~= "boltsnap-shelf-"@);
    assert(name.skip(name.len() - 4) =~= ".png"@);
}

/// The name of a saved file.
pub fn boltsnap_filename_ext(stamp: &str, ext: &str) -> (r: String)
    ensures
        r@ == "boltsnap-"@ + stamp@ + "."@ + ext@,
{
    let mut name: String = crate::text::joined("boltsnap-", stamp);
    name.append(".");
    name.append(ext);
    name
}

/// The time for a name: what `date` printed, where it printed something, or else `stamp`.
pub fn local_timestamp(date: Option<&str>, stamp: u128) -> (r: String)
    ensures
        r@ == (match date {
            Some(date) if crate::text::trimmed(date@).len() > 0 => crate::text::trimmed(date@),
            _ => crate::text::decimal(stamp as nat),
        }),
{
    match date {
        Some(date) => {
            let date = trim(date);
            if date.as_str().is_empty() {
                decimal_string(stamp)
            } else {
                date
            }
        },
        None => decimal_string(stamp),
    }
}

/// The last screenshot: the one that `pointer`, the text of the file that says which it was, names,
/// where `pointed_exists` says that it is still there, or else `last.png` in the cache.
pub fn last_screenshot_path(
    pointer: Option<&str>,
    pointed_exists: bool,
    fallback_exists: bool,
    environment: &Environment,
) -> (r: Result<String, String>)
    ensures
        match pointer {
            Some(text) if pointed_exists => r matches Ok(path) && path@ == crate::text::trimmed(
                text@,
            ),
            _ => if fallback_exists {
                r matches Ok(path) && path@ == joined(environment.cache(), "last.png"@)
            } else {
                r matches Err(message) && message@
                    == "no last screenshot yet; run `boltsnap` first, then `boltsnap --edit`"@
            },
        },
{
    match pointer {
        Some(text) => if pointed_exists {
            return Ok(trim(text));
        },
        None => {},
    }
    if fallback_exists {
        Ok(join(cache_dir(environment).as_str(), "last.png"))
    } else {
        Err("no last screenshot yet; run `boltsnap` first, then `boltsnap --edit`".to_owned())
    }
}

/// Where a program may be: in each of the directories that the variable `PATH` lists.
pub open spec fn command_paths(list: Seq<char>, name: Seq<char>) -> Seq<Seq<char>> {
    let directories = crate::text::parts(list, ':', ':');
    Seq::new(directories.len(), |i: int| joined(directories[i], name))
}

/// Where a program may be, in the order in which the places are looked at: it is there where one of
/// them is a file.
pub fn command_candidates(list: &str, name: &str) -> (r: Vec<String>)
    ensures
        crate::text::views(r@) == command_paths(list@, name@),
{
    let directories = crate::text::split_parts(list, ':', ':');
    let ghost all = crate::text::views(directories@);
    let mut out: Vec<String> = Vec::new();
    let mut i: usize = 0;
    while i < directories.len()
        invariant
            all == crate::text::views(directories@),
            all == crate::text::parts(list@, ':', ':'),
            i <= directories.len(),
            crate::text::views(out@) == command_paths(list@, name@).take(i as int),
        decreases directories.len() - i,
    {
        crate::text::push_word(&mut out, join(directories[i].as_str(), name).as_str());
        proof {
            assert(crate::text::views(out@) =~= command_paths(list@, name@).take(i + 1));
        }
        i = i + 1;
    }
    proof {
        assert(command_paths(list@, name@).take(i as int) =~= command_paths(list@, name@));
    }
    out
}

/// A variable has the value of the first entry of its name, and none where no entry has it.
pub proof fn lemma_lookup(vars: Seq<(String, String)>, name: Seq<char>)
    ensures
        lookup(vars, name) is None <==> forall|i: int|
            0 <= i < vars.len() ==> (#[trigger] vars[i]).0@ != name,
        lookup(vars, name) matches Some(value) ==> exists|i: int|
            0 <= i < vars.len() && (#[trigger] vars[i]).0@ == name && vars[i].1@ == value && (forall|
                k: int,
            |
                0 <= k < i ==> (#[trigger] vars[k]).0@ != name),
    decreases vars.len(),
{
    if vars.len() > 0 {
        let rest = vars.skip(1);
        lemma_lookup(rest, name);
        assert forall|i: int| 0 <= i < rest.len() implies #[trigger] rest[i] == vars[i + 1] by {}
        assert forall|i: int| 1 <= i < vars.len() implies #[trigger] vars[i] == rest[i - 1] by {}
        if vars[0].0@ != name {
            if let Some(value) = lookup(rest, name) {
                let i = choose|i: int|
                    0 <= i < rest.len() && (#[trigger] rest[i]).0@ == name && rest[i].1@ == value && (
                    forall|k: int| 0 <= k < i ==> (#[trigger] rest[k]).0@ != name);
                assert(vars[i + 1].0@ == name && vars[i + 1].1@ == value);
                assert forall|k: int| 0 <= k < i + 1 implies (#[trigger] vars[k]).0@ != name by {
                    if k > 0 {
                        assert(rest[k - 1].0@ != name);
                    }
                }
            }
            if forall|i: int| 0 <= i < rest.len() ==> (#[trigger] rest[i]).0@ != name {
                assert forall|i: int| 0 <= i < vars.len() implies (#[trigger] vars[i]).0@ != name by {
                    if i > 0 {
                        assert(rest[i - 1].0@ != name);
                    }
                }
            }
        } else {
            assert(vars[0].1@ == lookup(vars, name)->Some_0);
        }
    }
}

/// A path that is joined ends with what was joined to it, with one separator before it; an absolute
/// path replaces what it is joined to.
pub proof fn lemma_joined(base: Seq<char>, part: Seq<char>)
    ensures
        crate::text::has_suffix(joined(base, part), part),
        is_absolute(part) ==> joined(base, part) == part,
        !is_absolute(part) ==> crate::text::without_prefix(joined(base, part), base) is Some,
        !is_absolute(part) && base.len() > 0 && base.last() != '/' ==> joined(base, part)
            == joined(base.push('/'), part) && joined(base, part).len() == base.len() + 1
            + part.len() && joined(base, part)[base.len() as int] == '/',
        !is_absolute(part) && base.len() > 0 && base.last() == '/' ==> joined(base, part).len()
            == base.len() + part.len(),
        base.len() == 0 ==> joined(base, part) == part,
        is_absolute(part) <==> crate::text::without_prefix(part, "/"@) is Some,
{
    let path = joined(base, part);
    reveal_strlit("/");
    assert(path.skip(path.len() - part.len()) =~= part);
    if !is_absolute(part) {
        assert(path.take(base.len() as int) =~= base);
    }
    if base.len() > 0 && base.last() != '/' {
        assert(base.push('/').last() == '/');
    }
    if base.len() == 0 {
        assert(path =~= part);
    }
    if part.len() > 0 {
        assert(part.take(1)[0] == part[0]);
        assert("/"@[0] == '/');
        if part[0] == '/' {
            assert(part.take(1) =~= "/"@);
        }
    }
}

/// The cache is in the directory for caches that is set, or else in the one below the home
/// directory, or else among the temporary files.
pub proof fn lemma_cache(environment: &Environment, cache: String, pointer: String)
    requires
        call_ensures(cache_dir, (environment,), cache),
        call_ensures(last_pointer_path, (environment,), pointer),
    ensures
        environment.value("XDG_CACHE_HOME"@) matches Some(dir) ==> cache@ == joined(
            dir,
            "boltsnap"@,
        ),
        environment.value("XDG_CACHE_HOME"@) is None ==> (environment.value("HOME"@) matches Some(
            home,
        ) ==> cache@ == joined(joined(home, ".cache"@), "boltsnap"@)),
        environment.value("XDG_CACHE_HOME"@) is None && environment.value("HOME"@) is None
            ==> cache@ == joined(environment.temp_dir@, "boltsnap"@),
        pointer@ == joined(cache@, "last.txt"@),
{
}

/// Where a picture goes: where the command line says, from the current directory on; among the saved
/// ones where it is to be saved; else in the cache, the edited one beside the plain one. A picture
/// that is edited is first captured among the temporary files.
pub proof fn lemma_targets(
    args: &Args,
    environment: &Environment,
    pid: u32,
    stamp: u128,
    cache: String,
    target: String,
    edited: Option<String>,
    captured: String,
    usual: String,
)
    requires
        call_ensures(cache_dir, (environment,), cache),
        call_ensures(target_path, (args, environment, stamp), target),
        call_ensures(edit_output_path, (args, environment, stamp), edited),
        call_ensures(capture_path, (args, environment, pid, stamp), captured),
        call_ensures(default_save_path, (environment, stamp), usual),
    ensures
        edited is Some,
        args@.output matches Some(path) ==> {
            &&& target@ == edited->Some_0@
            &&& crate::text::has_suffix(target@, path)
            &&& is_absolute(path) ==> target@ == path
            &&& !is_absolute(path) ==> target@ == joined(environment.current_dir@, path)
        },
        args@.output is None && args@.save ==> target@ == usual@ && edited->Some_0@ == usual@,
        args@.output is None && !args@.save ==> target@ == joined(cache@, "last.png"@)
            && edited->Some_0@ == joined(cache@, "last-edited.png"@),
        !args@.edit ==> captured@ == target@,
        args@.edit ==> captured@ == joined(
            environment.temp_dir@,
            "boltsnap-shot-"@ + crate::text::decimal(pid as nat) + "-"@ + crate::text::decimal(
                stamp as nat,
            ) + ".png"@,
        ),
        environment.value("HOME"@) matches Some(home) ==> usual@ == joined(
            joined(joined(home, "Pictures"@), "Screenshots"@),
            "boltsnap-"@ + crate::text::decimal(stamp as nat) + ".png"@,
        ),
{
    if let Some(path) = args@.output {
        lemma_joined(environment.current_dir@, path);
        assert(path.skip(0) =~= path);
    }
    reveal_strlit("boltsnap-");
    reveal_strlit("shot");
    reveal_strlit("-");
    reveal_strlit("boltsnap-shot-");
    reveal_strlit(".");
    reveal_strlit("png");
    reveal_strlit(".png");
    assert("boltsnap-"@ + "shot"@ + "-"@ =~= "boltsnap-shot-"@);
    let number = crate::text::decimal(pid as nat);
    let time = crate::text::decimal(stamp as nat);
    assert(temp_name("shot"@, pid, stamp, "png"@) =~= "boltsnap-shot-"@ + number + "-"@ + time
        + ".png"@);
}

/// A temporary file is among the temporary ones and is named for what it is, the process and the
/// time, in that order.
pub proof fn lemma_temp_file(
    prefix: &str,
    extension: &str,
    environment: &Environment,
    pid: u32,
    stamp: u128,
    file: String,
    picture: String,
)
    requires
        call_ensures(temp_file, (prefix, extension, environment, pid, stamp), file),
        call_ensures(temp_png, (prefix, environment, pid, stamp), picture),
    ensures
        file@ == joined(
            environment.temp_dir@,
            "boltsnap-"@ + prefix@ + "-"@ + crate::text::decimal(pid as nat) + "-"@
                + crate::text::decimal(stamp as nat) + "."@ + extension@,
        ),
        extension@ == "png"@ ==> picture@ == file@,
{
}

/// A temporary picture of the shelf is one whose name begins and ends as theirs do.
pub proof fn lemma_shelf_temp(name: &str, orphan: bool, middle: Seq<char>)
    requires
        call_ensures(is_orphan_shelf_temp, (name,), orphan),
    ensures
        orphan <==> crate::text::without_prefix(name@, "boltsnap-shelf-"@) is Some
            && crate::text::has_suffix(name@, ".png"@),
        name@ == "boltsnap-shelf-"@ + middle + ".png"@ ==> orphan,
{
    if name@ == "boltsnap-shelf-"@ + middle + ".png"@ {
        assert(name@.take("boltsnap-shelf-"@.len() as int) =~= "boltsnap-shelf-"@);
        assert(name@.skip(name@.len() - ".png"@.len()) =~= ".png"@);
    }
}

/// The last screenshot is the one that is pointed to, while it is there, or else the one in the
/// cache, while that is there. Its path is read without the space around it.
pub proof fn lemma_last_screenshot(
    pointer: Option<&str>,
    pointed_exists: bool,
    fallback_exists: bool,
    environment: &Environment,
    found: Result<String, String>,
)
    requires
        call_ensures(
            last_screenshot_path,
            (pointer, pointed_exists, fallback_exists, environment),
            found,
        ),
    ensures
        found is Ok <==> (pointer is Some && pointed_exists) || fallback_exists,
        pointer is Some && pointed_exists ==> found->Ok_0@ == crate::text::trimmed(
            pointer->Some_0@,
        ),
        found is Ok && !(pointer is Some && pointed_exists) ==> found->Ok_0@ == joined(
            environment.cache(),
            "last.png"@,
        ),
{
}

/// A time is what the clock printed, without the space around it, or else the number of the moment.
pub proof fn lemma_timestamp(date: Option<&str>, stamp: u128, text: String)
    requires
        call_ensures(local_timestamp, (date, stamp), text),
    ensures
        date matches Some(date) ==> (crate::text::trimmed(date@).len() > 0 ==> text@
            == crate::text::trimmed(date@)),
        date matches Some(date) ==> (crate::text::trimmed(date@).len() == 0 ==> text@
            == crate::text::decimal(stamp as nat)),
        date is None ==> text@ == crate::text::decimal(stamp as nat),
{
}

/// The name of a file tells the time and ends with its kind.
pub proof fn lemma_file_name(stamp: &str, ext: &str, name: String)
    requires
        call_ensures(boltsnap_filename_ext, (stamp, ext), name),
    ensures
        crate::text::without_prefix(name@, "boltsnap-"@ + stamp@) is Some,
        crate::text::has_suffix(name@, "."@ + ext@),
        name@.len() == 10 + stamp@.len() + ext@.len(),
{
    reveal_strlit("boltsnap-");
    reveal_strlit(".");
    let head = "boltsnap-"@ + stamp@;
    let tail = "."@ + ext@;
    assert(name@.take(head.len() as int) =~= head);
    assert(name@.skip(name@.len() - tail.len()) =~= tail);
}

/// A file that is there is fine; of another the message tells the path.
pub proof fn lemma_ensured(path: &str, exists: bool, r: Result<(), String>)
    requires
        call_ensures(ensure_file, (path, exists), r),
    ensures
        r is Ok <==> exists,
        r matches Err(message) ==> crate::text::has_suffix(message@, path@),
{
    if let Err(message) = r {
        assert(message@.skip(message@.len() - path@.len()) =~= path@);
    }
}

/// A command is looked for in each directory of the list, in order.
pub proof fn lemma_command_paths(directory: Seq<char>, rest: Seq<char>, name: Seq<char>)
    requires
        !directory.contains(':'),
    ensures
        command_paths(directory, name) == seq![joined(directory, name)],
        command_paths(directory.push(':') + rest, name) == seq![joined(directory, name)]
            + command_paths(rest, name),
{
    crate::text::lemma_parts(directory, ':', rest, ':', ':');
    assert(command_paths(directory, name) =~= seq![joined(directory, name)]);
    assert(command_paths(directory.push(':') + rest, name) =~= seq![joined(directory, name)]
        + command_paths(rest, name));
}

} // verus!
