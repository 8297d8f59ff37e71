//! Where things are kept on Windows.
use vstd::prelude::*;
use vstd::string::StringExecFns;

use crate::text::{
    among, ascii_alphanumeric, chars_of, decimal_string, joined, push, push_word, strip_prefix,
    trim, trim_char,
};

verus! {

/// `part`, which names no drive and no root, under `base`.
pub open spec fn under(base: Seq<char>, part: Seq<char>) -> Seq<char> {
    if base.len() > 0 && base.last() != '\\' && base.last() != '/' {
        base.push('\\') + part
    } else {
        base + part
    }
}

/// `part`, which names no drive and no root, under `base`.
pub fn join(base: &str, part: &str) -> (r: String)
    ensures
        r@ == under(base@, part@),
{
    let mut path: String = base.to_owned();
    let length: usize = base.unicode_len();
    if length > 0 {
        let last: char = base.get_char(length - 1);
        if last != '\\' && last != '/' {
            push(&mut path, '\\');
        }
    }
    path.append(part);
    path
}

/// The folders of the user, where Windows knows them.
pub struct Folders {
    pub profile: Option<String>,
    /// The variable `USERPROFILE`.
    pub user_profile: Option<String>,
    pub roaming: Option<String>,
    pub local: Option<String>,
    pub pictures: Option<String>,
    pub videos: Option<String>,
    pub temp_dir: String,
}

impl Folders {
    /// The user's own folder.
    pub open spec fn home(&self) -> Seq<char> {
        match self.profile {
            Some(path) => path@,
            None => match self.user_profile {
                Some(path) => path@,
                None => "."@,
            },
        }
    }

    /// The folder of what can be made again.
    pub open spec fn cache(&self) -> Seq<char> {
        let base = match self.local {
            Some(path) => path@,
            None => self.temp_dir@,
        };
        under(under(base, "boltsnap"@), "cache"@)
    }

    /// The folder of screenshots.
    pub open spec fn screenshots(&self) -> Seq<char> {
        let base = match self.pictures {
            Some(path) => path@,
            None => under(self.home(), "Pictures"@),
        };
        under(base, "Boltsnap"@)
    }

    /// The user's own folder.
    pub fn home_dir(&self) -> (r: String)
        ensures
            r@ == self.home(),
    {
        match &self.profile {
            Some(path) => path.as_str().to_owned(),
            None => match &self.user_profile {
                Some(path) => path.as_str().to_owned(),
                None => ".".to_owned(),
            },
        }
    }

    /// The folder of the settings.
    pub fn config_dir(&self) -> (r: String)
        ensures
            r@ == under(
                match self.roaming {
                    Some(path) => path@,
                    None => under(under(self.home(), "AppData"@), "Roaming"@),
                },
                "boltsnap"@,
            ),
    {
        match &self.roaming {
            Some(path) => join(path.as_str(), "boltsnap"),
            None => {
                let home = self.home_dir();
                let data = join(home.as_str(), "AppData");
                join(join(data.as_str(), "Roaming").as_str(), "boltsnap")
            },
        }
    }

    /// The folder of what can be made again.
    pub fn cache_dir(&self) -> (r: String)
        ensures
            r@ == self.cache(),
    {
        let base = match &self.local {
            Some(path) => path.as_str(),
            None => self.temp_dir.as_str(),
        };
        join(join(base, "boltsnap").as_str(), "cache")
    }

    /// The file that says where the last screenshot is.
    pub fn last_pointer_path(&self) -> (r: String)
        ensures
            r@ == under(self.cache(), "last.txt"@),
    {
        join(self.cache_dir().as_str(), "last.txt")
    }

    /// The folder of screenshots.
    pub fn default_screenshot_dir(&self) -> (r: String)
        ensures
            r@ == self.screenshots(),
    {
        match &self.pictures {
            Some(path) => join(path.as_str(), "Boltsnap"),
            None => join(join(self.home_dir().as_str(), "Pictures").as_str(), "Boltsnap"),
        }
    }

    /// The folder of recordings that are kept.
    pub fn default_recording_dir(&self) -> (r: String)
        ensures
            r@ == under(
                match self.videos {
                    Some(path) => path@,
                    None => under(self.home(), "Videos"@),
                },
                "Boltsnap"@,
            ),
    {
        match &self.videos {
            Some(path) => join(path.as_str(), "Boltsnap"),
            None => join(join(self.home_dir().as_str(), "Videos").as_str(), "Boltsnap"),
        }
    }

    /// The folder of recordings that are being made.
    pub fn rec_dir(&self) -> (r: String)
        ensures
            r@ == under(self.cache(), "recordings"@),
    {
        join(self.cache_dir().as_str(), "recordings")
    }

    /// Where a screenshot is saved, given the time of day.
    pub fn default_save_path(&self, stamp: &str) -> (r: String)
        ensures
            r@ == under(self.screenshots(), "boltsnap-"@ + stamp@ + "."@ + "png"@),
    {
        join(
            self.default_screenshot_dir().as_str(),
            crate::paths::boltsnap_filename_ext(stamp, "png").as_str(),
        )
    }

    /// Where a screenshot goes: `output` is what the command line names, as a whole path.
    pub fn target_path(&self, output: Option<&str>, save: bool, stamp: &str) -> (r: String)
        ensures
            r@ == (match output {
                Some(path) => path@,
                None => if save {
                    under(self.screenshots(), "boltsnap-"@ + stamp@ + "."@ + "png"@)
                } else {
                    under(self.cache(), "last.png"@)
                },
            }),
    {
        match output {
            Some(path) => path.to_owned(),
            None => if save {
                self.default_save_path(stamp)
            } else {
                join(self.cache_dir().as_str(), "last.png")
            },
        }
    }

    /// Where an edited screenshot goes.
    pub fn edit_output_path(&self, output: Option<&str>, save: bool, stamp: &str) -> (r: String)
        ensures
            r@ == (match output {
                Some(path) => path@,
                None => if save {
                    under(self.screenshots(), "boltsnap-"@ + stamp@ + "."@ + "png"@)
                } else {
                    under(self.cache(), "last-edited.png"@)
                },
            }),
    {
        match output {
            Some(path) => path.to_owned(),
            None => if save {
                self.default_save_path(stamp)
            } else {
                join(self.cache_dir().as_str(), "last-edited.png")
            },
        }
    }

    /// Where the last screenshot is. `pointer` is what the file that names it holds; `pointed` and
    /// `fallback` say whether what it names, and the picture that is always kept, are there.
    pub fn last_screenshot_path(&self, pointer: Option<&str>, pointed: bool, fallback: bool) -> (r:
        Result<String, String>)
        ensures
            match pointer {
                Some(text) if pointed => r matches Ok(path) && path@ == crate::text::trimmed(text@),
                _ => if fallback {
                    r matches Ok(path) && path@ == under(self.cache(), "last.png"@)
                } else {
                    r matches Err(message) && message@
                        == "no last screenshot yet; run `boltsnap` first, then `boltsnap --edit`"@
                },
            },
    {
        match pointer {
            Some(text) => {
                if pointed {
                    return Ok(trim(text));
                }
            },
            None => {},
        }
        if fallback {
            Ok(join(self.cache_dir().as_str(), "last.png"))
        } else {
            Err(
                "no last screenshot yet; run `boltsnap` first, then `boltsnap --edit`".to_owned(),
            )
        }
    }
}

/// The name of a file of a process.
pub open spec fn process_file(
    prefix: Seq<char>,
    pid: nat,
    stamp: nat,
    number: nat,
    extension: Seq<char>,
) -> Seq<char> {
    "boltsnap-"@ + prefix + "-"@ + crate::text::decimal(pid) + "-"@ + crate::text::decimal(stamp)
        + "-"@ + crate::text::decimal(number) + "."@ + extension
}

/// The name of a file of the process `pid`.
pub fn file_name(prefix: &str, extension: &str, pid: u32, stamp: u128, number: u64) -> (r: String)
    ensures
        r@ == process_file(prefix@, pid as nat, stamp as nat, number as nat, extension@),
{
    let mut name: String = joined("boltsnap-", prefix);
    name.append("-");
    name.append(decimal_string(pid as u128).as_str());
    name.append("-");
    name.append(decimal_string(stamp).as_str());
    name.append("-");
    name.append(decimal_string(number as u128).as_str());
    name.append(".");
    name.append(extension);
    name
}

/// A file of a process in a folder: of temporary files, or of recordings.
pub fn temp_file(
    folder: &str,
    prefix: &str,
    extension: &str,
    pid: u32,
    stamp: u128,
    number: u64,
) -> (r: String)
    ensures
        r@ == under(
            folder@,
            process_file(prefix@, pid as nat, stamp as nat, number as nat, extension@),
        ),
{
    join(folder, file_name(prefix, extension, pid, stamp, number).as_str())
}

/// A picture of a process in a folder.
pub fn temp_png(folder: &str, prefix: &str, pid: u32, stamp: u128, number: u64) -> (r: String)
    ensures
        r@ == under(
            folder@,
            process_file(prefix@, pid as nat, stamp as nat, number as nat, "png"@),
        ),
{
    temp_file(folder, prefix, "png", pid, stamp, number)
}

/// Whether a file was left behind by an earlier process.
pub fn is_orphan(name: &str) -> (r: bool)
    ensures
        r == (crate::text::without_prefix(name@, "boltsnap-"@) is Some),
{
    strip_prefix(name, "boltsnap-").is_some()
}

/// Every file of a process is one that is cleaned up after it.
pub proof fn lemma_files_are_cleaned(
    prefix: Seq<char>,
    pid: nat,
    stamp: nat,
    number: nat,
    extension: Seq<char>,
)
    ensures
        crate::text::without_prefix(
            process_file(prefix, pid, stamp, number, extension),
            "boltsnap-"@,
        ) is Some,
{
    let name = process_file(prefix, pid, stamp, number, extension);
    assert(name.take("boltsnap-"@.len() as int) =~= "boltsnap-"@);
}

/// Whether a file is there.
pub fn ensure_file(path: &str, is_file: bool) -> (r: Result<(), String>)
    ensures
        if is_file {
            r is Ok
        } else {
            r matches Err(message) && message@ == "file not found: "@ + path@
        },
{
    if is_file {
        Ok(())
    } else {
        Err(joined("file not found: ", path))
    }
}

/// A character that may stand in a file's name.
pub open spec fn is_safe(c: char) -> bool {
    crate::text::is_alphanumeric(c) || c == '-' || c == '_'
}

/// A text with `-` for what may not stand in a file's name.
pub open spec fn made_safe(text: Seq<char>) -> Seq<char> {
    Seq::new(
        text.len(),
        |i: int|
            if is_safe(text[i]) {
                text[i]
            } else {
                '-'
            },
    )
}

/// The name of an output as a part of a file's name.
pub open spec fn sanitized(output: Seq<char>) -> Seq<char> {
    crate::text::without_trailing(crate::text::without_leading(made_safe(output), '-'), '-')
}

/// The name of an output as a part of a file's name.
pub fn sanitize_recording_output(output: &str) -> (r: String)
    ensures
        r@ == sanitized(output@),
{
    let chars = chars_of(output);
    let mut safe: String = String::new();
    let mut i: usize = 0;
    while i < chars.len()
        invariant
            chars@ == output@,
            i <= chars.len(),
            safe@ == made_safe(output@).take(i as int),
        decreases chars.len() - i,
    {
        let c: char = chars[i];
        if ascii_alphanumeric(c) || c == '-' || c == '_' {
            push(&mut safe, c);
        } else {
            push(&mut safe, '-');
        }
        proof {
            assert(safe@ =~= made_safe(output@).take(i + 1));
        }
        i = i + 1;
    }
    proof {
        assert(made_safe(output@).take(i as int) =~= made_safe(output@));
    }
    trim_char(safe.as_str(), '-')
}

/// What is cut off at the beginning leaves the rest as it is.
proof fn lemma_leading(text: Seq<char>, c: char)
    ensures
        ({
            let rest = crate::text::without_leading(text, c);
            &&& rest.len() <= text.len()
            &&& rest == text.skip(text.len() - rest.len())
            &&& rest.len() > 0 ==> rest[0] != c
        }),
    decreases text.len(),
{
    if text.len() > 0 && text[0] == c {
        lemma_leading(text.skip(1), c);
        let rest = crate::text::without_leading(text.skip(1), c);
        assert(rest =~= text.skip(text.len() - rest.len()));
    } else {
        assert(text.skip(0) =~= text);
    }
}

/// What is cut off at the end leaves the rest as it is.
proof fn lemma_trailing(text: Seq<char>, c: char)
    ensures
        ({
            let rest = crate::text::without_trailing(text, c);
            &&& rest.len() <= text.len()
            &&& rest == text.take(rest.len() as int)
            &&& rest.len() > 0 ==> rest.last() != c
        }),
    decreases text.len(),
{
    if text.len() > 0 && text.last() == c {
        lemma_trailing(text.drop_last(), c);
        let rest = crate::text::without_trailing(text.drop_last(), c);
        assert(rest =~= text.take(rest.len() as int));
    } else {
        assert(text.take(text.len() as int) =~= text);
    }
}

/// The name of an output in a file's name holds only characters that may stand there.
pub proof fn lemma_sanitized_is_safe(output: Seq<char>, i: int)
    requires
        0 <= i < sanitized(output).len(),
    ensures
        is_safe(sanitized(output)[i]),
{
    let safe = made_safe(output);
    lemma_leading(safe, '-');
    lemma_trailing(crate::text::without_leading(safe, '-'), '-');
}

/// A name that was made safe stays as it is.
pub proof fn lemma_sanitized_twice(output: Seq<char>)
    ensures
        sanitized(sanitized(output)) == sanitized(output),
{
    let name = sanitized(output);
    let first = crate::text::without_leading(made_safe(output), '-');
    lemma_leading(made_safe(output), '-');
    lemma_trailing(first, '-');
    assert(made_safe(name) =~= name) by {
        assert forall|i: int| 0 <= i < name.len() implies made_safe(name)[i] == name[i] by {
            lemma_sanitized_is_safe(output, i);
        }
    }
    if name.len() > 0 {
        assert(name[0] == first[0]);
    }
}

/// The name of a file; `number` tells those of the same second apart.
pub open spec fn numbered_name(
    stamp: Seq<char>,
    output: Seq<char>,
    number: nat,
    extension: Seq<char>,
) -> Seq<char> {
    let part = if output.len() > 0 {
        "-"@ + output
    } else {
        Seq::empty()
    };
    let suffix = if number == 0 {
        Seq::empty()
    } else {
        "-"@ + crate::text::decimal(number)
    };
    "boltsnap-"@ + stamp + part + suffix + "."@ + extension
}

/// The name of an output in the name of a recording: nothing where there is none.
pub open spec fn output_part(output: Option<&str>) -> Seq<char> {
    match output {
        Some(output) => sanitized(output@),
        None => Seq::empty(),
    }
}

/// The name of a file with a number.
fn number_name(stamp: &str, output: &str, number: usize, extension: &str) -> (r: String)
    ensures
        r@ == numbered_name(stamp@, output@, number as nat, extension@),
{
    let mut name: String = joined("boltsnap-", stamp);
    let ghost start = name@;
    if output.unicode_len() > 0 {
        name.append("-");
        name.append(output);
    }
    let ghost part = if output@.len() > 0 {
        "-"@ + output@
    } else {
        Seq::empty()
    };
    let ghost suffix = if number == 0 {
        Seq::empty()
    } else {
        "-"@ + crate::text::decimal(number as nat)
    };
    proof {
        assert(name@ =~= start + part);
    }
    if number > 0 {
        name.append("-");
        name.append(decimal_string(number as u128).as_str());
    }
    proof {
        assert(name@ =~= start + part + suffix);
    }
    name.append(".");
    name.append(extension);
    name
}

/// Two files of a second have different names.
pub proof fn lemma_names_differ(
    stamp: Seq<char>,
    output: Seq<char>,
    a: nat,
    b: nat,
    extension: Seq<char>,
)
    requires
        numbered_name(stamp, output, a, extension) == numbered_name(stamp, output, b, extension),
    ensures
        a == b,
{
    let part = if output.len() > 0 {
        "-"@ + output
    } else {
        Seq::empty()
    };
    let start = "boltsnap-"@ + stamp + part;
    crate::text::lemma_decimal_length(a);
    crate::text::lemma_decimal_length(b);
    let first = numbered_name(stamp, output, a, extension);
    let second = numbered_name(stamp, output, b, extension);
    assert(first.len() == second.len());
    if a > 0 && b > 0 {
        let from = start.len() + "-"@.len();
        let to = first.len() - "."@.len() - extension.len();
        assert(first.subrange(from as int, to as int) =~= crate::text::decimal(a));
        assert(second.subrange(from as int, to as int) =~= crate::text::decimal(b));
        crate::text::lemma_decimal_tells(a, b);
    } else {
        reveal_strlit("-");
    }
}

/// The paths of the first `count` files of a second.
pub open spec fn numbered_paths(
    directory: Seq<char>,
    stamp: Seq<char>,
    output: Seq<char>,
    extension: Seq<char>,
    count: nat,
) -> Seq<Seq<char>> {
    Seq::new(count, |i: int| under(directory, numbered_name(stamp, output, i as nat, extension)))
}

/// The first `number` files of a second are there, and the next one is not.
pub open spec fn first_free(
    directory: Seq<char>,
    stamp: Seq<char>,
    output: Seq<char>,
    extension: Seq<char>,
    files: Seq<Seq<char>>,
    number: nat,
) -> bool {
    &&& !crate::text::is_among(
        files,
        under(directory, numbered_name(stamp, output, number, extension)),
    )
    &&& forall|i: int|
        0 <= i < number ==> crate::text::is_among(
            files,
            #[trigger] numbered_paths(directory, stamp, output, extension, number)[i],
        )
}

/// No more of them are there than files.
proof fn lemma_numbers_bounded(
    directory: Seq<char>,
    stamp: Seq<char>,
    output: Seq<char>,
    extension: Seq<char>,
    files: Seq<Seq<char>>,
    count: nat,
)
    requires
        forall|i: int|
            0 <= i < count ==> crate::text::is_among(
                files,
                #[trigger] numbered_paths(directory, stamp, output, extension, count)[i],
            ),
    ensures
        count <= files.len(),
{
    let paths = numbered_paths(directory, stamp, output, extension, count);
    let base = under(directory, Seq::empty());
    assert(paths.no_duplicates()) by {
        assert forall|i: int, j: int|
            0 <= i < paths.len() && 0 <= j < paths.len() && i != j implies paths[i] != paths[j] by {
            let a = numbered_name(stamp, output, i as nat, extension);
            let b = numbered_name(stamp, output, j as nat, extension);
            if paths[i] == paths[j] {
                assert(paths[i].skip(base.len() as int) =~= a);
                assert(paths[j].skip(base.len() as int) =~= b);
                lemma_names_differ(stamp, output, i as nat, j as nat, extension);
            }
        }
    }
    crate::text::lemma_as_many(paths, files);
}

/// The path of the first file of a second that is not there.
fn free_path(
    directory: &str,
    output: &str,
    extension: &str,
    stamp: &str,
    files: &Vec<String>,
) -> (r: String)
    ensures
        exists|number: nat| #[trigger]
            first_free(
                directory@,
                stamp@,
                output@,
                extension@,
                crate::text::views(files@),
                number,
            ) && r@ == under(directory@, numbered_name(stamp@, output@, number, extension@)),
{
    let ghost all = crate::text::views(files@);
    let mut number: usize = 0;
    let mut path = join(directory, number_name(stamp, output, 0, extension).as_str());
    while among(files, path.as_str())
        invariant
            all == crate::text::views(files@),
            number <= files.len(),
            path@ == under(
                directory@,
                numbered_name(stamp@, output@, number as nat, extension@),
            ),
            forall|i: int|
                0 <= i < number ==> crate::text::is_among(
                    all,
                    #[trigger] numbered_paths(
                        directory@,
                        stamp@,
                        output@,
                        extension@,
                        number as nat,
                    )[i],
                ),
        decreases files.len() - number,
    {
        proof {
            let fewer = numbered_paths(directory@, stamp@, output@, extension@, number as nat);
            let more = numbered_paths(directory@, stamp@, output@, extension@, number as nat + 1);
            assert forall|i: int| 0 <= i < number + 1 implies crate::text::is_among(
                all,
                #[trigger] more[i],
            ) by {
                if i < number {
                    assert(more[i] == fewer[i]);
                }
            }
            lemma_numbers_bounded(
                directory@,
                stamp@,
                output@,
                extension@,
                all,
                number as nat + 1,
            );
        }
        number = number + 1;
        path = join(directory, number_name(stamp, output, number, extension).as_str());
    }
    proof {
        assert(first_free(directory@, stamp@, output@, extension@, all, number as nat));
    }
    path
}

/// A path for a recording that no file has: the first that is free. `files` are the files in the
/// directory.
pub fn unique_recording_path(
    directory: &str,
    output: Option<&str>,
    stamp: &str,
    files: &Vec<String>,
) -> (r: String)
    ensures
        exists|number: nat| #[trigger]
            first_free(
                directory@,
                stamp@,
                output_part(output),
                "mp4"@,
                crate::text::views(files@),
                number,
            ) && r@ == under(
                directory@,
                numbered_name(stamp@, output_part(output), number, "mp4"@),
            ),
{
    let part: String = match output {
        Some(output) => sanitize_recording_output(output),
        None => String::new(),
    };
    proof {
        assert(part@ =~= output_part(output));
    }
    free_path(directory, part.as_str(), "mp4", stamp, files)
}

/// A path for a card that is saved, which no file has: the first that is free.
pub fn unique_path(directory: &str, extension: &str, stamp: &str, files: &Vec<String>) -> (r: String)
    ensures
        exists|number: nat| #[trigger]
            first_free(
                directory@,
                stamp@,
                Seq::empty(),
                extension@,
                crate::text::views(files@),
                number,
            ) && r@ == under(directory@, numbered_name(stamp@, Seq::empty(), number, extension@)),
{
    let part: String = String::new();
    proof {
        assert(part@ =~= Seq::empty());
    }
    free_path(directory, part.as_str(), extension, stamp, files)
}

/// Where a program may be, in a directory: under its name, and under its name with each of the
/// endings that make a file a program.
pub open spec fn candidates_in(
    directory: Seq<char>,
    name: Seq<char>,
    endings: Seq<Seq<char>>,
) -> Seq<Seq<char>> {
    seq![under(directory, name)] + Seq::new(
        endings.len(),
        |i: int| under(directory, name + endings[i]),
    )
}

/// Where a program may be, in the first `count` directories.
pub open spec fn candidates(
    directories: Seq<Seq<char>>,
    name: Seq<char>,
    endings: Seq<Seq<char>>,
    count: int,
) -> Seq<Seq<char>>
    decreases count,
{
    if count <= 0 {
        Seq::empty()
    } else {
        candidates(directories, name, endings, count - 1) + candidates_in(
            directories[count - 1],
            name,
            endings,
        )
    }
}

/// Where a program may be, in the order in which the places are looked at: it is there where one of
/// them is a file.
pub fn command_candidates(name: &str, directories: &Vec<String>, endings: &Vec<String>) -> (r: Vec<
    String,
>)
    ensures
        crate::text::views(r@) == candidates(
            crate::text::views(directories@),
            name@,
            crate::text::views(endings@),
            directories@.len() as int,
        ),
{
    let ghost all = crate::text::views(directories@);
    let ghost ends = crate::text::views(endings@);
    let mut out: Vec<String> = Vec::new();
    let mut i: usize = 0;
    proof {
        assert(crate::text::views(out@) =~= candidates(all, name@, ends, 0));
    }
    while i < directories.len()
        invariant
            all == crate::text::views(directories@),
            ends == crate::text::views(endings@),
            i <= directories.len(),
            crate::text::views(out@) == candidates(all, name@, ends, i as int),
        decreases directories.len() - i,
    {
        let ghost before = crate::text::views(out@);
        let ghost here = candidates_in(all[i as int], name@, ends);
        push_word(&mut out, join(directories[i].as_str(), name).as_str());
        let mut j: usize = 0;
        proof {
            assert(crate::text::views(out@) =~= before + here.take(1));
        }
        while j < endings.len()
            invariant
                all == crate::text::views(directories@),
                ends == crate::text::views(endings@),
                i < directories.len(),
                j <= endings.len(),
                here == candidates_in(all[i as int], name@, ends),
                crate::text::views(out@) == before + here.take(j + 1),
            decreases endings.len() - j,
        {
            let file = joined(name, endings[j].as_str());
            push_word(&mut out, join(directories[i].as_str(), file.as_str()).as_str());
            proof {
                assert(crate::text::views(out@) =~= before + here.take(j + 2));
            }
            j = j + 1;
        }
        proof {
            assert(here.take(j + 1) =~= here);
        }
        i = i + 1;
    }
    out
}

/// Where the editor that comes with the program is, given the program's directory.
pub fn bundled_editor(directory: &str) -> (r: String)
    ensures
        r@ == under(under(directory@, "Eddy"@), "eddy.exe"@),
{
    join(join(directory, "Eddy").as_str(), "eddy.exe")
}

/// A number in at least `width` digits.
pub open spec fn padded(value: nat, width: nat) -> Seq<char> {
    let digits = crate::text::decimal(value);
    if digits.len() >= width {
        digits
    } else {
        Seq::new((width - digits.len()) as nat, |i: int| '0') + digits
    }
}

/// A number in at least `width` digits.
fn pad(value: u16, width: usize) -> (r: String)
    ensures
        r@ == padded(value as nat, width as nat),
{
    let digits = decimal_string(value as u128);
    let length: usize = digits.as_str().unicode_len();
    if length >= width {
        return digits;
    }
    let mut out: String = String::new();
    let zeros: usize = width - length;
    let mut i: usize = 0;
    while i < zeros
        invariant
            i <= zeros,
            out@ == Seq::new(i as nat, |j: int| '0'),
        decreases zeros - i,
    {
        push(&mut out, '0');
        proof {
            assert(out@ =~= Seq::new((i + 1) as nat, |j: int| '0'));
        }
        i = i + 1;
    }
    out.append(digits.as_str());
    out
}

/// A moment of the day.
#[derive(Clone, Copy, Debug, PartialEq, Eq, Structural)]
pub struct LocalTime {
    pub year: u16,
    pub month: u16,
    pub day: u16,
    pub hour: u16,
    pub minute: u16,
    pub second: u16,
}

/// A moment of the day as a part of a file's name.
pub fn local_timestamp(time: LocalTime) -> (r: String)
    ensures
        r@ == padded(time.year as nat, 4) + "-"@ + padded(time.month as nat, 2) + "-"@ + padded(
            time.day as nat,
            2,
        ) + "_"@ + padded(time.hour as nat, 2) + "-"@ + padded(time.minute as nat, 2) + "-"@
            + padded(time.second as nat, 2),
{
    let mut text: String = pad(time.year, 4);
    text.append("-");
    text.append(pad(time.month, 2).as_str());
    text.append("-");
    text.append(pad(time.day, 2).as_str());
    text.append("_");
    text.append(pad(time.hour, 2).as_str());
    text.append("-");
    text.append(pad(time.minute, 2).as_str());
    text.append("-");
    text.append(pad(time.second, 2).as_str());
    text
}

/// A path under another one begins with it and ends with the part, with one separator between.
pub proof fn lemma_under(base: Seq<char>, part: Seq<char>)
    ensures
        crate::text::has_suffix(under(base, part), part),
        crate::text::without_prefix(under(base, part), base) is Some,
        base.len() > 0 && base.last() != '\\' && base.last() != '/' ==> under(base, part).len()
            == base.len() + 1 + part.len() && under(base, part)[base.len() as int] == '\\',
        base.len() == 0 || base.last() == '\\' || base.last() == '/' ==> under(base, part).len()
            == base.len() + part.len(),
{
    let path = under(base, part);
    assert(path.skip(path.len() - part.len()) =~= part);
    assert(path.take(base.len() as int) =~= base);
}

/// Where files go: in the folder that is known for them, or else in the one of that name below the
/// home folder.
pub proof fn lemma_folders(
    folders: &Folders,
    home: String,
    config: String,
    cache: String,
    pointer: String,
    pictures: String,
    videos: String,
    recordings: String,
)
    requires
        call_ensures(Folders::home_dir, (folders,), home),
        call_ensures(Folders::config_dir, (folders,), config),
        call_ensures(Folders::cache_dir, (folders,), cache),
        call_ensures(Folders::last_pointer_path, (folders,), pointer),
        call_ensures(Folders::default_screenshot_dir, (folders,), pictures),
        call_ensures(Folders::default_recording_dir, (folders,), videos),
        call_ensures(Folders::rec_dir, (folders,), recordings),
    ensures
        folders.profile matches Some(path) ==> home@ == path@,
        folders.profile is None ==> (folders.user_profile matches Some(path) ==> home@ == path@),
        folders.profile is None && folders.user_profile is None ==> home@ == "."@,
        folders.roaming matches Some(path) ==> config@ == under(path@, "boltsnap"@),
        folders.roaming is None ==> config@ == under(
            under(under(home@, "AppData"@), "Roaming"@),
            "boltsnap"@,
        ),
        folders.local matches Some(path) ==> cache@ == under(
            under(path@, "boltsnap"@),
            "cache"@,
        ),
        folders.local is None ==> cache@ == under(
            under(folders.temp_dir@, "boltsnap"@),
            "cache"@,
        ),
        pointer@ == under(cache@, "last.txt"@),
        recordings@ == under(cache@, "recordings"@),
        folders.pictures matches Some(path) ==> pictures@ == under(path@, "Boltsnap"@),
        folders.pictures is None ==> pictures@ == under(under(home@, "Pictures"@), "Boltsnap"@),
        folders.videos matches Some(path) ==> videos@ == under(path@, "Boltsnap"@),
        folders.videos is None ==> videos@ == under(under(home@, "Videos"@), "Boltsnap"@),
{
}

/// Where a picture goes: where the command line says; among the saved ones where it is to be saved;
/// else in the cache, the edited one beside the plain one.
pub proof fn lemma_targets(
    folders: &Folders,
    output: Option<&str>,
    save: bool,
    stamp: &str,
    cache: String,
    usual: String,
    target: String,
    edited: String,
)
    requires
        call_ensures(Folders::cache_dir, (folders,), cache),
        call_ensures(Folders::default_save_path, (folders, stamp), usual),
        call_ensures(Folders::target_path, (folders, output, save, stamp), target),
        call_ensures(Folders::edit_output_path, (folders, output, save, stamp), edited),
    ensures
        output matches Some(path) ==> target@ == path@ && edited@ == path@,
        output is None && save ==> target@ == usual@ && edited@ == usual@,
        output is None && !save ==> target@ == under(cache@, "last.png"@) && edited@ == under(
            cache@,
            "last-edited.png"@,
        ),
        usual@ == under(folders.screenshots(), "boltsnap-"@ + stamp@ + "."@ + "png"@),
{
}

/// The last screenshot is the one that is pointed to, while it is there, or else the one in the
/// cache, while that is there.
pub proof fn lemma_last_screenshot(
    folders: &Folders,
    pointer: Option<&str>,
    pointed: bool,
    fallback: bool,
    found: Result<String, String>,
)
    requires
        call_ensures(Folders::last_screenshot_path, (folders, pointer, pointed, fallback), found),
    ensures
        found is Ok <==> (pointer is Some && pointed) || fallback,
        pointer is Some && pointed ==> found->Ok_0@ == crate::text::trimmed(pointer->Some_0@),
        found is Ok && !(pointer is Some && pointed) ==> found->Ok_0@ == under(
            folders.cache(),
            "last.png"@,
        ),
{
}

/// A file of the process is named for what it is, the process, the time and its number, in that
/// order.
pub proof fn lemma_process_file(
    folder: &str,
    prefix: &str,
    extension: &str,
    pid: u32,
    stamp: u128,
    number: u64,
    name: String,
    path: String,
    picture: String,
)
    requires
        call_ensures(file_name, (prefix, extension, pid, stamp, number), name),
        call_ensures(temp_file, (folder, prefix, extension, pid, stamp, number), path),
        call_ensures(temp_png, (folder, prefix, pid, stamp, number), picture),
    ensures
        name@ == "boltsnap-"@ + prefix@ + "-"@ + crate::text::decimal(pid as nat) + "-"@
            + crate::text::decimal(stamp as nat) + "-"@ + crate::text::decimal(number as nat) + "."@
            + extension@,
        path@ == under(folder@, name@),
        extension@ == "png"@ ==> picture@ == path@,
{
}

/// What is made safe keeps its safe characters where they are, and has a dash for any other.
pub proof fn lemma_made_safe(text: Seq<char>, i: int)
    requires
        0 <= i < text.len(),
    ensures
        made_safe(text).len() == text.len(),
        'a' <= text[i] <= 'z' || 'A' <= text[i] <= 'Z' || '0' <= text[i] <= '9' || text[i] == '_'
            ==> made_safe(text)[i] == text[i],
        !('a' <= text[i] <= 'z' || 'A' <= text[i] <= 'Z' || '0' <= text[i] <= '9' || text[i] == '_')
            ==> made_safe(text)[i] == '-',
{
}

/// A number that is padded has the width that was asked for at least, zeros in front, and the number
/// at its end.
pub proof fn lemma_padded(value: nat, width: nat)
    ensures
        padded(value, width).len() >= width,
        crate::text::has_suffix(padded(value, width), crate::text::decimal(value)),
        forall|i: int|
            0 <= i < padded(value, width).len() - crate::text::decimal(value).len()
                ==> #[trigger] padded(value, width)[i] == '0',
        crate::text::decimal(value).len() >= width ==> padded(value, width)
            == crate::text::decimal(value),
{
    let text = padded(value, width);
    let digits = crate::text::decimal(value);
    assert(text.skip(text.len() - digits.len()) =~= digits);
}

/// A time is told from the year down to the second.
pub proof fn lemma_timestamp(time: LocalTime, text: String)
    requires
        call_ensures(local_timestamp, (time,), text),
    ensures
        text@ == padded(time.year as nat, 4) + "-"@ + padded(time.month as nat, 2) + "-"@ + padded(
            time.day as nat,
            2,
        ) + "_"@ + padded(time.hour as nat, 2) + "-"@ + padded(time.minute as nat, 2) + "-"@
            + padded(time.second as nat, 2),
{
}

/// A name is numbered only where it has to be, and tells the output where there is one.
pub proof fn lemma_numbered_name(
    stamp: Seq<char>,
    output: Seq<char>,
    number: nat,
    extension: Seq<char>,
)
    ensures
        number == 0 && output.len() == 0 ==> numbered_name(stamp, output, number, extension)
            == "boltsnap-"@ + stamp + "."@ + extension,
        number == 0 && output.len() > 0 ==> numbered_name(stamp, output, number, extension)
            == "boltsnap-"@ + stamp + "-"@ + output + "."@ + extension,
        number > 0 && output.len() == 0 ==> numbered_name(stamp, output, number, extension)
            == "boltsnap-"@ + stamp + "-"@ + crate::text::decimal(number) + "."@ + extension,
        number > 0 && output.len() > 0 ==> numbered_name(stamp, output, number, extension)
            == "boltsnap-"@ + stamp + "-"@ + output + "-"@ + crate::text::decimal(number) + "."@
            + extension,
{
    let name = numbered_name(stamp, output, number, extension);
    let digits = crate::text::decimal(number);
    if number == 0 && output.len() == 0 {
        assert(name =~= "boltsnap-"@ + stamp + "."@ + extension);
    } else if number == 0 {
        assert(name =~= "boltsnap-"@ + stamp + "-"@ + output + "."@ + extension);
    } else if output.len() == 0 {
        assert(name =~= "boltsnap-"@ + stamp + "-"@ + digits + "."@ + extension);
    } else {
        assert(name =~= "boltsnap-"@ + stamp + "-"@ + output + "-"@ + digits + "."@ + extension);
    }
}

/// A command is looked for in each folder in order: as it is named, and then with each ending.
pub proof fn lemma_candidates(
    directories: Seq<Seq<char>>,
    name: Seq<char>,
    endings: Seq<Seq<char>>,
    count: int,
    d: int,
    e: int,
)
    requires
        0 <= d < count <= directories.len(),
        0 <= e < endings.len(),
    ensures
        candidates(directories, name, endings, count).len() == count * (endings.len() + 1),
        candidates(directories, name, endings, count)[d * (endings.len() + 1)] == under(
            directories[d],
            name,
        ),
        candidates(directories, name, endings, count)[d * (endings.len() + 1) + 1 + e] == under(
            directories[d],
            name + endings[e],
        ),
    decreases count,
{
    let each = endings.len() as int + 1;
    let before = candidates(directories, name, endings, count - 1);
    let last = candidates_in(directories[count - 1], name, endings);
    assert(last.len() == each);
    if count > 1 {
        if d < count - 1 {
            lemma_candidates(directories, name, endings, count - 1, d, e);
            assert(d * each + each <= (count - 1) * each) by (nonlinear_arith)
                requires
                    d + 1 <= count - 1,
                    each > 0,
            ;
        } else {
            lemma_candidates(directories, name, endings, count - 1, 0, e);
        }
    } else {
        assert(before.len() == 0);
    }
    assert(before.len() == (count - 1) * each);
    assert((count - 1) * each + each == count * each) by (nonlinear_arith);
    if d == count - 1 {
        assert(last[0] == under(directories[d], name));
        assert(last[1 + e] == under(directories[d], name + endings[e]));
        assert(d * each >= 0) by (nonlinear_arith)
            requires
                d >= 0,
                each > 0,
        ;
    } else {
        assert(d * each >= 0) by (nonlinear_arith)
            requires
                d >= 0,
                each > 0,
        ;
    }
}

/// A file that was left behind is one whose name begins as the program's do; one that is there is
/// fine.
pub proof fn lemma_orphan(name: &str, orphan: bool, path: &str, is_file: bool, r: Result<(), String>)
    requires
        call_ensures(is_orphan, (name,), orphan),
        call_ensures(ensure_file, (path, is_file), r),
    ensures
        orphan <==> name@.len() >= 9 && name@.take(9) == "boltsnap-"@,
        r is Ok <==> is_file,
        r matches Err(message) ==> crate::text::has_suffix(message@, path@),
{
    reveal_strlit("boltsnap-");
    if let Err(message) = r {
        assert(message@.skip(message@.len() - path@.len()) =~= path@);
    }
}

/// A recording's path is one that is not taken, and no number lower than its own is free.
pub proof fn lemma_unique(
    directory: &str,
    output: Option<&str>,
    stamp: &str,
    files: &Vec<String>,
    path: String,
)
    requires
        call_ensures(unique_recording_path, (directory, output, stamp, files), path),
    ensures
        !crate::text::is_among(crate::text::views(files@), path@),
        crate::text::without_prefix(path@, directory@) is Some,
        crate::text::has_suffix(path@, "."@ + "mp4"@),
        ({
            let plain = under(
                directory@,
                numbered_name(stamp@, output_part(output), 0, "mp4"@),
            );
            !crate::text::is_among(crate::text::views(files@), plain) ==> path@ == plain
        }),
        output is None ==> output_part(output).len() == 0,
        output matches Some(name) ==> output_part(output) == sanitized(name@),
{
    let taken = crate::text::views(files@);
    let part = output_part(output);
    let number = choose|number: nat| #[trigger]
        first_free(directory@, stamp@, part, "mp4"@, taken, number) && path@ == under(
            directory@,
            numbered_name(stamp@, part, number, "mp4"@),
        );
    let name = numbered_name(stamp@, part, number, "mp4"@);
    lemma_under(directory@, name);
    let tail = "."@ + "mp4"@;
    assert(name.skip(name.len() - tail.len()) =~= tail);
    assert(path@.skip(path@.len() - tail.len()) =~= tail) by {
        assert(path@.skip(path@.len() - name.len()) == name);
        assert forall|i: int| 0 <= i < tail.len() implies path@[path@.len() - tail.len() + i]
            == tail[i] by {
            let k = name.len() - tail.len() + i;
            assert(path@.skip(path@.len() - name.len())[k] == name[k]);
            assert(name.skip(name.len() - tail.len())[i] == tail[i]);
        }
    }
    if number > 0 {
        let first = numbered_paths(directory@, stamp@, part, "mp4"@, number)[0];
        assert(crate::text::is_among(taken, first));
    }
}

} // verus!
