//! Clips that are written as they were recorded.
use vstd::prelude::*;
use vstd::string::StringExecFns;

use crate::text::{decimal_string, ends_with, joined, same, slice_text};

verus! {

/// A file that may not grow beyond a limit.
pub struct LimitedFile {
    /// Where the next byte goes.
    pub position: u64,
    /// How long the file is.
    pub length: u64,
    pub limit: u64,
}

impl LimitedFile {
    /// The file keeps to its limit.
    pub open spec fn well_formed(&self) -> bool {
        self.length <= self.limit
    }

    /// An empty file.
    pub fn new(limit: u64) -> (r: Self)
        ensures
            r.position == 0,
            r.length == 0,
            r.limit == limit,
            r.well_formed(),
    {
        LimitedFile { position: 0, length: 0, limit }
    }

    /// Whether `count` bytes may be written where the file stands, before any is.
    pub fn check(&self, count: u64) -> (r: Result<(), String>)
        ensures
            if self.position + count > u64::MAX {
                r matches Err(message) && message@ == "output size overflow"@
            } else if self.position + count > self.limit {
                r matches Err(message) && message@ == "probe output quota exceeded"@
            } else {
                r is Ok
            },
    {
        match self.position.checked_add(count) {
            None => Err("output size overflow".to_owned()),
            Some(end) => if end > self.limit {
                Err("probe output quota exceeded".to_owned())
            } else {
                Ok(())
            },
        }
    }

    /// Takes note that `count` bytes were written where that was allowed. The file keeps to its
    /// limit.
    pub fn wrote(&mut self, count: u64)
        requires
            old(self).well_formed(),
            old(self).position + count <= old(self).limit,
        ensures
            final(self).well_formed(),
            final(self).position == old(self).position + count,
            final(self).length == (if old(self).position + count > old(self).length {
                old(self).position + count
            } else {
                old(self).length as int
            }),
            final(self).limit == old(self).limit,
            final(self).length >= final(self).position,
            final(self).length == old(self).length || final(self).length == final(self).position,
            final(self).length >= old(self).length,
    {
        self.position = self.position + count;
        if self.position > self.length {
            self.length = self.position;
        }
    }

    /// Moves to another place. The file does not grow by that.
    pub fn seek(&mut self, position: u64)
        requires
            old(self).well_formed(),
        ensures
            final(self).well_formed(),
            final(self).position == position,
            final(self).length == old(self).length,
            final(self).limit == old(self).limit,
    {
        self.position = position;
    }
}

/// Where an output is written before it is complete: beside it, under its name and the writer's own
/// numbers. A path that names no file is refused.
pub open spec fn partial_of(path: Seq<char>, pid: nat, number: nat) -> Result<Seq<char>, Seq<char>> {
    let path = bare(path);
    let name = file_name(path);
    if names_file(path) {
        Ok(
            crate::paths::joined(
                bare(path.take(path.len() - name.len())),
                name + "."@ + crate::text::decimal(pid) + "."@ + crate::text::decimal(number)
                    + ".partial"@,
            ),
        )
    } else {
        Err("output has no filename"@)
    }
}

/// Where an output is written before it is complete: beside it, under its name and the writer's own
/// numbers.
pub fn partial_path(path: &str, pid: u32, number: u64) -> (r: Result<String, String>)
    ensures
        partial_of(path@, pid as nat, number as nat) == (match r {
            Ok(path) => Ok(path@),
            Err(message) => Err(message@),
        }),
{
    let path = bare_path(path);
    let chars = crate::text::chars_of(path.as_str());
    let length: usize = name_length(path.as_str());
    proof {
        lemma_name_at_end(path@);
    }
    let at: usize = chars.len() - length;
    let directory = bare_path(slice_text(&chars, 0, at).as_str());
    let mut name: String = slice_text(&chars, at, chars.len());
    proof {
        assert(path@.subrange(0, at as int) =~= path@.take(at as int));
        assert(path@.subrange(at as int, path@.len() as int) =~= path@.skip(at as int));
    }
    if !is_file_name(name.as_str()) {
        return Err("output has no filename".to_owned());
    }
    name.append(".");
    name.append(decimal_string(pid as u128).as_str());
    name.append(".");
    name.append(decimal_string(number as u128).as_str());
    name.append(".partial");
    Ok(crate::paths::join(directory.as_str(), name.as_str()))
}

/// How many names are tried for an output that is not complete.
pub const NAME_ATTEMPTS: u32 = 32;

/// What came of making a file.
pub enum Created {
    Done,
    AlreadyThere,
    Failed(String),
}

/// What follows from trying a name.
pub enum Attempt {
    Done,
    Again,
    Failed(String),
}

/// What follows from trying a name, after `tried` others.
pub fn reserve(tried: u32, created: Created) -> (r: Attempt)
    requires
        tried < NAME_ATTEMPTS,
    ensures
        match created {
            Created::Done => r is Done,
            Created::AlreadyThere => if tried + 1 < NAME_ATTEMPTS {
                r is Again
            } else {
                r matches Attempt::Failed(message) && message@
                    == "could not reserve a temporary output filename"@
            },
            Created::Failed(error) => r matches Attempt::Failed(message) && message@
                == "create output: "@ + error@,
        },
{
    match created {
        Created::Done => Attempt::Done,
        Created::AlreadyThere => if tried + 1 < NAME_ATTEMPTS {
            Attempt::Again
        } else {
            Attempt::Failed("could not reserve a temporary output filename".to_owned())
        },
        Created::Failed(error) => Attempt::Failed(joined("create output: ", error.as_str())),
    }
}

/// The file name of a path: what stands behind its last separator.
pub open spec fn file_name(path: Seq<char>) -> Seq<char>
    decreases path.len(),
{
    if path.len() == 0 || path.last() == '/' {
        Seq::empty()
    } else {
        file_name(path.drop_last()).push(path.last())
    }
}

/// A path without the separators that it ends in, and without the single dots between them: they
/// name the same file.
pub open spec fn bare(path: Seq<char>) -> Seq<char>
    decreases path.len(),
{
    if path.len() > 1 && (path.last() == '/' || (path.last() == '.' && path[path.len() - 2]
        == '/')) {
        bare(path.drop_last())
    } else {
        path
    }
}

/// A path without the separators and single dots that it ends in.
pub(crate) fn bare_path(path: &str) -> (r: String)
    ensures
        r@ == bare(path@),
{
    let chars = crate::text::chars_of(path);
    let mut at: usize = chars.len();
    proof {
        assert(chars@.take(at as int) =~= chars@);
    }
    while at > 1 && (chars[at - 1] == '/' || (chars[at - 1] == '.' && chars[at - 2] == '/'))
        invariant
            chars@ == path@,
            at <= chars.len(),
            bare(chars@) == bare(chars@.take(at as int)),
        decreases at,
    {
        proof {
            assert(chars@.take(at as int).drop_last() =~= chars@.take(at - 1));
            assert(chars@.take(at as int).last() == chars@[at - 1]);
            assert(chars@.take(at as int)[at - 2] == chars@[at - 2]);
        }
        at = at - 1;
    }
    let rest = slice_text(&chars, 0, at);
    proof {
        assert(rest@ =~= chars@.take(at as int));
        if at > 1 {
            assert(rest@.last() == chars@[at - 1]);
            assert(rest@[at - 2] == chars@[at - 2]);
        }
    }
    rest
}

/// A path that ends in the name of a file.
pub open spec fn names_file(path: Seq<char>) -> bool {
    let name = file_name(path);
    name.len() > 0 && name != "."@ && name != ".."@
}

/// Whether what stands behind the last separator of a path names a file.
fn is_file_name(name: &str) -> (r: bool)
    ensures
        r == (name@.len() > 0 && name@ != "."@ && name@ != ".."@),
{
    !name.is_empty() && !same(name, ".") && !same(name, "..")
}

/// Whether a path ends in the name of a file.
pub(crate) fn is_file_path(path: &str) -> (r: bool)
    ensures
        r == names_file(path@),
{
    let chars = crate::text::chars_of(path);
    let length: usize = name_length(path);
    proof {
        lemma_name_at_end(path@);
    }
    let name = slice_text(&chars, chars.len() - length, chars.len());
    proof {
        assert(name@ =~= path@.skip(path@.len() - length));
    }
    is_file_name(name.as_str())
}

/// The file name of a path is what the path ends in.
proof fn lemma_name_at_end(path: Seq<char>)
    ensures
        file_name(path).len() <= path.len(),
        file_name(path) == path.skip(path.len() - file_name(path).len()),
    decreases path.len(),
{
    if path.len() == 0 || path.last() == '/' {
        assert(path.skip(path.len() as int) =~= Seq::<char>::empty());
    } else {
        let shorter = path.drop_last();
        lemma_name_at_end(shorter);
        let at = shorter.len() - file_name(shorter).len();
        assert(path.skip(at) =~= shorter.skip(at).push(path.last()));
    }
}

/// A path names a clip: a file with more to its name than the extension `.mkv`.
pub open spec fn names_clip(path: Seq<char>) -> bool {
    crate::text::has_suffix(bare(path), ".mkv"@) && file_name(bare(path)).len() > 4
}

/// Whether a clip may be written to a path: it names one, and nothing is there yet.
pub fn check_output(path: &str, exists_already: Result<bool, String>) -> (r: Result<(), String>)
    ensures
        if !names_clip(path@) {
            r matches Err(message) && message@ == "probe output must use the .mkv extension"@
        } else {
            match exists_already {
                Err(error) => r matches Err(message) && message@ == "check output: "@ + error@,
                Ok(true) => r matches Err(message) && message@ == "output already exists"@,
                Ok(false) => r is Ok,
            }
        },
{
    let rest = bare_path(path);
    let long = name_length(rest.as_str()) > 4;
    if !ends_with(rest.as_str(), ".mkv") || !long {
        return Err("probe output must use the .mkv extension".to_owned());
    }
    match exists_already {
        Err(error) => Err(joined("check output: ", error.as_str())),
        Ok(there) => if there {
            Err("output already exists".to_owned())
        } else {
            Ok(())
        },
    }
}

/// How long the file name of a path is.
fn name_length(path: &str) -> (r: usize)
    ensures
        r == file_name(path@).len(),
{
    let chars = crate::text::chars_of(path);
    let mut at: usize = chars.len();
    proof {
        assert(chars@.take(at as int) =~= chars@);
    }
    while at > 0 && chars[at - 1] != '/'
        invariant
            at <= chars.len(),
            file_name(chars@).len() == file_name(chars@.take(at as int)).len() + chars.len() - at,
        decreases at,
    {
        proof {
            assert(chars@.take(at as int).drop_last() =~= chars@.take(at - 1));
            assert(chars@.take(at as int).last() == chars@[at - 1]);
        }
        at = at - 1;
    }
    proof {
        if at > 0 {
            assert(chars@.take(at as int).last() == '/');
        }
        assert(file_name(chars@.take(at as int)).len() == 0);
    }
    chars.len() - at
}

/// What is said of a clip that could not be written.
pub fn export_error(error: &str, partial: &str) -> (r: String)
    ensures
        r@ == error@ + "; partial output: "@ + partial@,
{
    let mut message: String = joined(error, "; partial output: ");
    message.append(partial);
    message
}

/// Whether a clip of `bytes` bytes holds anything.
pub fn nonempty(bytes: u64) -> (r: Result<u64, String>)
    ensures
        if bytes == 0 {
            r matches Err(message) && message@ == "empty output"@
        } else {
            r == Ok::<u64, String>(bytes)
        },
{
    if bytes == 0 {
        Err("empty output".to_owned())
    } else {
        Ok(bytes)
    }
}

/// Which stream the next packet is of.
#[derive(Clone, Copy, Debug, PartialEq, Eq, Structural)]
pub enum Source {
    Video,
    Audio,
}

/// The streams in the order in which their packets are written, given the moments at which the
/// packets begin: sound that begins before the picture goes first.
pub open spec fn interleaved(video: Seq<i64>, audio: Seq<i64>) -> Seq<Source>
    decreases video.len() + audio.len(),
{
    if video.len() > 0 && audio.len() > 0 && audio[0] < video[0] {
        seq![Source::Audio] + interleaved(video, audio.skip(1))
    } else if video.len() > 0 {
        seq![Source::Video] + interleaved(video.skip(1), audio)
    } else if audio.len() > 0 {
        seq![Source::Audio] + interleaved(video, audio.skip(1))
    } else {
        Seq::empty()
    }
}

/// The streams in the order in which their packets are written.
pub fn interleave(video: &Vec<i64>, audio: &Vec<i64>) -> (r: Vec<Source>)
    ensures
        r@ == interleaved(video@, audio@),
{
    let mut order: Vec<Source> = Vec::new();
    let mut v: usize = 0;
    let mut a: usize = 0;
    proof {
        assert(video@.skip(0) =~= video@);
        assert(audio@.skip(0) =~= audio@);
        assert(order@ + interleaved(video@, audio@) =~= interleaved(video@, audio@));
    }
    while v < video.len() || a < audio.len()
        invariant
            v <= video.len(),
            a <= audio.len(),
            order@ + interleaved(video@.skip(v as int), audio@.skip(a as int)) == interleaved(
                video@,
                audio@,
            ),
        decreases video.len() - v + audio.len() - a,
    {
        let ghost before = order@;
        let ghost rest_video = video@.skip(v as int);
        let ghost rest_audio = audio@.skip(a as int);
        proof {
            if v < video.len() {
                assert(rest_video.skip(1) =~= video@.skip(v + 1));
            }
            if a < audio.len() {
                assert(rest_audio.skip(1) =~= audio@.skip(a + 1));
            }
        }
        if v < video.len() && a < audio.len() && audio[a] < video[v] {
            order.push(Source::Audio);
            proof {
                assert(before.push(Source::Audio) + interleaved(rest_video, audio@.skip(a + 1))
                    =~= before + interleaved(rest_video, rest_audio));
            }
            a = a + 1;
        } else if v < video.len() {
            order.push(Source::Video);
            proof {
                assert(before.push(Source::Video) + interleaved(video@.skip(v + 1), rest_audio)
                    =~= before + interleaved(rest_video, rest_audio));
            }
            v = v + 1;
        } else {
            order.push(Source::Audio);
            proof {
                assert(before.push(Source::Audio) + interleaved(rest_video, audio@.skip(a + 1))
                    =~= before + interleaved(rest_video, rest_audio));
            }
            a = a + 1;
        }
    }
    proof {
        assert(order@ + Seq::<Source>::empty() =~= order@);
    }
    order
}

/// The moments at which the packets begin, in the order in which they are written.
pub open spec fn written(order: Seq<Source>, video: Seq<i64>, audio: Seq<i64>) -> Seq<i64>
    decreases order.len(),
{
    if order.len() == 0 {
        Seq::empty()
    } else {
        match order[0] {
            Source::Video => seq![video[0]] + written(order.skip(1), video.skip(1), audio),
            Source::Audio => seq![audio[0]] + written(order.skip(1), video, audio.skip(1)),
        }
    }
}

/// Moments that do not go back.
pub open spec fn ascending(moments: Seq<i64>) -> bool {
    forall|i: int, j: int|
        0 <= i <= j < moments.len() ==> #[trigger] moments[i] <= #[trigger] moments[j]
}

/// Every moment of a run is at least `least`.
pub open spec fn from_on(moments: Seq<i64>, least: i64) -> bool {
    forall|i: int| 0 <= i < moments.len() ==> #[trigger] moments[i] >= least
}

proof fn lemma_written(video: Seq<i64>, audio: Seq<i64>, least: i64)
    requires
        ascending(video),
        ascending(audio),
        from_on(video, least),
        from_on(audio, least),
    ensures
        written(interleaved(video, audio), video, audio).len() == video.len() + audio.len(),
        ascending(written(interleaved(video, audio), video, audio)),
        from_on(written(interleaved(video, audio), video, audio), least),
    decreases video.len() + audio.len(),
{
    let order = interleaved(video, audio);
    if video.len() == 0 && audio.len() == 0 {
    } else if video.len() > 0 && !(audio.len() > 0 && audio[0] < video[0]) {
        let rest = video.skip(1);
        assert forall|i: int, j: int|
            0 <= i <= j < rest.len() implies #[trigger] rest[i] <= #[trigger] rest[j] by {
            assert(video[i + 1] <= video[j + 1]);
        }
        assert forall|i: int| 0 <= i < rest.len() implies #[trigger] rest[i] >= video[0] by {
            assert(video[0] <= video[i + 1]);
        }
        assert forall|i: int| 0 <= i < audio.len() implies #[trigger] audio[i] >= video[0] by {
            assert(audio[0] <= audio[i]);
        }
        lemma_written(rest, audio, video[0]);
        assert(order.skip(1) =~= interleaved(rest, audio));
    } else {
        let rest = audio.skip(1);
        assert forall|i: int, j: int|
            0 <= i <= j < rest.len() implies #[trigger] rest[i] <= #[trigger] rest[j] by {
            assert(audio[i + 1] <= audio[j + 1]);
        }
        assert forall|i: int| 0 <= i < rest.len() implies #[trigger] rest[i] >= audio[0] by {
            assert(audio[0] <= audio[i + 1]);
        }
        assert forall|i: int| 0 <= i < video.len() implies #[trigger] video[i] >= audio[0] by {
            assert(video[0] <= video[i]);
        }
        lemma_written(video, rest, audio[0]);
        assert(order.skip(1) =~= interleaved(video, rest));
    }
}

/// The packets of two streams that are each in order are written in order, and none is left out.
pub proof fn lemma_written_in_order(video: Seq<i64>, audio: Seq<i64>)
    requires
        ascending(video),
        ascending(audio),
    ensures
        written(interleaved(video, audio), video, audio).len() == video.len() + audio.len(),
        ascending(written(interleaved(video, audio), video, audio)),
{
    lemma_written(video, audio, i64::MIN);
}

/// A packet's times in a clip that begins at `offset`.
pub fn shifted(pts: Option<i64>, dts: Option<i64>, offset: i64) -> (r: Result<(i64, i64), String>)
    ensures
        if pts is None {
            r matches Err(message) && message@ == "missing PTS"@
        } else if !(i64::MIN <= pts->Some_0 - offset <= i64::MAX) {
            r matches Err(message) && message@ == "PTS overflow"@
        } else if dts is None {
            r matches Err(message) && message@ == "missing DTS"@
        } else if !(i64::MIN <= dts->Some_0 - offset <= i64::MAX) {
            r matches Err(message) && message@ == "DTS overflow"@
        } else {
            r matches Ok((p, d)) && p == pts->Some_0 - offset && d == dts->Some_0 - offset
        },
{
    let shown: i64 = match pts {
        None => {
            return Err("missing PTS".to_owned());
        },
        Some(pts) => match pts.checked_sub(offset) {
            None => {
                return Err("PTS overflow".to_owned());
            },
            Some(shown) => shown,
        },
    };
    match dts {
        None => Err("missing DTS".to_owned()),
        Some(dts) => match dts.checked_sub(offset) {
            None => Err("DTS overflow".to_owned()),
            Some(decoded) => Ok((shown, decoded)),
        },
    }
}

/// A name of a file stands at the end of its path and has no separator in it.
pub proof fn lemma_file_name(path: Seq<char>)
    ensures
        crate::text::has_suffix(path, file_name(path)),
        !file_name(path).contains('/'),
        file_name(path).len() < path.len() ==> path[path.len() - file_name(path).len() - 1] == '/',
    decreases path.len(),
{
    if path.len() == 0 || path.last() == '/' {
        assert(path.skip(path.len() as int) =~= Seq::<char>::empty());
    } else {
        let shorter = path.drop_last();
        lemma_file_name(shorter);
        let name = file_name(path);
        assert forall|i: int| 0 <= i < name.len() implies name[i] != '/' by {
            if i < name.len() - 1 {
                assert(name[i] == file_name(shorter)[i]);
                assert(file_name(shorter).contains(name[i]));
            }
        }
        let before = shorter.len() - file_name(shorter).len();
        assert(shorter.skip(before) == file_name(shorter));
        assert(path.skip(path.len() - name.len()) =~= name) by {
            assert forall|i: int| 0 <= i < name.len() implies path[path.len() - name.len() + i]
                == name[i] by {
                if i < name.len() - 1 {
                    assert(shorter.skip(before)[i] == shorter[before + i]);
                }
            }
        }
    }
}

/// A file that is being written lies beside the one that it becomes: its name is that name, the
/// process and the number, and a mark.
pub proof fn lemma_partial(path: &str, pid: u32, number: u64, partial: Result<String, String>)
    requires
        call_ensures(partial_path, (path, pid, number), partial),
    ensures
        partial is Ok <==> names_file(bare(path@)),
        partial matches Ok(partial) ==> {
            let whole = bare(path@);
            let name = file_name(whole);
            partial@ == crate::paths::joined(
                bare(whole.take(whole.len() - name.len())),
                name + "."@ + crate::text::decimal(pid as nat) + "."@ + crate::text::decimal(
                    number as nat,
                ) + ".partial"@,
            ) && crate::text::has_suffix(partial@, ".partial"@)
        },
{
    if let Ok(partial) = partial {
        let whole = bare(path@);
        let name = file_name(whole);
        let short = name + "."@ + crate::text::decimal(pid as nat) + "."@ + crate::text::decimal(
            number as nat,
        ) + ".partial"@;
        crate::paths::lemma_joined(bare(whole.take(whole.len() - name.len())), short);
        assert(partial@.skip(partial@.len() - short.len()) == short);
        assert(partial@.skip(partial@.len() - ".partial"@.len()) =~= ".partial"@) by {
            assert(short.skip(short.len() - ".partial"@.len()) =~= ".partial"@);
            assert forall|i: int| 0 <= i < ".partial"@.len() implies partial@[partial@.len()
                - ".partial"@.len() + i] == ".partial"@[i] by {
                let k = short.len() - ".partial"@.len() + i;
                assert(partial@.skip(partial@.len() - short.len())[k] == short[k]);
            }
        }
    }
}

/// A path without a separator or a dot at its end is bare already, and nothing at its beginning is
/// lost.
pub proof fn lemma_bare(path: Seq<char>)
    ensures
        bare(path).len() <= path.len(),
        bare(path) == path.take(bare(path).len() as int),
        bare(path).len() > 1 ==> bare(path).last() != '/',
        path.len() > 0 && path.last() != '/' && path.last() != '.' ==> bare(path) == path,
        forall|i: int|
            bare(path).len() <= i < path.len() ==> #[trigger] path[i] == '/' || path[i] == '.',
    decreases path.len(),
{
    if path.len() > 1 && (path.last() == '/' || (path.last() == '.' && path[path.len() - 2]
        == '/')) {
        let shorter = path.drop_last();
        lemma_bare(shorter);
        assert(shorter.take(bare(shorter).len() as int) =~= path.take(bare(shorter).len() as int));
        assert forall|i: int| bare(path).len() <= i < path.len() implies #[trigger] path[i] == '/'
            || path[i] == '.' by {
            if i < path.len() - 1 {
                assert(shorter[i] == path[i]);
            }
        }
    } else {
        assert(path.take(path.len() as int) =~= path);
    }
}

/// A name is reserved where its file is created; a name that is taken is tried again, 32 times at
/// most.
pub proof fn lemma_reserved(tried: u32, created: Created, attempt: Attempt)
    requires
        tried < NAME_ATTEMPTS,
        call_ensures(reserve, (tried, created), attempt),
    ensures
        attempt is Done <==> created is Done,
        attempt is Again <==> created is AlreadyThere && tried < 31,
        created matches Created::Failed(error) ==> (attempt matches Attempt::Failed(message)
            && message@ == "create output: "@ + error@),
{
}

/// A clip may be written where its name ends as clips' do and nothing is there.
pub proof fn lemma_output_checked(
    path: &str,
    exists_already: Result<bool, String>,
    r: Result<(), String>,
)
    requires
        call_ensures(check_output, (path, exists_already), r),
    ensures
        r is Ok <==> names_clip(path@) && exists_already == Ok::<bool, String>(false),
        names_clip(path@) ==> crate::text::has_suffix(bare(path@), ".mkv"@) && file_name(
            bare(path@),
        ).len() > 4,
        names_clip(path@) ==> (exists_already matches Err(error) ==> r->Err_0@ == "check output: "@
            + error@),
{
}

/// Both moments of a packet are shifted by the same offset, and only where both are there and the
/// result fits.
pub proof fn lemma_shifted(
    pts: Option<i64>,
    dts: Option<i64>,
    offset: i64,
    r: Result<(i64, i64), String>,
)
    requires
        call_ensures(shifted, (pts, dts, offset), r),
    ensures
        r matches Ok((p, d)) ==> pts == Some((p + offset) as i64) && dts == Some((d + offset) as i64)
            && i64::MIN <= p + offset <= i64::MAX && i64::MIN <= d + offset <= i64::MAX,
        r is Ok <==> pts is Some && dts is Some && i64::MIN <= pts->Some_0 - offset <= i64::MAX
            && i64::MIN <= dts->Some_0 - offset <= i64::MAX,
{
}

/// What is written is all of both streams: as many packets of each as there are.
pub proof fn lemma_interleaved_counts(video: Seq<i64>, audio: Seq<i64>)
    ensures
        interleaved(video, audio).len() == video.len() + audio.len(),
        interleaved(video, audio).to_multiset().count(Source::Video) == video.len(),
        interleaved(video, audio).to_multiset().count(Source::Audio) == audio.len(),
        video.len() > 0 && audio.len() > 0 && audio[0] < video[0] ==> interleaved(video, audio)[0]
            == Source::Audio,
        video.len() > 0 && audio.len() > 0 && video[0] <= audio[0] ==> interleaved(video, audio)[0]
            == Source::Video,
    decreases video.len() + audio.len(),
{
    broadcast use vstd::seq_lib::group_to_multiset_ensures;

    if video.len() > 0 && audio.len() > 0 && audio[0] < video[0] {
        let rest = interleaved(video, audio.skip(1));
        lemma_interleaved_counts(video, audio.skip(1));
        vstd::seq_lib::lemma_multiset_commutative(seq![Source::Audio], rest);
        assert(seq![Source::Audio] =~= Seq::empty().push(Source::Audio));
    } else if video.len() > 0 {
        let rest = interleaved(video.skip(1), audio);
        lemma_interleaved_counts(video.skip(1), audio);
        vstd::seq_lib::lemma_multiset_commutative(seq![Source::Video], rest);
        assert(seq![Source::Video] =~= Seq::empty().push(Source::Video));
    } else if audio.len() > 0 {
        let rest = interleaved(video, audio.skip(1));
        lemma_interleaved_counts(video, audio.skip(1));
        vstd::seq_lib::lemma_multiset_commutative(seq![Source::Audio], rest);
        assert(seq![Source::Audio] =~= Seq::empty().push(Source::Audio));
    }
}

/// What is written stays within the file's limit; what failed is told with where the output stays.
pub proof fn lemma_limited(
    file: &LimitedFile,
    count: u64,
    checked: Result<(), String>,
    error: &str,
    partial: &str,
    told: String,
    bytes: u64,
    some: Result<u64, String>,
)
    requires
        call_ensures(LimitedFile::check, (file, count), checked),
        call_ensures(export_error, (error, partial), told),
        call_ensures(nonempty, (bytes,), some),
    ensures
        checked is Ok <==> file.position + count <= file.limit,
        told@ == error@ + "; partial output: "@ + partial@,
        some is Ok <==> bytes > 0,
        some matches Ok(same) ==> same == bytes,
{
}

} // verus!
