//! The arrow of the user's cursor theme.
use vstd::prelude::*;

use crate::paths::{join, Environment};
use crate::pixels::{Image, Rgba};
use crate::text::{
    contains_char, lines, parse_integer, same, split_parts, strip_prefix, trim, trim_start,
};

verus! {

/// The kind of a table entry that stands for a picture.
pub const IMAGE_TYPE: u32 = 0xfffd_0002;

/// A pointer.
#[derive(Debug, PartialEq, Eq)]
pub struct Cursor {
    /// Straight, not premultiplied, colours.
    pub image: Image<Rgba>,
    pub hotspot: (u32, u32),
}

/// The number in the four bytes at `offset`, the least significant one first.
pub open spec fn le32(bytes: Seq<u8>, offset: int) -> Option<u32> {
    if 0 <= offset && offset + 4 <= bytes.len() {
        Some(
            (bytes[offset] + bytes[offset + 1] * 256 + bytes[offset + 2] * 65536 + bytes[offset + 3]
                * 16777216) as u32,
        )
    } else {
        None
    }
}

/// The number in the four bytes at `offset`, the least significant one first.
pub fn u32_at(bytes: &[u8], offset: u64) -> (r: Option<u32>)
    ensures
        r == le32(bytes@, offset as int),
{
    if bytes.len() < 4 || offset > (bytes.len() - 4) as u64 {
        return None;
    }
    let at: usize = offset as usize;
    Some(
        bytes[at] as u32 + bytes[at + 1] as u32 * 256 + bytes[at + 2] as u32 * 65536 + bytes[at
            + 3] as u32 * 16777216,
    )
}

/// The pictures among the first `count` table entries, each as its nominal size and its place. The
/// table begins at `header`.
pub open spec fn entries(bytes: Seq<u8>, header: int, count: int) -> Seq<(u32, u32)>
    decreases count,
{
    if count <= 0 {
        Seq::empty()
    } else {
        let before = entries(bytes, header, count - 1);
        let entry = header + 12 * (count - 1);
        match (le32(bytes, entry), le32(bytes, entry + 4), le32(bytes, entry + 8)) {
            (Some(kind), Some(size), Some(place)) if kind == IMAGE_TYPE => before.push((size, place)),
            _ => before,
        }
    }
}

/// How far two sizes are apart.
pub open spec fn distance(size: u32, target: u32) -> int {
    if size < target {
        target - size
    } else {
        size - target
    }
}

/// The first entry whose size is closest to `target`.
pub open spec fn closest(entries: Seq<(u32, u32)>, target: u32) -> Option<(u32, u32)>
    decreases entries.len(),
{
    if entries.len() == 0 {
        None
    } else {
        match closest(entries.drop_last(), target) {
            Some(best) if distance(best.0, target) <= distance(entries.last().0, target) => Some(
                best,
            ),
            _ => Some(entries.last()),
        }
    }
}

/// The entry that is closest is one of the entries, none is closer, and those before it are all
/// farther away.
pub proof fn lemma_closest(entries: Seq<(u32, u32)>, target: u32)
    ensures
        entries.len() == 0 <==> closest(entries, target) is None,
        entries.len() > 0 ==> exists|k: int|
            {
                &&& 0 <= k < entries.len()
                &&& closest(entries, target) == Some(#[trigger] entries[k])
                &&& forall|j: int|
                    0 <= j < entries.len() ==> distance(entries[k].0, target) <= distance(
                        (#[trigger] entries[j]).0,
                        target,
                    )
                &&& forall|j: int|
                    0 <= j < k ==> distance(entries[k].0, target) < distance(
                        (#[trigger] entries[j]).0,
                        target,
                    )
            },
    decreases entries.len(),
{
    if entries.len() > 0 {
        let rest = entries.drop_last();
        lemma_closest(rest, target);
        let last = entries.len() - 1;
        if rest.len() == 0 {
            assert(entries[last] == entries.last());
        } else {
            let k = choose|k: int|
                {
                    &&& 0 <= k < rest.len()
                    &&& closest(rest, target) == Some(#[trigger] rest[k])
                    &&& forall|j: int|
                        0 <= j < rest.len() ==> distance(rest[k].0, target) <= distance(
                            (#[trigger] rest[j]).0,
                            target,
                        )
                    &&& forall|j: int|
                        0 <= j < k ==> distance(rest[k].0, target) < distance(
                            (#[trigger] rest[j]).0,
                            target,
                        )
                };
            assert(entries[k] == rest[k]);
            assert(forall|j: int| 0 <= j < rest.len() ==> entries[j] == rest[j]);
            if distance(rest[k].0, target) <= distance(entries.last().0, target) {
                assert(closest(entries, target) == Some(entries[k]));
            } else {
                assert(closest(entries, target) == Some(entries[last]));
            }
        }
    }
}

/// The smaller of two.
pub open spec fn least(a: u32, b: u32) -> u32 {
    if a < b {
        a
    } else {
        b
    }
}

/// The straight value of a premultiplied colour `c` at the opacity `a`, rounded.
pub open spec fn straight(c: u8, a: u8) -> u8 {
    if a == 0 {
        0
    } else {
        let value = (c * 255 + a as int / 2) / a as int;
        if value > 255 {
            255
        } else {
            value as u8
        }
    }
}

/// The straight colour of the premultiplied pixel at `at`.
pub open spec fn straight_pixel(bytes: Seq<u8>, at: int) -> Rgba {
    let a = bytes[at + 3];
    Rgba {
        r: straight(bytes[at + 2], a),
        g: straight(bytes[at + 1], a),
        b: straight(bytes[at], a),
        a,
    }
}

/// The width, height and hotspot of the picture at `place`, and where its pixels begin.
pub open spec fn picture(bytes: Seq<u8>, place: int) -> Option<(u32, u32, (u32, u32), int)> {
    match (
        le32(bytes, place + 16),
        le32(bytes, place + 20),
        le32(bytes, place + 24),
        le32(bytes, place + 28),
        le32(bytes, place),
    ) {
        (Some(width), Some(height), Some(x), Some(y), Some(size)) => if 0 < width <= 1024 && 0
            < height <= 1024 && place + size + 4 * (width * height) <= bytes.len() {
            Some(
                (
                    width,
                    height,
                    (least(x, (width - 1) as u32), least(y, (height - 1) as u32)),
                    place + size,
                ),
            )
        } else {
            None
        },
        _ => None,
    }
}

/// What the file holds for `target`: the picture whose nominal size is closest.
pub open spec fn chosen(bytes: Seq<u8>, target: u32) -> Option<(u32, u32, (u32, u32), int)> {
    if bytes.len() < 4 || bytes.take(4) != seq![88u8, 99u8, 117u8, 114u8] {
        None
    } else {
        match (le32(bytes, 4), le32(bytes, 12)) {
            (Some(header), Some(count)) => match closest(
                entries(bytes, header as int, least(count, 4096) as int),
                target,
            ) {
                Some((_, place)) => picture(bytes, place as int),
                None => None,
            },
            _ => None,
        }
    }
}

/// The straight value of a premultiplied colour `c` at the opacity `a`, rounded.
fn unmultiplied(c: u8, a: u8) -> (r: u8)
    ensures
        r == straight(c, a),
{
    if a == 0 {
        0
    } else {
        let value: u32 = (c as u32 * 255 + a as u32 / 2) / a as u32;
        if value > 255 {
            255
        } else {
            value as u8
        }
    }
}

/// The table entry that is closest to `target` among the first `count`.
fn closest_entry(bytes: &[u8], header: u32, count: u32, target: u32) -> (r: Option<(u32, u32)>)
    ensures
        r == closest(entries(bytes@, header as int, count as int), target),
{
    let mut best: Option<(u32, u32)> = None;
    let mut i: u32 = 0;
    while i < count
        invariant
            i <= count,
            best == closest(entries(bytes@, header as int, i as int), target),
        decreases count - i,
    {
        let entry: u64 = header as u64 + 12 * (i as u64);
        let ghost before = entries(bytes@, header as int, i as int);
        let found = match (u32_at(bytes, entry), u32_at(bytes, entry + 4), u32_at(bytes, entry + 8)) {
            (Some(kind), Some(size), Some(place)) => if kind == IMAGE_TYPE {
                Some((size, place))
            } else {
                None
            },
            _ => None,
        };
        if let Some((size, place)) = found {
            proof {
                assert(entries(bytes@, header as int, i + 1) == before.push((size, place)));
                assert(before.push((size, place)).drop_last() =~= before);
            }
            best = match best {
                Some(old) => {
                    let old_distance: u32 = if old.0 < target {
                        target - old.0
                    } else {
                        old.0 - target
                    };
                    let new_distance: u32 = if size < target {
                        target - size
                    } else {
                        size - target
                    };
                    if old_distance <= new_distance {
                        Some(old)
                    } else {
                        Some((size, place))
                    }
                },
                None => Some((size, place)),
            };
        }
        i = i + 1;
    }
    best
}

/// The first picture of the nominal size closest to `target` in an Xcursor file, with straight
/// colours. Of the table the first 4096 entries count, and a picture has at most 1024 pixels in
/// each direction.
pub fn parse(bytes: &[u8], target: u32) -> (r: Option<Cursor>)
    ensures
        match chosen(bytes@, target) {
            None => r is None,
            Some((width, height, hotspot, start)) => r matches Some(cursor) && {
                &&& cursor.image.width == width
                &&& cursor.image.height == height
                &&& cursor.hotspot == hotspot
                &&& cursor.image.well_formed()
                &&& forall|i: int|
                    0 <= i < cursor.image.pixels@.len() ==> #[trigger] cursor.image.pixels@[i]
                        == straight_pixel(bytes@, start + 4 * i)
            },
        },
{
    if bytes.len() < 4 || bytes[0] != 88 || bytes[1] != 99 || bytes[2] != 117 || bytes[3] != 114 {
        proof {
            if bytes@.len() >= 4 && bytes@.take(4) == seq![88u8, 99u8, 117u8, 114u8] {
                assert(bytes@.take(4)[0] == 88 && bytes@.take(4)[1] == 99 && bytes@.take(4)[2] == 117
                    && bytes@.take(4)[3] == 114);
            }
        }
        return None;
    }
    proof {
        assert(bytes@.take(4) =~= seq![88u8, 99u8, 117u8, 114u8]);
    }
    let header: u32 = match u32_at(bytes, 4) {
        Some(header) => header,
        None => {
            return None;
        },
    };
    let count: u32 = match u32_at(bytes, 12) {
        Some(count) => if count < 4096 {
            count
        } else {
            4096
        },
        None => {
            return None;
        },
    };
    let place: u64 = match closest_entry(bytes, header, count, target) {
        Some((_, place)) => place as u64,
        None => {
            return None;
        },
    };
    match (
        u32_at(bytes, place + 16),
        u32_at(bytes, place + 20),
        u32_at(bytes, place + 24),
        u32_at(bytes, place + 28),
        u32_at(bytes, place),
    ) {
        (Some(width), Some(height), Some(x), Some(y), Some(size)) => {
            if width == 0 || height == 0 || width > 1024 || height > 1024 {
                return None;
            }
            proof {
                assert(width * height <= 1024 * 1024) by (nonlinear_arith)
                    requires
                        width <= 1024,
                        height <= 1024,
                ;
            }
            let total: u64 = width as u64 * height as u64;
            let start: u64 = place + size as u64;
            if start + 4 * total > bytes.len() as u64 {
                return None;
            }
            let hotspot = (
                if x < width - 1 {
                    x
                } else {
                    width - 1
                },
                if y < height - 1 {
                    y
                } else {
                    height - 1
                },
            );
            let mut pixels: Vec<Rgba> = Vec::new();
            let mut i: u64 = 0;
            while i < total
                invariant
                    i <= total,
                    start + 4 * total <= bytes.len(),
                    pixels@.len() == i,
                    forall|j: int|
                        0 <= j < i ==> #[trigger] pixels@[j] == straight_pixel(bytes@, start + 4 * j),
                decreases total - i,
            {
                let at: usize = (start + 4 * i) as usize;
                let a: u8 = bytes[at + 3];
                pixels.push(
                    Rgba {
                        r: unmultiplied(bytes[at + 2], a),
                        g: unmultiplied(bytes[at + 1], a),
                        b: unmultiplied(bytes[at], a),
                        a,
                    },
                );
                i = i + 1;
            }
            Some(Cursor { image: Image { width, height, pixels }, hotspot })
        },
        _ => None,
    }
}

/// The size of the user's pointer: `XCURSOR_SIZE` from 8 to 256, or else 24.
pub open spec fn nominal_size(setting: Option<Seq<char>>) -> u32 {
    match setting {
        Some(text) => match crate::text::integer(text, 0, u32::MAX as int) {
            Ok(size) if 8 <= size <= 256 => size as u32,
            _ => 24,
        },
        None => 24,
    }
}

/// The size of the user's pointer: `XCURSOR_SIZE` from 8 to 256, or else 24.
pub fn cursor_size(environment: &Environment) -> (r: u32)
    ensures
        r == nominal_size(environment.value("XCURSOR_SIZE"@)),
{
    match environment.var("XCURSOR_SIZE") {
        Some(text) => match parse_integer(text, 0, u32::MAX as u64) {
            Ok(size) => if 8 <= size && size <= 256 {
                size as u32
            } else {
                24
            },
            Err(_) => 24,
        },
        None => 24,
    }
}

/// Where cursor themes are looked for.
pub open spec fn search_dirs(path: Option<Seq<char>>, home: Option<Seq<char>>) -> Seq<Seq<char>> {
    match path {
        Some(path) => crate::text::parts(path, ':', ':'),
        None => match home {
            Some(home) => seq![
                crate::paths::joined(home, ".local/share/icons"@),
                crate::paths::joined(home, ".icons"@),
                "/usr/share/icons"@,
                "/usr/share/pixmaps"@,
            ],
            None => seq!["/usr/share/icons"@, "/usr/share/pixmaps"@],
        },
    }
}

/// Where cursor themes are looked for: `XCURSOR_PATH`, or else the user's and the system's icons.
pub fn search_path(environment: &Environment) -> (r: Vec<String>)
    ensures
        crate::text::views(r@) == search_dirs(
            environment.value("XCURSOR_PATH"@),
            environment.value("HOME"@),
        ),
{
    if let Some(path) = environment.var("XCURSOR_PATH") {
        return split_parts(path, ':', ':');
    }
    let mut dirs: Vec<String> = Vec::new();
    if let Some(home) = environment.var("HOME") {
        dirs.push(join(home, ".local/share/icons"));
        dirs.push(join(home, ".icons"));
    }
    dirs.push("/usr/share/icons".to_owned());
    dirs.push("/usr/share/pixmaps".to_owned());
    proof {
        assert(crate::text::views(dirs@) =~= search_dirs(
            environment.value("XCURSOR_PATH"@),
            environment.value("HOME"@),
        ));
    }
    dirs
}

/// The names in a list that commas and semicolons separate; empty ones do not count.
pub open spec fn listed(parts: Seq<Seq<char>>) -> Seq<Seq<char>>
    decreases parts.len(),
{
    if parts.len() == 0 {
        Seq::empty()
    } else {
        let name = crate::text::trimmed(parts[0]);
        if name.len() > 0 {
            seq![name] + listed(parts.skip(1))
        } else {
            listed(parts.skip(1))
        }
    }
}

/// The list behind `Inherits =` in a line.
pub open spec fn inherit_list(line: Seq<char>) -> Option<Seq<char>> {
    match crate::text::without_prefix(crate::text::trimmed(line), "Inherits"@) {
        Some(rest) => crate::text::without_prefix(crate::text::trimmed_start(rest), "="@),
        None => None,
    }
}

/// The themes that the lines of a theme's index name as its parents.
pub open spec fn inherited(lines: Seq<Seq<char>>) -> Seq<Seq<char>>
    decreases lines.len(),
{
    if lines.len() == 0 {
        Seq::empty()
    } else {
        match inherit_list(lines[0]) {
            Some(list) => listed(crate::text::parts(list, ',', ';')) + inherited(lines.skip(1)),
            None => inherited(lines.skip(1)),
        }
    }
}

/// The themes that a theme's index names as its parents, in order.
pub fn inherits(index: &str) -> (r: Vec<String>)
    ensures
        crate::text::views(r@) == inherited(crate::text::line_views(index@)),
{
    let lines = lines(index);
    let ghost all = crate::text::views(lines@);
    let mut names: Vec<String> = Vec::new();
    let mut i: usize = 0;
    proof {
        assert(all.skip(0) =~= all);
        assert(crate::text::views(names@) + inherited(all) =~= inherited(all));
    }
    while i < lines.len()
        invariant
            i <= lines.len(),
            all == crate::text::views(lines@),
            crate::text::views(names@) + inherited(all.skip(i as int)) == inherited(all),
        decreases lines.len() - i,
    {
        let ghost rest = all.skip(i as int);
        proof {
            assert(rest[0] == lines@[i as int]@);
            assert(rest.skip(1) =~= all.skip(i + 1));
        }
        let line = trim(lines[i].as_str());
        if let Some(tail) = strip_prefix(line.as_str(), "Inherits") {
            if let Some(list) = strip_prefix(trim_start(tail.as_str()).as_str(), "=") {
                let parts = split_parts(list.as_str(), ',', ';');
                let ghost pieces = crate::text::views(parts@);
                let ghost known = crate::text::views(names@);
                let mut j: usize = 0;
                proof {
                    assert(pieces.skip(0) =~= pieces);
                }
                while j < parts.len()
                    invariant
                        j <= parts.len(),
                        pieces == crate::text::views(parts@),
                        crate::text::views(names@) + listed(pieces.skip(j as int)) == known + listed(
                            pieces,
                        ),
                    decreases parts.len() - j,
                {
                    let ghost before = crate::text::views(names@);
                    proof {
                        assert(pieces.skip(j as int)[0] == parts@[j as int]@);
                        assert(pieces.skip(j as int).skip(1) =~= pieces.skip(j + 1));
                    }
                    let name = trim(parts[j].as_str());
                    if !name.as_str().is_empty() {
                        names.push(name);
                        proof {
                            assert(crate::text::views(names@) =~= before.push(name@));
                            assert(before.push(name@) + listed(pieces.skip(j + 1)) =~= before + (seq![
                                name@,
                            ] + listed(pieces.skip(j + 1))));
                        }
                    }
                    j = j + 1;
                }
                proof {
                    assert(pieces.skip(j as int) =~= Seq::<Seq<char>>::empty());
                    assert(crate::text::views(names@) + Seq::<Seq<char>>::empty()
                        =~= crate::text::views(names@));
                    assert(known + (listed(pieces) + inherited(all.skip(i + 1))) =~= (known + listed(
                        pieces,
                    )) + inherited(all.skip(i + 1)));
                }
            }
        }
        i = i + 1;
    }
    proof {
        assert(all.skip(i as int) =~= Seq::<Seq<char>>::empty());
        assert(crate::text::views(names@) + Seq::<Seq<char>>::empty() =~= crate::text::views(names@));
    }
    names
}

/// What is known of the icon directories: the cursor files that exist, and the themes' indexes with
/// their text.
pub struct IconFiles {
    pub cursors: Vec<String>,
    pub indexes: Vec<(String, String)>,
}

impl IconFiles {
    /// There is a cursor file at `path`.
    pub open spec fn has_cursor(&self, path: Seq<char>) -> bool {
        exists|i: int| 0 <= i < self.cursors@.len() && (#[trigger] self.cursors@[i])@ == path
    }

    /// The text of the index at `path`.
    pub open spec fn index(&self, path: Seq<char>) -> Option<Seq<char>> {
        crate::paths::lookup(self.indexes@, path)
    }

    /// The cursor file `name` of the theme in `dir`.
    pub open spec fn cursor_path(dir: Seq<char>, theme: Seq<char>, name: Seq<char>) -> Seq<char> {
        crate::paths::joined(
            crate::paths::joined(crate::paths::joined(dir, theme), "cursors"@),
            name,
        )
    }

    /// The first arrow of the theme itself: the directories count first, then the names of an
    /// arrow.
    pub open spec fn own_arrow(&self, theme: Seq<char>, dirs: Seq<Seq<char>>) -> Option<Seq<char>>
        decreases dirs.len(),
    {
        if dirs.len() == 0 {
            None
        } else if self.has_cursor(IconFiles::cursor_path(dirs[0], theme, "left_ptr"@)) {
            Some(IconFiles::cursor_path(dirs[0], theme, "left_ptr"@))
        } else if self.has_cursor(IconFiles::cursor_path(dirs[0], theme, "default"@)) {
            Some(IconFiles::cursor_path(dirs[0], theme, "default"@))
        } else if self.has_cursor(IconFiles::cursor_path(dirs[0], theme, "arrow"@)) {
            Some(IconFiles::cursor_path(dirs[0], theme, "arrow"@))
        } else {
            self.own_arrow(theme, dirs.skip(1))
        }
    }

    /// The parents of a theme, those from earlier directories first.
    pub open spec fn parents(&self, theme: Seq<char>, dirs: Seq<Seq<char>>) -> Seq<Seq<char>>
        decreases dirs.len(),
    {
        if dirs.len() == 0 {
            Seq::empty()
        } else {
            let rest = self.parents(theme, dirs.skip(1));
            match self.index(
                crate::paths::joined(crate::paths::joined(dirs[0], theme), "index.theme"@),
            ) {
                Some(text) => inherited(crate::text::line_views(text)) + rest,
                None => rest,
            }
        }
    }

    /// The arrow of a theme, or of the first of its parents that has one, a few steps deep. A theme
    /// is a name and no path.
    pub open spec fn arrow(&self, theme: Seq<char>, dirs: Seq<Seq<char>>, depth: nat) -> Option<
        Seq<char>,
    >
        decreases 6 - depth, 0nat,
    {
        if depth > 4 || theme.contains('/') {
            None
        } else {
            match self.own_arrow(theme, dirs) {
                Some(path) => Some(path),
                None => self.first_arrow(self.parents(theme, dirs), dirs, depth + 1),
            }
        }
    }

    /// The arrow of the first of `themes` that has one.
    pub open spec fn first_arrow(&self, themes: Seq<Seq<char>>, dirs: Seq<Seq<char>>, depth: nat)
        -> Option<Seq<char>>
        decreases 6 - depth, themes.len() + 1,
    {
        if themes.len() == 0 || depth > 5 {
            None
        } else {
            match self.arrow(themes[0], dirs, depth) {
                Some(path) => Some(path),
                None => self.first_arrow(themes.skip(1), dirs, depth),
            }
        }
    }
}

/// There is a cursor file at `path`.
fn cursor_exists(files: &IconFiles, path: &str) -> (r: bool)
    ensures
        r == files.has_cursor(path@),
{
    let mut i: usize = 0;
    while i < files.cursors.len()
        invariant
            i <= files.cursors.len(),
            forall|j: int| 0 <= j < i ==> (#[trigger] files.cursors@[j])@ != path@,
        decreases files.cursors.len() - i,
    {
        if same(files.cursors[i].as_str(), path) {
            assert(files.cursors@[i as int]@ == path@);
            return true;
        }
        i = i + 1;
    }
    false
}

/// The first arrow of the theme itself.
fn own_arrow(files: &IconFiles, theme: &str, dirs: &Vec<String>) -> (r: Option<String>)
    ensures
        crate::text::view_of(r) == files.own_arrow(theme@, crate::text::views(dirs@)),
{
    let ghost all = crate::text::views(dirs@);
    let mut i: usize = 0;
    proof {
        assert(all.skip(0) =~= all);
    }
    while i < dirs.len()
        invariant
            i <= dirs.len(),
            all == crate::text::views(dirs@),
            files.own_arrow(theme@, all) == files.own_arrow(theme@, all.skip(i as int)),
        decreases dirs.len() - i,
    {
        proof {
            assert(all.skip(i as int)[0] == dirs@[i as int]@);
            assert(all.skip(i as int).skip(1) =~= all.skip(i + 1));
        }
        let cursors = join(join(dirs[i].as_str(), theme).as_str(), "cursors");
        let file = join(cursors.as_str(), "left_ptr");
        if cursor_exists(files, file.as_str()) {
            return Some(file);
        }
        let file = join(cursors.as_str(), "default");
        if cursor_exists(files, file.as_str()) {
            return Some(file);
        }
        let file = join(cursors.as_str(), "arrow");
        if cursor_exists(files, file.as_str()) {
            return Some(file);
        }
        i = i + 1;
    }
    None
}

/// The text of the index at `path`.
fn index_text<'a>(files: &'a IconFiles, path: &str) -> (r: Option<&'a str>)
    ensures
        files.index(path@) == (match r {
            Some(text) => Some(text@),
            None => None,
        }),
{
    let mut i: usize = 0;
    proof {
        assert(files.indexes@.skip(0) =~= files.indexes@);
    }
    while i < files.indexes.len()
        invariant
            i <= files.indexes.len(),
            crate::paths::lookup(files.indexes@, path@) == crate::paths::lookup(
                files.indexes@.skip(i as int),
                path@,
            ),
        decreases files.indexes.len() - i,
    {
        if same(files.indexes[i].0.as_str(), path) {
            return Some(files.indexes[i].1.as_str());
        }
        proof {
            assert(files.indexes@.skip(i as int).skip(1) =~= files.indexes@.skip(i + 1));
        }
        i = i + 1;
    }
    None
}

/// The parents of a theme, those from earlier directories first.
fn parents(files: &IconFiles, theme: &str, dirs: &Vec<String>) -> (r: Vec<String>)
    ensures
        crate::text::views(r@) == files.parents(theme@, crate::text::views(dirs@)),
{
    let ghost all = crate::text::views(dirs@);
    let mut found: Vec<String> = Vec::new();
    let mut i: usize = 0;
    proof {
        assert(all.skip(0) =~= all);
        assert(crate::text::views(found@) + files.parents(theme@, all) =~= files.parents(theme@, all));
    }
    while i < dirs.len()
        invariant
            i <= dirs.len(),
            all == crate::text::views(dirs@),
            crate::text::views(found@) + files.parents(theme@, all.skip(i as int)) == files.parents(
                theme@,
                all,
            ),
        decreases dirs.len() - i,
    {
        proof {
            assert(all.skip(i as int)[0] == dirs@[i as int]@);
            assert(all.skip(i as int).skip(1) =~= all.skip(i + 1));
        }
        let path = join(join(dirs[i].as_str(), theme).as_str(), "index.theme");
        if let Some(text) = index_text(files, path.as_str()) {
            let ghost before = crate::text::views(found@);
            let mut names = inherits(text);
            let ghost added = crate::text::views(names@);
            found.append(&mut names);
            proof {
                assert(crate::text::views(found@) =~= before + added);
                assert((before + added) + files.parents(theme@, all.skip(i + 1)) =~= before + (added
                    + files.parents(theme@, all.skip(i + 1))));
            }
        }
        i = i + 1;
    }
    proof {
        assert(all.skip(i as int) =~= Seq::<Seq<char>>::empty());
        assert(crate::text::views(found@) + Seq::<Seq<char>>::empty() =~= crate::text::views(found@));
    }
    found
}

/// The cursor file for the arrow of `theme`, or of the first of its parents that has one, a few
/// steps deep.
pub fn find(theme: &str, dirs: &Vec<String>, files: &IconFiles, depth: u32) -> (r: Option<String>)
    ensures
        crate::text::view_of(r) == files.arrow(theme@, crate::text::views(dirs@), depth as nat),
    decreases 6 - depth,
{
    if depth > 4 || contains_char(theme, '/') {
        return None;
    }
    if let Some(path) = own_arrow(files, theme, dirs) {
        return Some(path);
    }
    let themes = parents(files, theme, dirs);
    let ghost all = crate::text::views(themes@);
    let ghost places = crate::text::views(dirs@);
    let mut i: usize = 0;
    proof {
        assert(all.skip(0) =~= all);
    }
    while i < themes.len()
        invariant
            i <= themes.len(),
            depth <= 4,
            all == crate::text::views(themes@),
            places == crate::text::views(dirs@),
            files.arrow(theme@, places, depth as nat) == files.first_arrow(
                all.skip(i as int),
                places,
                (depth + 1) as nat,
            ),
        decreases themes.len() - i,
    {
        proof {
            assert(all.skip(i as int)[0] == themes@[i as int]@);
            assert(all.skip(i as int).skip(1) =~= all.skip(i + 1));
        }
        if let Some(path) = find(themes[i].as_str(), dirs, files, depth + 1) {
            return Some(path);
        }
        i = i + 1;
    }
    None
}

/// A number of four bytes has its lowest byte first.
pub proof fn lemma_le32(bytes: Seq<u8>, offset: int)
    ensures
        le32(bytes, offset) is Some <==> 0 <= offset && offset + 4 <= bytes.len(),
        le32(bytes, offset) matches Some(value) ==> {
            &&& value as int % 256 == bytes[offset]
            &&& (value as int / 256) % 256 == bytes[offset + 1]
            &&& (value as int / 65536) % 256 == bytes[offset + 2]
            &&& value as int / 16777216 == bytes[offset + 3]
        },
{
}

/// A colour is made straight again where it was dimmed: it stays where it is covered, is nothing
/// where it is not, and never too bright.
pub proof fn lemma_straight(c: u8, a: u8)
    ensures
        a == 255 ==> straight(c, a) == c,
        a == 0 ==> straight(c, a) == 0,
        a > 0 && c >= a ==> straight(c, a) == 255,
        a > 0 && c == 0 ==> straight(c, a) == 0,
        a > 0 && c <= a ==> 2 * (straight(c, a) * a) <= 2 * (c * 255) + a && 2 * (c * 255) < 2 * (
        straight(c, a) * a) + 2 * a,
{
    if a > 0 {
        let top = c * 255 + a as int / 2;
        let value = top / a as int;
        vstd::arithmetic::div_mod::lemma_fundamental_div_mod(top, a as int);
        vstd::arithmetic::div_mod::lemma_mod_bound(top, a as int);
        assert(a as int * value == value * a) by (nonlinear_arith);
        assert(value >= 0) by {
            vstd::arithmetic::div_mod::lemma_div_pos_is_pos(top, a as int);
        }
        if c >= a {
            assert(value >= 255) by (nonlinear_arith)
                requires
                    a > 0,
                    c >= a,
                    value * a + a > top,
                    top >= c * 255,
            ;
        }
        if c <= a {
            assert(value <= 255) by (nonlinear_arith)
                requires
                    a > 0,
                    c <= a,
                    value * a <= top,
                    top <= c * 255 + a / 2,
            ;
        }
        if c == 0 {
            assert(value == 0) by (nonlinear_arith)
                requires
                    a > 0,
                    value >= 0,
                    value * a <= a / 2,
            ;
        }
    }
}

/// A pixel is stored as its blue, its green, its red and how much it covers, in that order.
pub proof fn lemma_straight_pixel(bytes: Seq<u8>, at: int)
    ensures
        straight_pixel(bytes, at).a == bytes[at + 3],
        bytes[at + 3] == 255 ==> straight_pixel(bytes, at).b == bytes[at] && straight_pixel(
            bytes,
            at,
        ).g == bytes[at + 1] && straight_pixel(bytes, at).r == bytes[at + 2],
        bytes[at + 3] == 0 ==> straight_pixel(bytes, at).b == 0 && straight_pixel(bytes, at).g == 0
            && straight_pixel(bytes, at).r == 0,
{
    lemma_straight(bytes[at], bytes[at + 3]);
    lemma_straight(bytes[at + 1], bytes[at + 3]);
    lemma_straight(bytes[at + 2], bytes[at + 3]);
}

/// A picture has the size and the hot spot that are stored for it, across before down; the hot spot
/// lies in the picture.
pub proof fn lemma_picture(bytes: Seq<u8>, place: int)
    ensures
        picture(bytes, place) matches Some((width, height, hotspot, start)) ==> {
            &&& le32(bytes, place + 16) == Some(width)
            &&& le32(bytes, place + 20) == Some(height)
            &&& 0 < width <= 1024 && 0 < height <= 1024
            &&& hotspot.0 < width && hotspot.1 < height
            &&& le32(bytes, place + 24) matches Some(x) && (x < width ==> hotspot.0 == x)
            &&& le32(bytes, place + 28) matches Some(y) && (y < height ==> hotspot.1 == y)
            &&& le32(bytes, place) matches Some(size) && start == place + size
            &&& start + 4 * (width * height) <= bytes.len()
        },
{
}

/// A list of pictures has those entries whose type says so, in their order: one entry more is one
/// more at most.
pub proof fn lemma_entries(bytes: Seq<u8>, header: int, count: int)
    requires
        count >= 0,
    ensures
        ({
            let more = entries(bytes, header, count + 1);
            let before = entries(bytes, header, count);
            let entry = header + 12 * count;
            &&& le32(bytes, entry) == Some(0xfffd_0002u32) && le32(bytes, entry + 8) is Some ==> more
                == before.push((le32(bytes, entry + 4)->Some_0, le32(bytes, entry + 8)->Some_0))
            &&& le32(bytes, entry) != Some(0xfffd_0002u32) ==> more == before
        }),
        entries(bytes, header, 0).len() == 0,
{
}

/// A size that is set is used where it is from 8 to 256, and 24 otherwise.
pub proof fn lemma_nominal_size(setting: Option<Seq<char>>, size: u32)
    ensures
        8 <= nominal_size(setting) <= 256,
        8 <= size <= 256 && setting == Some(crate::text::decimal(size as nat)) ==> nominal_size(
            setting,
        ) == size,
        setting is None ==> nominal_size(setting) == 24,
        (size < 8 || size > 256) && setting == Some(crate::text::decimal(size as nat))
            ==> nominal_size(setting) == 24,
{
    crate::text::lemma_number_read_back(size as int, 0, u32::MAX as int);
}

/// Where pointers are looked for: in the directories that are set, or else below the home directory
/// before the system's.
pub proof fn lemma_search_dirs(path: Option<Seq<char>>, home: Option<Seq<char>>)
    ensures
        path matches Some(path) ==> search_dirs(Some(path), home) == crate::text::parts(
            path,
            ':',
            ':',
        ),
        path is None ==> {
            let dirs = search_dirs(path, home);
            &&& dirs.last() == "/usr/share/pixmaps"@
            &&& dirs[dirs.len() - 2] == "/usr/share/icons"@
            &&& home is None ==> dirs.len() == 2
            &&& home matches Some(home) ==> dirs.len() == 4 && dirs[0] == crate::paths::joined(
                home,
                ".local/share/icons"@,
            ) && dirs[1] == crate::paths::joined(home, ".icons"@)
        },
{
}

/// Names that are listed are without space around them, none is empty, and they stand in their order.
pub proof fn lemma_listed_names(first: Seq<Seq<char>>, second: Seq<Seq<char>>)
    ensures
        listed(first + second) == listed(first) + listed(second),
        first.len() == 1 ==> listed(first) == (if crate::text::trimmed(first[0]).len() > 0 {
            seq![crate::text::trimmed(first[0])]
        } else {
            Seq::empty()
        }),
    decreases first.len(),
{
    reveal_with_fuel(listed, 2);
    if first.len() == 0 {
        assert(first + second =~= second);
        assert(listed(first) + listed(second) =~= listed(second));
    } else {
        assert((first + second).skip(1) =~= first.skip(1) + second);
        lemma_listed_names(first.skip(1), second);
        assert(listed(first + second) =~= listed(first) + listed(second));
    }
    if first.len() == 1 {
        assert(first.skip(1) =~= Seq::empty());
        assert(listed(first) =~= (if crate::text::trimmed(first[0]).len() > 0 {
            seq![crate::text::trimmed(first[0])]
        } else {
            Seq::empty()
        }));
    }
}

/// A theme inherits what its lines say, one behind the other.
pub proof fn lemma_inherited(first: Seq<Seq<char>>, second: Seq<Seq<char>>)
    ensures
        inherited(first + second) == inherited(first) + inherited(second),
        first.len() == 1 && inherit_list(first[0]) is None ==> inherited(first).len() == 0,
        first.len() == 1 ==> (inherit_list(first[0]) matches Some(list) ==> inherited(first)
            == listed(crate::text::parts(list, ',', ';'))),
    decreases first.len(),
{
    reveal_with_fuel(inherited, 2);
    if first.len() == 0 {
        assert(first + second =~= second);
        assert(inherited(first) + inherited(second) =~= inherited(second));
    } else {
        assert((first + second).skip(1) =~= first.skip(1) + second);
        lemma_inherited(first.skip(1), second);
        assert(inherited(first + second) =~= inherited(first) + inherited(second));
    }
    if first.len() == 1 {
        assert(first.skip(1) =~= Seq::empty());
        if let Some(list) = inherit_list(first[0]) {
            let names = listed(crate::text::parts(list, ',', ';'));
            assert(names + Seq::empty() =~= names);
        }
    }
}

/// An arrow that is found is there, in one of the directories and under one of its three names, the
/// first name before the others.
pub proof fn lemma_own_arrow(files: &IconFiles, theme: Seq<char>, dirs: Seq<Seq<char>>)
    ensures
        files.own_arrow(theme, dirs) matches Some(path) ==> files.has_cursor(path) && exists|i: int|
            0 <= i < dirs.len() && {
                let dir = #[trigger] dirs[i];
                ||| path == IconFiles::cursor_path(dir, theme, "left_ptr"@)
                ||| path == IconFiles::cursor_path(dir, theme, "default"@)
                ||| path == IconFiles::cursor_path(dir, theme, "arrow"@)
            },
        files.own_arrow(theme, dirs) is None ==> forall|i: int|
            0 <= i < dirs.len() ==> !files.has_cursor(
                IconFiles::cursor_path(#[trigger] dirs[i], theme, "left_ptr"@),
            ),
        dirs.len() > 0 && files.has_cursor(IconFiles::cursor_path(dirs[0], theme, "left_ptr"@))
            ==> files.own_arrow(theme, dirs) == Some(
            IconFiles::cursor_path(dirs[0], theme, "left_ptr"@),
        ),
    decreases dirs.len(),
{
    if dirs.len() > 0 {
        let rest = dirs.skip(1);
        lemma_own_arrow(files, theme, rest);
        assert forall|i: int| 0 <= i < rest.len() implies #[trigger] rest[i] == dirs[i + 1] by {}
        assert forall|i: int| 1 <= i < dirs.len() implies #[trigger] dirs[i] == rest[i - 1] by {}
        if let Some(path) = files.own_arrow(theme, dirs) {
            if files.own_arrow(theme, rest) == Some(path) {
                let i = choose|i: int|
                    0 <= i < rest.len() && {
                        let dir = #[trigger] rest[i];
                        ||| path == IconFiles::cursor_path(dir, theme, "left_ptr"@)
                        ||| path == IconFiles::cursor_path(dir, theme, "default"@)
                        ||| path == IconFiles::cursor_path(dir, theme, "arrow"@)
                    };
                assert(dirs[i + 1] == rest[i]);
            } else {
                assert(dirs[0] == dirs[0]);
            }
        }
    }
}

/// The arrow of a theme is its own where it has one, or else the first that a theme gives from which
/// it inherits.
pub proof fn lemma_arrow(files: &IconFiles, theme: Seq<char>, dirs: Seq<Seq<char>>, depth: nat)
    ensures
        depth <= 4 && !theme.contains('/') && files.own_arrow(theme, dirs) is Some ==> files.arrow(
            theme,
            dirs,
            depth,
        ) == files.own_arrow(theme, dirs),
        theme.contains('/') || depth > 4 ==> files.arrow(theme, dirs, depth) is None,
        depth <= 4 && !theme.contains('/') && files.own_arrow(theme, dirs) is None ==> files.arrow(
            theme,
            dirs,
            depth,
        ) == files.first_arrow(files.parents(theme, dirs), dirs, depth + 1),
{
}

/// A pointer is read only of a file that says that it is one, and is the picture whose size is closest
/// to the one that is wanted.
pub proof fn lemma_chosen(bytes: Seq<u8>, target: u32)
    ensures
        chosen(bytes, target) is Some ==> bytes.len() >= 4 && bytes[0] == 88 && bytes[1] == 99
            && bytes[2] == 117 && bytes[3] == 114,
        chosen(bytes, target) is Some ==> le32(bytes, 4) is Some && le32(bytes, 12) is Some,
        chosen(bytes, target) matches Some(found) ==> {
            let header = le32(bytes, 4)->Some_0;
            let count = le32(bytes, 12)->Some_0;
            let listed = entries(bytes, header as int, least(count, 4096) as int);
            exists|k: int|
                0 <= k < listed.len() && picture(bytes, (#[trigger] listed[k]).1 as int) == Some(found)
                    && (forall|j: int|
                    0 <= j < listed.len() ==> distance(listed[k].0, target) <= distance(
                        (#[trigger] listed[j]).0,
                        target,
                    ))
        },
        forall|size: u32| #[trigger] distance(size, target) == 0 <==> size == target,
        forall|count: u32|
            (#[trigger] least(count, 4096)) <= 4096 && least(count, 4096) <= count && (least(count, 4096)
                == count || least(count, 4096) == 4096),
{
    if chosen(bytes, target) is Some {
        let first = bytes.take(4);
        assert(first[0] == 88 && first[1] == 99 && first[2] == 117 && first[3] == 114);
        let header = le32(bytes, 4)->Some_0;
        let count = le32(bytes, 12)->Some_0;
        let listed = entries(bytes, header as int, least(count, 4096) as int);
        lemma_closest(listed, target);
        let k = choose|k: int|
            {
                &&& 0 <= k < listed.len()
                &&& closest(listed, target) == Some(#[trigger] listed[k])
                &&& forall|j: int|
                    0 <= j < listed.len() ==> distance(listed[k].0, target) <= distance(
                        (#[trigger] listed[j]).0,
                        target,
                    )
                &&& forall|j: int|
                    0 <= j < k ==> distance(listed[k].0, target) < distance(
                        (#[trigger] listed[j]).0,
                        target,
                    )
            };
        assert(picture(bytes, listed[k].1 as int) == chosen(bytes, target));
    }
}

} // verus!
