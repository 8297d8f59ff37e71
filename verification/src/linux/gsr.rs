//! Recording with GPU Screen Recorder: what it can encode, and how it is called.
use vstd::prelude::*;
use vstd::string::StringExecFns;

use crate::record::{Geometry, Monitor, HARDWARE_H264_MAX_SIDE};
use crate::text::{
    among, decimal_string, ends_with, join_texts, joined, lines, push_word, same, signed_decimal_string,
    strip_prefix, strip_suffix, trim,
};

verus! {

/// The recorder's program.
pub const PROGRAM: &'static str = "gpu-screen-recorder";

/// An encoder of the recorder.
#[derive(Clone, Debug, PartialEq, Eq)]
pub struct Codec {
    /// The recorder's name for it.
    pub name: String,
    /// It encodes on the CPU.
    pub cpu: bool,
    /// FFmpeg's encoder that matches it, for when a recording has to be encoded again.
    pub encoder: String,
}

/// What a [`Codec`] says.
pub struct CodecView {
    pub name: Seq<char>,
    pub cpu: bool,
    pub encoder: Seq<char>,
}

impl Codec {
    /// What the codec says.
    pub open spec fn view(&self) -> CodecView {
        CodecView { name: self.name@, cpu: self.cpu, encoder: self.encoder@ }
    }
}

/// What the recorder can use on this machine.
#[derive(Clone, Debug, PartialEq, Eq)]
pub struct Info {
    pub vendor: String,
    pub codecs: Vec<String>,
}

/// What an [`Info`] says.
pub struct InfoView {
    pub vendor: Seq<char>,
    pub codecs: Seq<Seq<char>>,
}

impl Info {
    /// What the information says.
    pub open spec fn view(&self) -> InfoView {
        InfoView { vendor: self.vendor@, codecs: crate::text::views(self.codecs@) }
    }
}

impl InfoView {
    /// Nothing is known.
    pub open spec fn unset() -> InfoView {
        InfoView { vendor: Seq::empty(), codecs: Seq::empty() }
    }

    /// What `self` and the lines from `at` on say together, within `section`: the lines of the
    /// section `video_codecs` are codecs, and the line with the vendor counts anywhere else.
    pub open spec fn with_lines(
        self,
        lines: Seq<Seq<char>>,
        at: int,
        section: Seq<char>,
    ) -> InfoView
        decreases lines.len() - at,
    {
        if at < 0 || at >= lines.len() {
            self
        } else {
            let line = crate::text::trimmed(lines[at]);
            match crate::text::without_prefix(line, "section="@) {
                Some(name) => self.with_lines(lines, at + 1, name),
                None => if section == "video_codecs"@ && line.len() > 0 {
                    InfoView { codecs: self.codecs.push(line), ..self }.with_lines(
                        lines,
                        at + 1,
                        section,
                    )
                } else {
                    match crate::text::without_prefix(line, "vendor|"@) {
                        Some(vendor) => InfoView { vendor, ..self }.with_lines(
                            lines,
                            at + 1,
                            section,
                        ),
                        None => self.with_lines(lines, at + 1, section),
                    }
                },
            }
        }
    }
}

impl Default for Info {
    fn default() -> (r: Self)
        ensures
            r@ == InfoView::unset(),
    {
        let r = Info { vendor: String::new(), codecs: Vec::new() };
        proof {
            assert(r@.codecs =~= Seq::<Seq<char>>::empty());
        }
        r
    }
}

/// What the recorder says of itself in `text`.
pub fn parse_info(text: &str) -> (r: Info)
    ensures
        r@ == InfoView::unset().with_lines(crate::text::line_views(text@), 0, Seq::empty()),
{
    let lines = lines(text);
    let ghost all = crate::text::views(lines@);
    let mut info = Info::default();
    let mut section: String = String::new();
    let mut i: usize = 0;
    while i < lines.len()
        invariant
            i <= lines.len(),
            all == crate::text::views(lines@),
            InfoView::unset().with_lines(all, 0, Seq::empty()) == info@.with_lines(
                all,
                i as int,
                section@,
            ),
        decreases lines.len() - i,
    {
        assert(all[i as int] == lines@[i as int]@);
        let line = trim(lines[i].as_str());
        let ghost before = info@;
        if let Some(name) = strip_prefix(line.as_str(), "section=") {
            section = name;
        } else if same(section.as_str(), "video_codecs") && !line.as_str().is_empty() {
            info.codecs.push(line);
            proof {
                assert(info@.codecs =~= before.codecs.push(line@));
            }
        } else if let Some(vendor) = strip_prefix(line.as_str(), "vendor|") {
            info.vendor = vendor;
        }
        i = i + 1;
    }
    info
}

/// The recorder's name for the encoder that settings ask for, and whether it runs on the CPU.
/// `auto` is decided elsewhere.
pub open spec fn recorder_name(requested: Seq<char>) -> Option<(Seq<char>, bool)> {
    if requested == "libx264"@ {
        Some(("h264_software"@, true))
    } else if requested == "h264_nvenc"@ || requested == "h264_vaapi"@ {
        Some(("h264"@, false))
    } else if requested == "hevc_nvenc"@ || requested == "hevc_vaapi"@ {
        Some(("hevc"@, false))
    } else if requested == "av1_nvenc"@ || requested == "av1_vaapi"@ {
        Some(("av1"@, false))
    } else if requested == "h264"@ || requested == "hevc"@ || requested == "av1"@
        || crate::text::has_suffix(requested, "_vulkan"@) {
        Some((requested, false))
    } else {
        None
    }
}

impl InfoView {
    /// The recorder can use the codec `name`.
    pub open spec fn has(self, name: Seq<char>) -> bool {
        crate::text::is_among(self.codecs, name)
    }

    /// The codec of the recorder's name.
    pub open spec fn codec(self, name: Seq<char>, cpu: bool) -> CodecView {
        let plain = if crate::text::has_suffix(name, "_software"@) {
            name.take(name.len() - "_software"@.len())
        } else {
            name
        };
        CodecView {
            name: plain,
            cpu,
            encoder: if cpu {
                "libx264"@
            } else if crate::text::has_suffix(plain, "_vulkan"@) {
                plain
            } else if self.vendor == "nvidia"@ {
                plain + "_nvenc"@
            } else {
                plain + "_vaapi"@
            },
        }
    }

    /// The codec that settings ask for. `auto` asks for H.264 on the hardware only.
    pub open spec fn choice(self, requested: Seq<char>) -> Result<CodecView, Seq<char>> {
        if requested == "auto"@ {
            if self.has("h264"@) {
                Ok(self.codec("h264"@, false))
            } else if self.has("h264_vulkan"@) {
                Ok(self.codec("h264_vulkan"@, false))
            } else {
                Err(
                    "no hardware H.264 encoder is available to gpu-screen-recorder; set record_codec = \"libx264\" to encode on the CPU"@,
                )
            }
        } else {
            match recorder_name(requested) {
                None => Err(
                    "record_codec "@ + requested + " is not supported by gpu-screen-recorder"@,
                ),
                Some((name, cpu)) => if self.has(name) {
                    Ok(self.codec(name, cpu))
                } else {
                    Err(
                        "gpu-screen-recorder cannot encode "@ + requested
                            + " on this system (available: "@ + crate::text::joined_by(
                            self.codecs,
                            ", "@,
                        ) + ")"@,
                    )
                },
            }
        }
    }
}

/// The codec of the recorder's name.
fn codec_named(name: &str, cpu: bool, info: &Info) -> (r: Codec)
    ensures
        r@ == info@.codec(name@, cpu),
{
    let plain = match strip_suffix(name, "_software") {
        Some(plain) => plain,
        None => name.to_owned(),
    };
    let encoder = if cpu {
        "libx264".to_owned()
    } else if ends_with(plain.as_str(), "_vulkan") {
        plain.clone()
    } else if same(info.vendor.as_str(), "nvidia") {
        joined(plain.as_str(), "_nvenc")
    } else {
        joined(plain.as_str(), "_vaapi")
    };
    Codec { name: plain, cpu, encoder }
}

/// The codec that settings ask for. `auto` asks for H.264 on the hardware only; the CPU encodes
/// only where `libx264` is asked for.
pub fn choose_codec(requested: &str, info: &Info) -> (r: Result<Codec, String>)
    ensures
        info@.choice(requested@) == (match r {
            Ok(codec) => Ok(codec@),
            Err(message) => Err(message@),
        }),
{
    if same(requested, "auto") {
        if among(&info.codecs, "h264") {
            return Ok(codec_named("h264", false, info));
        }
        if among(&info.codecs, "h264_vulkan") {
            return Ok(codec_named("h264_vulkan", false, info));
        }
        return Err(
            "no hardware H.264 encoder is available to gpu-screen-recorder; set record_codec = \"libx264\" to encode on the CPU".to_owned(),
        );
    }
    let (name, cpu) = if same(requested, "libx264") {
        ("h264_software", true)
    } else if same(requested, "h264_nvenc") || same(requested, "h264_vaapi") {
        ("h264", false)
    } else if same(requested, "hevc_nvenc") || same(requested, "hevc_vaapi") {
        ("hevc", false)
    } else if same(requested, "av1_nvenc") || same(requested, "av1_vaapi") {
        ("av1", false)
    } else if same(requested, "h264") || same(requested, "hevc") || same(requested, "av1")
        || ends_with(requested, "_vulkan") {
        (requested, false)
    } else {
        let mut message: String = joined("record_codec ", requested);
        message.append(" is not supported by gpu-screen-recorder");
        return Err(message);
    };
    if !among(&info.codecs, name) {
        let mut message: String = joined("gpu-screen-recorder cannot encode ", requested);
        message.append(" on this system (available: ");
        message.append(join_texts(&info.codecs, ", ").as_str());
        message.append(")");
        return Err(message);
    }
    Ok(codec_named(name, cpu, info))
}

/// The codec that was chosen is chosen again when its own encoder is asked for, so that a recording
/// that goes on uses the same one.
pub proof fn lemma_choice_again(info: InfoView, requested: Seq<char>)
    ensures
        info.choice(requested) matches Ok(codec) ==> info.choice(codec.encoder) == Ok::<
            CodecView,
            Seq<char>,
        >(codec),
{
    lemma_encoder_names();
    if crate::text::has_suffix(requested, "_vulkan"@) {
        lemma_vulkan(requested);
    }
    if let Ok(codec) = info.choice(requested) {
        let name = codec.name;
        if codec.cpu {
            assert(codec.encoder == "libx264"@);
        } else if crate::text::has_suffix(name, "_vulkan"@) {
            assert(codec.encoder == name);
            lemma_vulkan(name);
        } else {
            assert(name == "h264"@ || name == "hevc"@ || name == "av1"@);
            lemma_encoder_of(info, name);
        }
    }
}

/// The encoder of a hardware codec asks for that codec.
proof fn lemma_encoder_of(info: InfoView, name: Seq<char>)
    requires
        name == "h264"@ || name == "hevc"@ || name == "av1"@,
    ensures
        recorder_name(name + "_nvenc"@) == Some((name, false)),
        recorder_name(name + "_vaapi"@) == Some((name, false)),
        name + "_nvenc"@ != "auto"@,
        name + "_vaapi"@ != "auto"@,
{
    reveal_strlit("h264");
    reveal_strlit("hevc");
    reveal_strlit("av1");
    reveal_strlit("_nvenc");
    reveal_strlit("_vaapi");
    reveal_strlit("h264_nvenc");
    reveal_strlit("h264_vaapi");
    reveal_strlit("hevc_nvenc");
    reveal_strlit("hevc_vaapi");
    reveal_strlit("av1_nvenc");
    reveal_strlit("av1_vaapi");
    reveal_strlit("libx264");
    reveal_strlit("auto");
    assert("h264"@ + "_nvenc"@ =~= "h264_nvenc"@);
    assert("h264"@ + "_vaapi"@ =~= "h264_vaapi"@);
    assert("hevc"@ + "_nvenc"@ =~= "hevc_nvenc"@);
    assert("hevc"@ + "_vaapi"@ =~= "hevc_vaapi"@);
    assert("av1"@ + "_nvenc"@ =~= "av1_nvenc"@);
    assert("av1"@ + "_vaapi"@ =~= "av1_vaapi"@);
    assert("hevc_nvenc"@[1] != "h264_nvenc"@[1]);
    assert("hevc_vaapi"@[1] != "h264_vaapi"@[1]);
    assert("hevc_nvenc"@[1] != "h264_vaapi"@[1]);
    assert("hevc_vaapi"@[1] != "h264_nvenc"@[1]);
}

/// Facts about the names of codecs.
proof fn lemma_encoder_names()
    ensures
        !crate::text::has_suffix("h264"@, "_software"@),
        !crate::text::has_suffix("hevc"@, "_software"@),
        !crate::text::has_suffix("av1"@, "_software"@),
        !crate::text::has_suffix("h264"@, "_vulkan"@),
        !crate::text::has_suffix("hevc"@, "_vulkan"@),
        !crate::text::has_suffix("av1"@, "_vulkan"@),
        crate::text::has_suffix("h264_vulkan"@, "_vulkan"@),
        !crate::text::has_suffix("h264_vulkan"@, "_software"@),
        crate::text::has_suffix("h264_software"@, "_software"@),
        "libx264"@ != "auto"@,
        recorder_name("libx264"@) == Some(("h264_software"@, true)),
{
    reveal_strlit("h264");
    reveal_strlit("hevc");
    reveal_strlit("av1");
    reveal_strlit("_software");
    reveal_strlit("_vulkan");
    reveal_strlit("h264_vulkan");
    reveal_strlit("h264_software");
    reveal_strlit("libx264");
    reveal_strlit("auto");
    assert("h264_vulkan"@.skip(4) =~= "_vulkan"@);
    assert("h264_software"@.skip(4) =~= "_software"@);
    assert("h264_vulkan"@.skip(2)[0] == '6');
    assert("libx264"@.len() == 7 && "auto"@.len() == 4);
}

/// A name that ends like a Vulkan encoder asks for itself.
proof fn lemma_vulkan(name: Seq<char>)
    requires
        crate::text::has_suffix(name, "_vulkan"@),
    ensures
        name != "auto"@,
        recorder_name(name) == Some((name, false)),
        !crate::text::has_suffix(name, "_software"@),
{
    reveal_strlit("_vulkan");
    reveal_strlit("_software");
    reveal_strlit("auto");
    reveal_strlit("libx264");
    reveal_strlit("h264_nvenc");
    reveal_strlit("h264_vaapi");
    reveal_strlit("hevc_nvenc");
    reveal_strlit("hevc_vaapi");
    reveal_strlit("av1_nvenc");
    reveal_strlit("av1_vaapi");
    reveal_strlit("h264");
    reveal_strlit("hevc");
    reveal_strlit("av1");
    let n = name.len() as int;
    assert(name.skip(n - 7)[6] == 'n');
    assert(name.skip(n - 7)[4] == 'k');
    assert(name[n - 1] == 'n' && name[n - 3] == 'k');
    if crate::text::has_suffix(name, "_software"@) {
        assert(name.skip(n - 9)[8] == 'e');
        assert(name[n - 1] == 'e');
    }
    assert("libx264"@[6] != 'n' && "libx264"@.len() == 7);
    assert("h264_nvenc"@[9] != 'n' && "h264_nvenc"@.len() == 10);
    assert("h264_vaapi"@[9] != 'n' && "h264_vaapi"@.len() == 10);
    assert("hevc_nvenc"@[9] != 'n' && "hevc_nvenc"@.len() == 10);
    assert("hevc_vaapi"@[9] != 'n' && "hevc_vaapi"@.len() == 10);
    assert("av1_nvenc"@[8] != 'n' && "av1_nvenc"@.len() == 9);
    assert("av1_vaapi"@[8] != 'n' && "av1_vaapi"@.len() == 9);
}

/// The smallest of the numbers.
pub open spec fn smallest(numbers: Seq<int>) -> int
    decreases numbers.len(),
{
    if numbers.len() <= 1 {
        numbers[0]
    } else {
        let rest = smallest(numbers.drop_last());
        if numbers.last() < rest {
            numbers.last()
        } else {
            rest
        }
    }
}

/// The smallest number is one of them, and none is smaller.
pub proof fn lemma_smallest(numbers: Seq<int>)
    requires
        numbers.len() > 0,
    ensures
        numbers.contains(smallest(numbers)),
        forall|i: int| 0 <= i < numbers.len() ==> smallest(numbers) <= #[trigger] numbers[i],
    decreases numbers.len(),
{
    if numbers.len() == 1 {
        assert(numbers[0] == smallest(numbers));
    } else {
        let rest = numbers.drop_last();
        lemma_smallest(rest);
        let k = choose|k: int| 0 <= k < rest.len() && rest[k] == smallest(rest);
        assert(numbers[k] == rest[k]);
        assert(numbers[numbers.len() - 1] == numbers.last());
        assert forall|i: int| 0 <= i < numbers.len() implies smallest(numbers)
            <= #[trigger] numbers[i] by {
            if i < rest.len() {
                assert(rest[i] == numbers[i]);
            }
        }
    }
}

/// The places of the outputs across the desktop.
pub open spec fn lefts(monitors: Seq<Monitor>) -> Seq<int> {
    Seq::new(monitors.len(), |i: int| monitors[i].x as int)
}

/// The places of the outputs down the desktop.
pub open spec fn tops(monitors: Seq<Monitor>) -> Seq<int> {
    Seq::new(monitors.len(), |i: int| monitors[i].y as int)
}

/// Where an output stands in the picture that holds all of them.
pub open spec fn place_of(monitors: Seq<Monitor>, i: int) -> (int, int) {
    (
        monitors[i].scale.pixels(monitors[i].x - smallest(lefts(monitors))),
        monitors[i].scale.pixels(monitors[i].y - smallest(tops(monitors))),
    )
}

/// Several outputs can go into one picture: they are of one scale, and the picture is not too large
/// for the hardware.
pub open spec fn combinable(monitors: Seq<Monitor>) -> bool {
    &&& monitors.len() >= 2
    &&& forall|i: int|
        0 <= i < monitors.len() ==> (#[trigger] monitors[i]).scale.positive()
            && monitors[i].scale.same(monitors[0].scale)
    &&& forall|i: int|
        0 <= i < monitors.len() ==> #[trigger] place_of(monitors, i).0 + monitors[i].width
            <= HARDWARE_H264_MAX_SIDE && place_of(monitors, i).1 + monitors[i].height
            <= HARDWARE_H264_MAX_SIDE
}

/// How the recorder is told to show one of the outputs at its place.
pub open spec fn source_of(monitors: Seq<Monitor>, i: int) -> Seq<char> {
    monitors[i].name@ + ";x="@ + crate::text::decimal(place_of(monitors, i).0 as nat) + ";y="@
        + crate::text::decimal(place_of(monitors, i).1 as nat)
}

/// A place is not negative.
proof fn lemma_place(monitors: Seq<Monitor>, i: int)
    requires
        0 <= i < monitors.len(),
        monitors[i].scale.positive(),
    ensures
        0 <= monitors[i].x - smallest(lefts(monitors)) <= u32::MAX,
        0 <= monitors[i].y - smallest(tops(monitors)) <= u32::MAX,
        0 <= place_of(monitors, i).0,
        0 <= place_of(monitors, i).1,
{
    lemma_smallest(lefts(monitors));
    lemma_smallest(tops(monitors));
    assert(lefts(monitors)[i] == monitors[i].x);
    assert(tops(monitors)[i] == monitors[i].y);
    let k = choose|k: int|
        0 <= k < lefts(monitors).len() && lefts(monitors)[k] == smallest(lefts(monitors));
    let j = choose|j: int|
        0 <= j < tops(monitors).len() && tops(monitors)[j] == smallest(tops(monitors));
    assert(lefts(monitors)[k] == monitors[k].x);
    assert(tops(monitors)[j] == monitors[j].y);
    let dx = monitors[i].x - smallest(lefts(monitors));
    let dy = monitors[i].y - smallest(tops(monitors));
    let numerator = monitors[i].scale.numerator as int;
    let twice = 2 * monitors[i].scale.denominator as int;
    assert(dx * numerator >= 0 && dy * numerator >= 0) by (nonlinear_arith)
        requires
            dx >= 0,
            dy >= 0,
            numerator >= 0,
    ;
    vstd::arithmetic::div_mod::lemma_div_pos_is_pos(
        2 * (dx * numerator) + monitors[i].scale.denominator,
        twice,
    );
    vstd::arithmetic::div_mod::lemma_div_pos_is_pos(
        2 * (dy * numerator) + monitors[i].scale.denominator,
        twice,
    );
}

/// The smallest place of the outputs, across the desktop or down.
fn least_place(monitors: &Vec<Monitor>, across: bool) -> (r: i32)
    requires
        monitors.len() > 0,
    ensures
        across ==> r == smallest(lefts(monitors@)),
        !across ==> r == smallest(tops(monitors@)),
{
    let mut least: i32 = if across {
        monitors[0].x
    } else {
        monitors[0].y
    };
    let mut i: usize = 1;
    let ghost all = if across {
        lefts(monitors@)
    } else {
        tops(monitors@)
    };
    while i < monitors.len()
        invariant
            1 <= i <= monitors.len(),
            all == (if across {
                lefts(monitors@)
            } else {
                tops(monitors@)
            }),
            least == smallest(all.take(i as int)),
        decreases monitors.len() - i,
    {
        let place: i32 = if across {
            monitors[i].x
        } else {
            monitors[i].y
        };
        proof {
            assert(all.take(i + 1).drop_last() =~= all.take(i as int));
            assert(all.take(i + 1).last() == place);
        }
        if place < least {
            least = place;
        }
        i = i + 1;
    }
    proof {
        assert(all.take(i as int) =~= all);
    }
    least
}

/// How the recorder is told to record several outputs in one picture, as the compositor lays them
/// out. There is no such way for fewer than two outputs, for outputs of different scales, and where
/// the picture would be too large for the hardware; then each output has a stream of its own.
pub fn combined_source(monitors: &Vec<Monitor>) -> (r: Option<String>)
    ensures
        if combinable(monitors@) {
            r matches Some(source) && source@ == crate::text::joined_by(
                Seq::new(monitors@.len(), |i: int| source_of(monitors@, i)),
                "|"@,
            )
        } else {
            r is None
        },
{
    if monitors.len() < 2 {
        return None;
    }
    let scale = monitors[0].scale;
    let min_x: i32 = least_place(monitors, true);
    let min_y: i32 = least_place(monitors, false);
    let mut sources: Vec<String> = Vec::new();
    let ghost wanted = Seq::new(monitors@.len(), |i: int| source_of(monitors@, i));
    let mut i: usize = 0;
    while i < monitors.len()
        invariant
            i <= monitors.len(),
            2 <= monitors.len(),
            scale == monitors@[0].scale,
            min_x == smallest(lefts(monitors@)),
            min_y == smallest(tops(monitors@)),
            wanted == Seq::new(monitors@.len(), |i: int| source_of(monitors@, i)),
            crate::text::views(sources@) == wanted.take(i as int),
            forall|j: int|
                0 <= j < i ==> (#[trigger] monitors@[j]).scale.positive()
                    && monitors@[j].scale.same(scale),
            forall|j: int|
                0 <= j < i ==> #[trigger] place_of(monitors@, j).0 + monitors@[j].width
                    <= HARDWARE_H264_MAX_SIDE && place_of(monitors@, j).1 + monitors@[j].height
                    <= HARDWARE_H264_MAX_SIDE,
        decreases monitors.len() - i,
    {
        if !monitors[i].scale.is_positive() || !monitors[i].scale.is_same(scale) {
            assert(!(monitors@[i as int].scale.positive() && monitors@[i as int].scale.same(
                monitors@[0].scale,
            )));
            return None;
        }
        proof {
            lemma_place(monitors@, i as int);
        }
        let x: u128 = monitors[i].scale.in_pixels((monitors[i].x as i64 - min_x as i64) as u32);
        let y: u128 = monitors[i].scale.in_pixels((monitors[i].y as i64 - min_y as i64) as u32);
        assert(place_of(monitors@, i as int) == (x as int, y as int));
        let most: u128 = HARDWARE_H264_MAX_SIDE as u128;
        if x > most || y > most || x + monitors[i].width as u128 > most || y
            + monitors[i].height as u128 > most {
            return None;
        }
        let mut source: String = monitors[i].name.clone();
        source.append(";x=");
        source.append(decimal_string(x).as_str());
        source.append(";y=");
        source.append(decimal_string(y).as_str());
        let ghost before = crate::text::views(sources@);
        sources.push(source);
        proof {
            assert(source@ == source_of(monitors@, i as int));
            assert(crate::text::views(sources@) =~= before.push(source@));
            assert(wanted.take(i + 1) =~= wanted.take(i as int).push(source_of(monitors@, i as int)));
        }
        i = i + 1;
    }
    proof {
        assert(wanted.take(i as int) =~= wanted);
    }
    Some(join_texts(&sources, "|"))
}

/// What the recorder shows.
pub enum Target<'a> {
    Output(&'a str),
    Region(&'a Geometry),
    /// Several outputs in one stream, as [`combined_source`] says.
    Combined(&'a str),
}

impl<'a> Target<'a> {
    /// The recorder's name for the target.
    pub open spec fn source(&self) -> Seq<char> {
        match self {
            Target::Output(name) => name@,
            Target::Region(geo) => crate::text::decimal(geo.w as nat) + "x"@ + crate::text::decimal(
                geo.h as nat,
            ) + "+"@ + crate::text::signed_decimal(geo.x as int) + "+"@
                + crate::text::signed_decimal(geo.y as int),
            Target::Combined(source) => source@,
        }
    }
}

/// The words that every recording begins with.
pub open spec fn base_args(source: Seq<char>, codec: Seq<char>, fps: u32, pointer: bool) -> Seq<
    Seq<char>,
> {
    seq![
        "-w"@,
        source,
        "-c"@,
        "mkv"@,
        "-f"@,
        crate::text::decimal(fps as nat),
        "-fm"@,
        "cfr"@,
        "-k"@,
        codec,
        "-q"@,
        "very_high"@,
        "-bm"@,
        "qp"@,
        "-keyint"@,
        "2"@,
        "-cursor"@,
        if pointer {
            "yes"@
        } else {
            "no"@
        },
        "-fallback-cpu-encoding"@,
        "no"@,
        "-ffmpeg-opts"@,
        "flush_packets=1;cluster_time_limit=100"@,
    ]
}

/// The words of a recording.
pub open spec fn recorder_args(
    source: Seq<char>,
    codec: CodecView,
    fps: u32,
    audio: Seq<Seq<char>>,
    plugin: Option<Seq<char>>,
    out: Seq<char>,
) -> Seq<Seq<char>> {
    base_args(source, codec.name, fps, plugin is None) + (if codec.cpu {
        seq!["-encoder"@, "cpu"@]
    } else {
        Seq::empty()
    }) + (match plugin {
        Some(plugin) => seq!["-write-first-frame-ts"@, "yes"@, "-p"@, plugin],
        None => Seq::empty(),
    }) + (if audio.len() > 0 {
        seq![
            "-a"@,
            crate::text::joined_by(
                Seq::new(audio.len(), |i: int| "device:"@ + audio[i]),
                "|"@,
            ),
            "-ac"@,
            "aac"@,
        ]
    } else {
        Seq::empty()
    }) + seq!["-o"@, out]
}

/// The recorder's name for `target`.
fn source_text(target: &Target) -> (r: String)
    ensures
        r@ == target.source(),
{
    match target {
        Target::Output(name) => (*name).to_owned(),
        Target::Region(geo) => {
            let mut source: String = decimal_string(geo.w as u128);
            source.append("x");
            source.append(decimal_string(geo.h as u128).as_str());
            source.append("+");
            source.append(signed_decimal_string(geo.x as i64).as_str());
            source.append("+");
            source.append(signed_decimal_string(geo.y as i64).as_str());
            source
        },
        Target::Combined(source) => (*source).to_owned(),
    }
}

/// The recorder's name for several sources of sound at once.
fn audio_text(audio: &Vec<String>) -> (r: String)
    ensures
        r@ == crate::text::joined_by(
            Seq::new(audio@.len(), |i: int| "device:"@ + crate::text::views(audio@)[i]),
            "|"@,
        ),
{
    let ghost wanted = Seq::new(audio@.len(), |i: int| "device:"@ + crate::text::views(audio@)[i]);
    let mut sources: Vec<String> = Vec::new();
    let mut i: usize = 0;
    while i < audio.len()
        invariant
            i <= audio.len(),
            wanted == Seq::new(
                audio@.len(),
                |i: int| "device:"@ + crate::text::views(audio@)[i],
            ),
            crate::text::views(sources@) == wanted.take(i as int),
        decreases audio.len() - i,
    {
        let source = joined("device:", audio[i].as_str());
        push_word(&mut sources, source.as_str());
        proof {
            assert(wanted.take(i + 1) =~= wanted.take(i as int).push(source@));
        }
        i = i + 1;
    }
    proof {
        assert(wanted.take(i as int) =~= wanted);
    }
    join_texts(&sources, "|")
}

/// How the recorder is called. With a `plugin` the pointer of the system is left out, the plugin
/// draws one instead, and the time of the first frame is written down for lining up its track.
pub fn args(
    target: &Target,
    codec: &Codec,
    fps: u32,
    audio: &Vec<String>,
    plugin: Option<&str>,
    out: &str,
) -> (r: Vec<String>)
    ensures
        crate::text::views(r@) == recorder_args(
            target.source(),
            codec@,
            fps,
            crate::text::views(audio@),
            match plugin {
                Some(plugin) => Some(plugin@),
                None => None,
            },
            out@,
        ),
{
    let source = source_text(target);
    let rate = decimal_string(fps as u128);
    let mut words: Vec<String> = Vec::new();
    push_word(&mut words, "-w");
    push_word(&mut words, source.as_str());
    push_word(&mut words, "-c");
    push_word(&mut words, "mkv");
    push_word(&mut words, "-f");
    push_word(&mut words, rate.as_str());
    push_word(&mut words, "-fm");
    push_word(&mut words, "cfr");
    push_word(&mut words, "-k");
    push_word(&mut words, codec.name.as_str());
    push_word(&mut words, "-q");
    push_word(&mut words, "very_high");
    push_word(&mut words, "-bm");
    push_word(&mut words, "qp");
    push_word(&mut words, "-keyint");
    push_word(&mut words, "2");
    push_word(&mut words, "-cursor");
    push_word(
        &mut words,
        if plugin.is_some() {
            "no"
        } else {
            "yes"
        },
    );
    push_word(&mut words, "-fallback-cpu-encoding");
    push_word(&mut words, "no");
    push_word(&mut words, "-ffmpeg-opts");
    push_word(&mut words, "flush_packets=1;cluster_time_limit=100");
    proof {
        assert(crate::text::views(words@) =~= base_args(
            target.source(),
            codec.name@,
            fps,
            plugin is None,
        ));
    }
    if codec.cpu {
        push_word(&mut words, "-encoder");
        push_word(&mut words, "cpu");
    }
    if let Some(plugin) = plugin {
        push_word(&mut words, "-write-first-frame-ts");
        push_word(&mut words, "yes");
        push_word(&mut words, "-p");
        push_word(&mut words, plugin);
    }
    if audio.len() > 0 {
        let sources = audio_text(audio);
        push_word(&mut words, "-a");
        push_word(&mut words, sources.as_str());
        push_word(&mut words, "-ac");
        push_word(&mut words, "aac");
        proof {
            assert(Seq::new(audio@.len(), |i: int| "device:"@ + crate::text::views(audio@)[i])
                =~= Seq::new(
                crate::text::views(audio@).len(),
                |i: int| "device:"@ + crate::text::views(audio@)[i],
            ));
        }
    }
    push_word(&mut words, "-o");
    push_word(&mut words, out);
    proof {
        assert(crate::text::views(words@) =~= recorder_args(
            target.source(),
            codec@,
            fps,
            crate::text::views(audio@),
            match plugin {
                Some(plugin) => Some(plugin@),
                None => None,
            },
            out@,
        ));
    }
    words
}

/// The options of a recorder's words, read one by one: `words` is made of `base` and of the optional
/// ones, in that order.
proof fn lemma_read(
    source: Seq<char>,
    codec: CodecView,
    fps: u32,
    audio: Seq<Seq<char>>,
    plugin: Option<Seq<char>>,
    out: Seq<char>,
    flag: Seq<char>,
)
    ensures
        ({
            let base = base_args(source, codec.name, fps, plugin is None);
            let encoder = if codec.cpu {
                seq!["-encoder"@, "cpu"@]
            } else {
                Seq::empty()
            };
            let pointer = match plugin {
                Some(plugin) => seq!["-write-first-frame-ts"@, "yes"@, "-p"@, plugin],
                None => Seq::empty(),
            };
            let sound = if audio.len() > 0 {
                seq![
                    "-a"@,
                    crate::text::joined_by(
                        Seq::new(audio.len(), |i: int| "device:"@ + audio[i]),
                        "|"@,
                    ),
                    "-ac"@,
                    "aac"@,
                ]
            } else {
                Seq::empty()
            };
            let read = crate::text::option_from(
                recorder_args(source, codec, fps, audio, plugin, out),
                flag,
                0,
            );
            let in_base = crate::text::option_from(base, flag, 0);
            let in_encoder = crate::text::option_from(encoder, flag, 0);
            let in_pointer = crate::text::option_from(pointer, flag, 0);
            let in_sound = crate::text::option_from(sound, flag, 0);
            read == (if in_base is Some {
                in_base
            } else if in_encoder is Some {
                in_encoder
            } else if in_pointer is Some {
                in_pointer
            } else if in_sound is Some {
                in_sound
            } else {
                crate::text::option_from(seq!["-o"@, out], flag, 0)
            })
        }),
{
    let base = base_args(source, codec.name, fps, plugin is None);
    let encoder = if codec.cpu {
        seq!["-encoder"@, "cpu"@]
    } else {
        Seq::empty()
    };
    let pointer = match plugin {
        Some(plugin) => seq!["-write-first-frame-ts"@, "yes"@, "-p"@, plugin],
        None => Seq::empty(),
    };
    let sound = if audio.len() > 0 {
        seq![
            "-a"@,
            crate::text::joined_by(Seq::new(audio.len(), |i: int| "device:"@ + audio[i]), "|"@),
            "-ac"@,
            "aac"@,
        ]
    } else {
        Seq::empty()
    };
    crate::text::lemma_options_joined(base + encoder + pointer + sound, seq!["-o"@, out], flag, 0);
    crate::text::lemma_options_joined(base + encoder + pointer, sound, flag, 0);
    crate::text::lemma_options_joined(base + encoder, pointer, flag, 0);
    crate::text::lemma_options_joined(base, encoder, flag, 0);
}

/// What the recorder is told: each option has the value that it was asked for, whatever the others
/// are. The pointer is in the picture where no plugin draws it.
pub proof fn lemma_recorder_options(
    target: &Target,
    codec: &Codec,
    fps: u32,
    audio: &Vec<String>,
    plugin: Option<&str>,
    out: &str,
    words: Vec<String>,
)
    requires
        call_ensures(args, (target, codec, fps, audio, plugin, out), words),
    ensures
        ({
            let told = |flag: Seq<char>| crate::text::option_from(
                crate::text::views(words@),
                flag,
                0,
            );
            &&& told("-w"@) == Some(target.source())
            &&& told("-c"@) == Some("mkv"@)
            &&& told("-f"@) == Some(crate::text::decimal(fps as nat))
            &&& told("-fm"@) == Some("cfr"@)
            &&& told("-k"@) == Some(codec@.name)
            &&& told("-q"@) == Some("very_high"@)
            &&& told("-bm"@) == Some("qp"@)
            &&& told("-keyint"@) == Some("2"@)
            &&& plugin is None ==> told("-cursor"@) == Some("yes"@)
            &&& plugin is Some ==> told("-cursor"@) == Some("no"@)
            &&& told("-fallback-cpu-encoding"@) == Some("no"@)
            &&& told("-ffmpeg-opts"@) == Some("flush_packets=1;cluster_time_limit=100"@)
            &&& codec@.cpu ==> told("-encoder"@) == Some("cpu"@)
            &&& !codec@.cpu ==> told("-encoder"@) is None
            &&& plugin matches Some(path) ==> told("-p"@) == Some(path@)
                && told("-write-first-frame-ts"@) == Some("yes"@)
            &&& plugin is None ==> told("-p"@) is None && told("-write-first-frame-ts"@) is None
            &&& told("-o"@) == Some(out@)
        }),
        words@.len() == 24 + (if codec@.cpu {
            2int
        } else {
            0
        }) + (if plugin is Some {
            4int
        } else {
            0
        }) + (if audio@.len() > 0 {
            4int
        } else {
            0
        }),
{
    reveal_strlit("-w");
    reveal_strlit("-c");
    reveal_strlit("-f");
    reveal_strlit("-fm");
    reveal_strlit("-k");
    reveal_strlit("-q");
    reveal_strlit("-bm");
    reveal_strlit("-keyint");
    reveal_strlit("-cursor");
    reveal_strlit("-fallback-cpu-encoding");
    reveal_strlit("-ffmpeg-opts");
    reveal_strlit("-encoder");
    reveal_strlit("-write-first-frame-ts");
    reveal_strlit("-p");
    reveal_strlit("-a");
    reveal_strlit("-ac");
    reveal_strlit("-o");
    assert("-w"@.len() == 2);
    assert("-c"@.len() == 2);
    assert("-f"@.len() == 2);
    assert("-fm"@.len() == 3);
    assert("-k"@.len() == 2);
    assert("-q"@.len() == 2);
    assert("-bm"@.len() == 3);
    assert("-keyint"@.len() == 7);
    assert("-cursor"@.len() == 7);
    assert("-fallback-cpu-encoding"@.len() == 22);
    assert("-ffmpeg-opts"@.len() == 12);
    assert("-encoder"@.len() == 8);
    assert("-write-first-frame-ts"@.len() == 21);
    assert("-p"@.len() == 2);
    assert("-a"@.len() == 2);
    assert("-ac"@.len() == 3);
    assert("-o"@.len() == 2);
    assert("-w"@[1] != "-c"@[1]);
    assert("-w"@[1] != "-f"@[1]);
    assert("-w"@[1] != "-k"@[1]);
    assert("-w"@[1] != "-q"@[1]);
    assert("-w"@[1] != "-p"@[1]);
    assert("-w"@[1] != "-a"@[1]);
    assert("-w"@[1] != "-o"@[1]);
    assert("-c"@[1] != "-f"@[1]);
    assert("-c"@[1] != "-k"@[1]);
    assert("-c"@[1] != "-q"@[1]);
    assert("-c"@[1] != "-p"@[1]);
    assert("-c"@[1] != "-a"@[1]);
    assert("-c"@[1] != "-o"@[1]);
    assert("-f"@[1] != "-k"@[1]);
    assert("-f"@[1] != "-q"@[1]);
    assert("-f"@[1] != "-p"@[1]);
    assert("-f"@[1] != "-a"@[1]);
    assert("-f"@[1] != "-o"@[1]);
    assert("-fm"@[1] != "-bm"@[1]);
    assert("-fm"@[1] != "-ac"@[1]);
    assert("-k"@[1] != "-q"@[1]);
    assert("-k"@[1] != "-p"@[1]);
    assert("-k"@[1] != "-a"@[1]);
    assert("-k"@[1] != "-o"@[1]);
    assert("-q"@[1] != "-p"@[1]);
    assert("-q"@[1] != "-a"@[1]);
    assert("-q"@[1] != "-o"@[1]);
    assert("-bm"@[1] != "-ac"@[1]);
    assert("-keyint"@[1] != "-cursor"@[1]);
    assert("-p"@[1] != "-a"@[1]);
    assert("-p"@[1] != "-o"@[1]);
    assert("-a"@[1] != "-o"@[1]);
    reveal_with_fuel(crate::text::option_from, 12);
    let path = match plugin {
        Some(path) => Some(path@),
        None => None,
    };
    let heard = crate::text::views(audio@);
    lemma_read(target.source(), codec@, fps, heard, path, out@, "-w"@);
    lemma_read(target.source(), codec@, fps, heard, path, out@, "-c"@);
    lemma_read(target.source(), codec@, fps, heard, path, out@, "-f"@);
    lemma_read(target.source(), codec@, fps, heard, path, out@, "-fm"@);
    lemma_read(target.source(), codec@, fps, heard, path, out@, "-k"@);
    lemma_read(target.source(), codec@, fps, heard, path, out@, "-q"@);
    lemma_read(target.source(), codec@, fps, heard, path, out@, "-bm"@);
    lemma_read(target.source(), codec@, fps, heard, path, out@, "-keyint"@);
    lemma_read(target.source(), codec@, fps, heard, path, out@, "-cursor"@);
    lemma_read(target.source(), codec@, fps, heard, path, out@, "-fallback-cpu-encoding"@);
    lemma_read(target.source(), codec@, fps, heard, path, out@, "-ffmpeg-opts"@);
    lemma_read(target.source(), codec@, fps, heard, path, out@, "-encoder"@);
    lemma_read(target.source(), codec@, fps, heard, path, out@, "-write-first-frame-ts"@);
    lemma_read(target.source(), codec@, fps, heard, path, out@, "-p"@);
    lemma_read(target.source(), codec@, fps, heard, path, out@, "-o"@);
}

/// Where there are sources of sound, the recorder is told each of them as a device, in one word
/// behind its option; where there are none, the option is missing.
pub proof fn lemma_recorder_sources(
    target: &Target,
    codec: &Codec,
    fps: u32,
    audio: &Vec<String>,
    plugin: Option<&str>,
    out: &str,
    words: Vec<String>,
)
    requires
        call_ensures(args, (target, codec, fps, audio, plugin, out), words),
    ensures
        ({
            let told = |flag: Seq<char>| crate::text::option_from(
                crate::text::views(words@),
                flag,
                0,
            );
            &&& audio@.len() == 0 ==> told("-a"@) is None && told("-ac"@) is None
            &&& audio@.len() > 0 ==> told("-ac"@) == Some("aac"@)
            &&& audio@.len() > 0 ==> (told("-a"@) matches Some(sources) && (forall|i: int|
                0 <= i < audio@.len() ==> crate::text::has_part(
                    sources,
                    "device:"@ + (#[trigger] audio@[i])@,
                )))
            &&& audio@.len() == 1 ==> told("-a"@) == Some("device:"@ + audio@[0]@)
        }),
{
    reveal_strlit("-w");
    reveal_strlit("-c");
    reveal_strlit("-f");
    reveal_strlit("-fm");
    reveal_strlit("-k");
    reveal_strlit("-q");
    reveal_strlit("-bm");
    reveal_strlit("-keyint");
    reveal_strlit("-cursor");
    reveal_strlit("-fallback-cpu-encoding");
    reveal_strlit("-ffmpeg-opts");
    reveal_strlit("-encoder");
    reveal_strlit("-write-first-frame-ts");
    reveal_strlit("-p");
    reveal_strlit("-a");
    reveal_strlit("-ac");
    reveal_strlit("-o");
    assert("-w"@.len() == 2);
    assert("-c"@.len() == 2);
    assert("-f"@.len() == 2);
    assert("-fm"@.len() == 3);
    assert("-k"@.len() == 2);
    assert("-q"@.len() == 2);
    assert("-bm"@.len() == 3);
    assert("-keyint"@.len() == 7);
    assert("-cursor"@.len() == 7);
    assert("-fallback-cpu-encoding"@.len() == 22);
    assert("-ffmpeg-opts"@.len() == 12);
    assert("-encoder"@.len() == 8);
    assert("-write-first-frame-ts"@.len() == 21);
    assert("-p"@.len() == 2);
    assert("-a"@.len() == 2);
    assert("-ac"@.len() == 3);
    assert("-o"@.len() == 2);
    assert("-w"@[1] != "-c"@[1]);
    assert("-w"@[1] != "-f"@[1]);
    assert("-w"@[1] != "-k"@[1]);
    assert("-w"@[1] != "-q"@[1]);
    assert("-w"@[1] != "-p"@[1]);
    assert("-w"@[1] != "-a"@[1]);
    assert("-w"@[1] != "-o"@[1]);
    assert("-c"@[1] != "-f"@[1]);
    assert("-c"@[1] != "-k"@[1]);
    assert("-c"@[1] != "-q"@[1]);
    assert("-c"@[1] != "-p"@[1]);
    assert("-c"@[1] != "-a"@[1]);
    assert("-c"@[1] != "-o"@[1]);
    assert("-f"@[1] != "-k"@[1]);
    assert("-f"@[1] != "-q"@[1]);
    assert("-f"@[1] != "-p"@[1]);
    assert("-f"@[1] != "-a"@[1]);
    assert("-f"@[1] != "-o"@[1]);
    assert("-fm"@[1] != "-bm"@[1]);
    assert("-fm"@[1] != "-ac"@[1]);
    assert("-k"@[1] != "-q"@[1]);
    assert("-k"@[1] != "-p"@[1]);
    assert("-k"@[1] != "-a"@[1]);
    assert("-k"@[1] != "-o"@[1]);
    assert("-q"@[1] != "-p"@[1]);
    assert("-q"@[1] != "-a"@[1]);
    assert("-q"@[1] != "-o"@[1]);
    assert("-bm"@[1] != "-ac"@[1]);
    assert("-keyint"@[1] != "-cursor"@[1]);
    assert("-p"@[1] != "-a"@[1]);
    assert("-p"@[1] != "-o"@[1]);
    assert("-a"@[1] != "-o"@[1]);
    reveal_with_fuel(crate::text::option_from, 12);
    let path = match plugin {
        Some(path) => Some(path@),
        None => None,
    };
    let heard = crate::text::views(audio@);
    lemma_read(target.source(), codec@, fps, heard, path, out@, "-a"@);
    lemma_read(target.source(), codec@, fps, heard, path, out@, "-ac"@);
    let named = Seq::new(heard.len(), |i: int| "device:"@ + heard[i]);
    assert forall|i: int| 0 <= i < audio@.len() implies crate::text::has_part(
        crate::text::joined_by(named, "|"@),
        "device:"@ + (#[trigger] audio@[i])@,
    ) by {
        assert(named[i] == "device:"@ + audio@[i]@);
        crate::text::lemma_joined_holds(named, "|"@, i);
    }
    if audio@.len() == 1 {
        assert(named[0] == "device:"@ + audio@[0]@);
    }
}

/// Sources are told in their order: what is told of the first ones and of the last ones stands in
/// what is told of all of them, with a bar between.
pub proof fn lemma_sources_in_order(
    source: Seq<char>,
    codec: CodecView,
    fps: u32,
    first: Seq<Seq<char>>,
    last: Seq<Seq<char>>,
    plugin: Option<Seq<char>>,
    out: Seq<char>,
)
    requires
        first.len() > 0,
        last.len() > 0,
    ensures
        ({
            let told = |audio: Seq<Seq<char>>| crate::text::option_from(
                recorder_args(source, codec, fps, audio, plugin, out),
                "-a"@,
                0,
            );
            told(first + last) == Some(told(first)->Some_0 + "|"@ + told(last)->Some_0)
        }),
{
    reveal_strlit("-w");
    reveal_strlit("-c");
    reveal_strlit("-f");
    reveal_strlit("-fm");
    reveal_strlit("-k");
    reveal_strlit("-q");
    reveal_strlit("-bm");
    reveal_strlit("-keyint");
    reveal_strlit("-cursor");
    reveal_strlit("-fallback-cpu-encoding");
    reveal_strlit("-ffmpeg-opts");
    reveal_strlit("-encoder");
    reveal_strlit("-write-first-frame-ts");
    reveal_strlit("-p");
    reveal_strlit("-a");
    reveal_strlit("-ac");
    reveal_strlit("-o");
    assert("-w"@.len() == 2);
    assert("-c"@.len() == 2);
    assert("-f"@.len() == 2);
    assert("-fm"@.len() == 3);
    assert("-k"@.len() == 2);
    assert("-q"@.len() == 2);
    assert("-bm"@.len() == 3);
    assert("-keyint"@.len() == 7);
    assert("-cursor"@.len() == 7);
    assert("-fallback-cpu-encoding"@.len() == 22);
    assert("-ffmpeg-opts"@.len() == 12);
    assert("-encoder"@.len() == 8);
    assert("-write-first-frame-ts"@.len() == 21);
    assert("-p"@.len() == 2);
    assert("-a"@.len() == 2);
    assert("-ac"@.len() == 3);
    assert("-o"@.len() == 2);
    assert("-w"@[1] != "-c"@[1]);
    assert("-w"@[1] != "-f"@[1]);
    assert("-w"@[1] != "-k"@[1]);
    assert("-w"@[1] != "-q"@[1]);
    assert("-w"@[1] != "-p"@[1]);
    assert("-w"@[1] != "-a"@[1]);
    assert("-w"@[1] != "-o"@[1]);
    assert("-c"@[1] != "-f"@[1]);
    assert("-c"@[1] != "-k"@[1]);
    assert("-c"@[1] != "-q"@[1]);
    assert("-c"@[1] != "-p"@[1]);
    assert("-c"@[1] != "-a"@[1]);
    assert("-c"@[1] != "-o"@[1]);
    assert("-f"@[1] != "-k"@[1]);
    assert("-f"@[1] != "-q"@[1]);
    assert("-f"@[1] != "-p"@[1]);
    assert("-f"@[1] != "-a"@[1]);
    assert("-f"@[1] != "-o"@[1]);
    assert("-fm"@[1] != "-bm"@[1]);
    assert("-fm"@[1] != "-ac"@[1]);
    assert("-k"@[1] != "-q"@[1]);
    assert("-k"@[1] != "-p"@[1]);
    assert("-k"@[1] != "-a"@[1]);
    assert("-k"@[1] != "-o"@[1]);
    assert("-q"@[1] != "-p"@[1]);
    assert("-q"@[1] != "-a"@[1]);
    assert("-q"@[1] != "-o"@[1]);
    assert("-bm"@[1] != "-ac"@[1]);
    assert("-keyint"@[1] != "-cursor"@[1]);
    assert("-p"@[1] != "-a"@[1]);
    assert("-p"@[1] != "-o"@[1]);
    assert("-a"@[1] != "-o"@[1]);
    reveal_with_fuel(crate::text::option_from, 12);
    let both = first + last;
    lemma_read(source, codec, fps, first, plugin, out, "-a"@);
    lemma_read(source, codec, fps, last, plugin, out, "-a"@);
    lemma_read(source, codec, fps, both, plugin, out, "-a"@);
    let names = Seq::new(first.len(), |i: int| "device:"@ + first[i]);
    let behind = Seq::new(last.len(), |i: int| "device:"@ + last[i]);
    assert(Seq::new(both.len(), |i: int| "device:"@ + both[i]) =~= names + behind);
    crate::text::lemma_joined_parts(names, behind, "|"@);
}

/// A part of the screen is told as its width, its height and the place of its corner, in that order.
pub proof fn lemma_region_source(geo: &Geometry)
    ensures
        Target::Region(geo).source() == crate::text::decimal(geo.w as nat) + "x"@
            + crate::text::decimal(geo.h as nat) + "+"@ + crate::text::signed_decimal(geo.x as int)
            + "+"@ + crate::text::signed_decimal(geo.y as int),
{
}

/// An output and a combination are told as they are named.
pub proof fn lemma_named_source(name: &str)
    ensures
        Target::Output(name).source() == name@,
        Target::Combined(name).source() == name@,
{
}

/// A codec is chosen only where the recorder can encode it, it is the one that was asked for, and it
/// runs on the processor only where that was asked for.
pub proof fn lemma_chosen_codec(info: InfoView, requested: Seq<char>)
    ensures
        info.choice(requested) matches Ok(codec) ==> {
            &&& codec.cpu <==> requested == "libx264"@
            &&& codec.cpu ==> codec.name == "h264"@ && codec.encoder == "libx264"@ && info.has(
                "h264_software"@,
            )
            &&& !codec.cpu && !crate::text::has_suffix(codec.name, "_software"@) ==> info.has(
                codec.name,
            )
            &&& requested == "auto"@ ==> codec.name == "h264"@ || (codec.name == "h264_vulkan"@
                && !info.has("h264"@))
            &&& !codec.cpu && !crate::text::has_suffix(codec.name, "_vulkan"@) ==> codec.encoder
                == codec.name + (if info.vendor == "nvidia"@ {
                "_nvenc"@
            } else {
                "_vaapi"@
            })
            &&& !codec.cpu && crate::text::has_suffix(codec.name, "_vulkan"@) ==> codec.encoder
                == codec.name
        },
        requested == "auto"@ ==> (info.choice(requested) is Ok <==> info.has("h264"@) || info.has(
            "h264_vulkan"@,
        )),
        requested == "libx264"@ ==> (info.choice(requested) is Ok <==> info.has("h264_software"@)),
        requested == "h264"@ || requested == "h264_nvenc"@ || requested == "h264_vaapi"@ ==> (
        info.choice(requested) is Ok <==> info.has("h264"@)),
        requested == "hevc"@ || requested == "hevc_nvenc"@ || requested == "hevc_vaapi"@ ==> (
        info.choice(requested) is Ok <==> info.has("hevc"@)),
        requested == "av1"@ || requested == "av1_nvenc"@ || requested == "av1_vaapi"@ ==> (
        info.choice(requested) is Ok <==> info.has("av1"@)),
        info.choice(requested) matches Ok(codec) ==> (requested == "h264"@ || requested
            == "h264_nvenc"@ || requested == "h264_vaapi"@ ==> codec.name == "h264"@) && (requested
            == "hevc"@ || requested == "hevc_nvenc"@ || requested == "hevc_vaapi"@ ==> codec.name
            == "hevc"@) && (requested == "av1"@ || requested == "av1_nvenc"@ || requested
            == "av1_vaapi"@ ==> codec.name == "av1"@),
        crate::text::has_suffix(requested, "_vulkan"@) ==> (info.choice(requested) is Ok <==> info.has(
            requested,
        )) && (info.choice(requested) matches Ok(codec) ==> codec.name == requested),
{
    reveal_strlit("auto");
    reveal_strlit("libx264");
    reveal_strlit("h264_nvenc");
    reveal_strlit("h264_vaapi");
    reveal_strlit("hevc_nvenc");
    reveal_strlit("hevc_vaapi");
    reveal_strlit("av1_nvenc");
    reveal_strlit("av1_vaapi");
    reveal_strlit("h264");
    reveal_strlit("hevc");
    reveal_strlit("av1");
    reveal_strlit("_vulkan");
    reveal_strlit("h264_vulkan");
    reveal_strlit("h264_software");
    reveal_strlit("_software");
    assert("auto"@.len() == 4);
    assert("libx264"@.len() == 7);
    assert("h264_nvenc"@.len() == 10);
    assert("h264_vaapi"@.len() == 10);
    assert("hevc_nvenc"@.len() == 10);
    assert("hevc_vaapi"@.len() == 10);
    assert("av1_nvenc"@.len() == 9);
    assert("av1_vaapi"@.len() == 9);
    assert("h264"@.len() == 4);
    assert("hevc"@.len() == 4);
    assert("av1"@.len() == 3);
    assert("_vulkan"@.len() == 7);
    assert("h264_vulkan"@.len() == 11);
    assert("h264_software"@.len() == 13);
    assert("_software"@.len() == 9);
    assert("auto"@[0] != "h264"@[0]);
    assert("auto"@[0] != "hevc"@[0]);
    assert("libx264"@[0] != "_vulkan"@[0]);
    assert("h264_nvenc"@[5] != "h264_vaapi"@[5]);
    assert("h264_nvenc"@[1] != "hevc_nvenc"@[1]);
    assert("h264_nvenc"@[1] != "hevc_vaapi"@[1]);
    assert("h264_vaapi"@[1] != "hevc_nvenc"@[1]);
    assert("h264_vaapi"@[1] != "hevc_vaapi"@[1]);
    assert("hevc_nvenc"@[5] != "hevc_vaapi"@[5]);
    assert("av1_nvenc"@[4] != "av1_vaapi"@[4]);
    assert("av1_nvenc"@[0] != "_software"@[0]);
    assert("av1_vaapi"@[0] != "_software"@[0]);
    assert("h264"@[1] != "hevc"@[1]);
    assert("h264_software"@.skip(4) =~= "_software"@);
    assert("h264_software"@.take(4) =~= "h264"@);
    assert("h264_vulkan"@.skip(4) =~= "_vulkan"@);
    if crate::text::has_suffix(requested, "_vulkan"@) {
        let tail = requested.skip(requested.len() - 7);
        assert(tail.last() == "_vulkan"@[6]);
        assert(requested.last() == 'n');
        if crate::text::has_suffix(requested, "_software"@) {
            assert(requested.skip(requested.len() - 9).last() == "_software"@[8]);
        }
        assert("libx264"@.last() == '4');
        assert("h264_nvenc"@.last() == 'c');
        assert("h264_vaapi"@.last() == 'i');
        assert("hevc_nvenc"@.last() == 'c');
        assert("hevc_vaapi"@.last() == 'i');
        assert("av1_nvenc"@.last() == 'c');
        assert("av1_vaapi"@.last() == 'i');
        assert("auto"@.last() == 'o');
    }
    assert("h264_vulkan"@.skip(2).last() == 'n');
    assert("h264_software"@.skip(6).last() == 'e');
}

/// Outputs side by side are recorded each at its own place, which is told behind its name: the place
/// across first.
pub proof fn lemma_combined_places(monitors: &Vec<Monitor>, told: Option<String>, i: int)
    requires
        call_ensures(combined_source, (monitors,), told),
        0 <= i < monitors@.len(),
    ensures
        told matches Some(source) ==> {
            &&& monitors@.len() >= 2
            &&& crate::text::has_part(
                source@,
                monitors@[i].name@ + ";x="@ + crate::text::decimal(
                    place_of(monitors@, i).0 as nat,
                ) + ";y="@ + crate::text::decimal(place_of(monitors@, i).1 as nat),
            )
            &&& place_of(monitors@, i).0 >= 0 && place_of(monitors@, i).1 >= 0
            &&& place_of(monitors@, i).0 + monitors@[i].width <= 4096
            &&& place_of(monitors@, i).1 + monitors@[i].height <= 4096
            &&& (forall|k: int|
                0 <= k < monitors@.len() ==> monitors@[i].x <= (#[trigger] monitors@[k]).x)
                ==> place_of(monitors@, i).0 == 0
            &&& (forall|k: int|
                0 <= k < monitors@.len() ==> monitors@[i].y <= (#[trigger] monitors@[k]).y)
                ==> place_of(monitors@, i).1 == 0
        },
{
    if let Some(source) = told {
        let sources = Seq::new(monitors@.len(), |k: int| source_of(monitors@, k));
        crate::text::lemma_joined_holds(sources, "|"@, i);
        assert(sources[i] == source_of(monitors@, i));
        let across = lefts(monitors@);
        let down = tops(monitors@);
        lemma_smallest(across);
        lemma_smallest(down);
        assert(across[i] == monitors@[i].x);
        assert(down[i] == monitors@[i].y);
        if forall|k: int| 0 <= k < monitors@.len() ==> monitors@[i].x <= (#[trigger] monitors@[k]).x {
            let k = choose|k: int| 0 <= k < across.len() && across[k] == smallest(across);
            assert(across[k] == monitors@[k].x);
        }
        if forall|k: int| 0 <= k < monitors@.len() ==> monitors@[i].y <= (#[trigger] monitors@[k]).y {
            let k = choose|k: int| 0 <= k < down.len() && down[k] == smallest(down);
            assert(down[k] == monitors@[k].y);
        }
        crate::record::lemma_pixels_of(monitors@[i].scale, monitors@[i].x - smallest(across));
        crate::record::lemma_pixels_of(monitors@[i].scale, monitors@[i].y - smallest(down));
    }
}

/// Outputs are recorded together exactly where there are two at least, all at one scale, and each lies
/// within what the hardware can encode.
pub proof fn lemma_combinable(monitors: &Vec<Monitor>, told: Option<String>)
    requires
        call_ensures(combined_source, (monitors,), told),
    ensures
        told is Some ==> monitors@.len() >= 2,
        told is Some ==> forall|i: int|
            0 <= i < monitors@.len() ==> (#[trigger] monitors@[i]).scale.numerator > 0
                && monitors@[i].scale.denominator > 0 && monitors@[i].scale.numerator
                * monitors@[0].scale.denominator == monitors@[0].scale.numerator
                * monitors@[i].scale.denominator,
        monitors@.len() >= 2 && (forall|i: int|
            0 <= i < monitors@.len() ==> (#[trigger] monitors@[i]).scale.positive()
                && monitors@[i].scale == monitors@[0].scale && place_of(monitors@, i).0
                + monitors@[i].width <= 4096 && place_of(monitors@, i).1 + monitors@[i].height
                <= 4096) ==> told is Some,
{
    if monitors@.len() >= 2 && (forall|i: int|
        0 <= i < monitors@.len() ==> (#[trigger] monitors@[i]).scale.positive()
            && monitors@[i].scale == monitors@[0].scale && place_of(monitors@, i).0
            + monitors@[i].width <= 4096 && place_of(monitors@, i).1 + monitors@[i].height <= 4096) {
        assert forall|i: int| 0 <= i < monitors@.len() implies (
        #[trigger] monitors@[i]).scale.positive() && monitors@[i].scale.same(monitors@[0].scale) by {}
        assert forall|i: int| 0 <= i < monitors@.len() implies #[trigger] place_of(monitors@, i).0
            + monitors@[i].width <= HARDWARE_H264_MAX_SIDE && place_of(monitors@, i).1
            + monitors@[i].height <= HARDWARE_H264_MAX_SIDE by {
            assert(monitors@[i].scale.positive());
        }
        assert(combinable(monitors@));
    }
}

/// What the recorder tells of itself is read line by line: a line that begins a section, a codec in
/// the section of codecs, the vendor anywhere else; other lines say nothing.
pub proof fn lemma_info_line(
    info: InfoView,
    lines: Seq<Seq<char>>,
    at: int,
    section: Seq<char>,
    name: Seq<char>,
)
    requires
        0 <= at < lines.len(),
    ensures
        crate::text::trimmed(lines[at]) == "section="@ + name ==> info.with_lines(
            lines,
            at,
            section,
        ) == info.with_lines(lines, at + 1, name),
        crate::text::without_prefix(crate::text::trimmed(lines[at]), "section="@) is None && section
            == "video_codecs"@ && crate::text::trimmed(lines[at]) == name && name.len() > 0
            ==> info.with_lines(lines, at, section) == (InfoView {
            vendor: info.vendor,
            codecs: info.codecs.push(name),
        }).with_lines(lines, at + 1, section),
        section != "video_codecs"@ && crate::text::trimmed(lines[at]) == "vendor|"@ + name
            ==> info.with_lines(lines, at, section) == (InfoView {
            vendor: name,
            codecs: info.codecs,
        }).with_lines(lines, at + 1, section),
        crate::text::trimmed(lines[at]).len() == 0 ==> info.with_lines(lines, at, section)
            == info.with_lines(lines, at + 1, section),
        section != "video_codecs"@ && crate::text::without_prefix(
            crate::text::trimmed(lines[at]),
            "section="@,
        ) is None && crate::text::without_prefix(crate::text::trimmed(lines[at]), "vendor|"@) is None
            ==> info.with_lines(lines, at, section) == info.with_lines(lines, at + 1, section),
        info.with_lines(lines, lines.len() as int, section) == info,
{
    reveal_strlit("section=");
    reveal_strlit("vendor|");
    let line = crate::text::trimmed(lines[at]);
    if line == "section="@ + name {
        assert(line.take(8) =~= "section="@);
        assert(line.skip(8) =~= name);
    }
    if line == "vendor|"@ + name {
        assert(line.take(7) =~= "vendor|"@);
        assert(line.skip(7) =~= name);
        if crate::text::without_prefix(line, "section="@) is Some {
            assert(line.take(8)[0] == line[0]);
            assert("section="@[0] == 's');
            assert("vendor|"@[0] == 'v');
        }
    }
}

/// What is read begins without a vendor and without codecs, outside of any section.
pub proof fn lemma_info_begins(text: &str, info: Info)
    requires
        call_ensures(parse_info, (text,), info),
    ensures
        crate::text::line_views(text@).len() == 0 ==> info@.vendor.len() == 0 && info@.codecs.len()
            == 0,
        info@ == (InfoView { vendor: Seq::empty(), codecs: Seq::empty() }).with_lines(
            crate::text::line_views(text@),
            0,
            Seq::empty(),
        ),
{
}

} // verus!
