//! Screenshots on Linux.
use vstd::prelude::*;
use vstd::string::StringExecFns;

use crate::cli::{Backend, CaptureMode};
use crate::document::{Document, DocumentView};
use crate::json::{parse_json, Parsed};
use crate::picture::write_png;
use crate::pixels::{crop, pixel, uniform_rings, Image, Rgb, Rgba};
use crate::text::{
    decimal_string, joined, parse_integer, signed_decimal_string, split_once, trim,
};

verus! {

/// The largest of three.
pub open spec fn max3(a: u8, b: u8, c: u8) -> int {
    let ab = if a < b {
        b
    } else {
        a
    };
    if ab < c {
        c as int
    } else {
        ab as int
    }
}

/// The smallest of three.
pub open spec fn min3(a: u8, b: u8, c: u8) -> int {
    let ab = if b < a {
        b
    } else {
        a
    };
    if c < ab {
        c as int
    } else {
        ab as int
    }
}

impl Rgb {
    /// A colour that is about grey.
    pub open spec fn is_grayish(self) -> bool {
        max3(self.r, self.g, self.b) - min3(self.r, self.g, self.b) <= 8
    }
}

impl Image<Rgb> {
    /// Of every eighth pixel of every eighth row within `peel` rings and one more, one differs
    /// from the first.
    pub open spec fn varies(&self, peel: int) -> bool {
        exists|i: int, j: int|
            0 <= i && 0 <= j && peel + 1 + 8 * i < self.width - peel - 1 && peel + 1 + 8 * j
                < self.height - peel - 1 && #[trigger] self.at(peel + 1 + 8 * i, peel + 1 + 8 * j)
                != self.at(peel + 1, peel + 1)
    }

    /// How many rings of a window's border can go: up to four of one grey colour, around a picture
    /// that is not of one colour itself.
    pub open spec fn border(&self) -> int {
        if self.width < 32 || self.height < 32 || !self.at(0, 0).is_grayish() || !self.varies(
            self.peel(0),
        ) {
            0
        } else {
            self.peel(0)
        }
    }
}

/// `colour` is about grey.
fn is_grayish(colour: Rgb) -> (r: bool)
    ensures
        r == colour.is_grayish(),
{
    let ab_max: u8 = if colour.r < colour.g {
        colour.g
    } else {
        colour.r
    };
    let max: u8 = if ab_max < colour.b {
        colour.b
    } else {
        ab_max
    };
    let ab_min: u8 = if colour.g < colour.r {
        colour.g
    } else {
        colour.r
    };
    let min: u8 = if colour.b < ab_min {
        colour.b
    } else {
        ab_min
    };
    max - min <= 8
}

/// Of every eighth pixel of every eighth row within `peel` rings and one more, one differs from the
/// first.
fn varies(image: &Image<Rgb>, peel: u32) -> (r: bool)
    requires
        image.well_formed(),
        image.width >= 32,
        image.height >= 32,
        peel <= 4,
    ensures
        r == image.varies(peel as int),
{
    let inner = pixel(image, peel + 1, peel + 1);
    let (width, height, first) = (image.width as u64, image.height as u64, peel as u64 + 1);
    let mut y: u64 = first;
    let ghost mut j: int = 0;
    while y < height - first
        invariant
            image.well_formed(),
            32 <= image.width,
            32 <= image.height,
            peel <= 4,
            width == image.width,
            height == image.height,
            first == peel + 1,
            inner == image.at(peel + 1, peel + 1),
            0 <= j,
            y == peel + 1 + 8 * j,
            forall|a: int, b: int|
                0 <= a && 0 <= b < j && peel + 1 + 8 * a < image.width - peel - 1 ==>
                #[trigger] image.at(peel + 1 + 8 * a, peel + 1 + 8 * b) == inner,
        decreases height + 8 - y,
    {
        let mut x: u64 = first;
        let ghost mut i: int = 0;
        while x < width - first
            invariant
                image.well_formed(),
                32 <= image.width,
                32 <= image.height,
                peel <= 4,
                width == image.width,
                height == image.height,
                first == peel + 1,
                inner == image.at(peel + 1, peel + 1),
                0 <= i,
                0 <= j,
                x == peel + 1 + 8 * i,
                y == peel + 1 + 8 * j,
                y < image.height - peel - 1,
                forall|a: int| 0 <= a < i ==> #[trigger] image.at(peel + 1 + 8 * a, y as int) == inner,
            decreases width + 8 - x,
        {
            if pixel(image, x as u32, y as u32) != inner {
                assert(image.at(peel + 1 + 8 * i, peel + 1 + 8 * j) != inner);
                return true;
            }
            x = x + 8;
            proof {
                i = i + 1;
            }
        }
        proof {
            assert forall|a: int, b: int|
                0 <= a && 0 <= b < j + 1 && peel + 1 + 8 * a < image.width - peel - 1 implies
                #[trigger] image.at(peel + 1 + 8 * a, peel + 1 + 8 * b) == inner by {
                if b == j {
                    assert(image.at(peel + 1 + 8 * a, y as int) == inner);
                }
            }
            j = j + 1;
        }
        y = y + 8;
    }
    false
}

/// The picture of a window without its border: up to four rings of one grey colour around a
/// picture that is not of one colour itself.
pub fn strip_uniform_border(image: Image<Rgb>) -> (r: Image<Rgb>)
    requires
        image.well_formed(),
    ensures
        0 <= image.border() <= 4,
        image.border() == 0 ==> r == image,
        image.border() > 0 ==> {
            &&& r.width == image.width - 2 * image.border()
            &&& r.height == image.height - 2 * image.border()
            &&& image.is_crop(image.border(), image.border(), r)
        },
{
    let (w, h) = (image.width, image.height);
    if w < 32 || h < 32 {
        return image;
    }
    if !is_grayish(pixel(&image, 0, 0)) {
        return image;
    }
    let peel: u32 = uniform_rings(&image);
    if peel == 0 || !varies(&image, peel) {
        return image;
    }
    crop(&image, peel, peel, w - 2 * peel, h - 2 * peel)
}

/// A part of the desktop.
#[derive(Clone, Copy, Debug, PartialEq, Eq, Structural)]
pub struct Region {
    pub x: i32,
    pub y: i32,
    pub width: u32,
    pub height: u32,
}

/// A number of a geometry: white space around it does not count.
pub open spec fn geometry_number(text: Seq<char>, min: int, max: int) -> Result<int, Seq<char>> {
    match crate::text::integer(crate::text::trimmed(text), min, max) {
        Ok(value) => Ok(value),
        Err(error) => Err(error.text()),
    }
}

impl Region {
    /// The region with the given numbers, where it is not empty and ends within the coordinates;
    /// `geometry` stands in the error.
    ///
    /// The bound on where a region ends, and the message for it, are this library's own reading of
    /// what `libway` refuses in `Rect::validate`. What else `Rect::validate` refuses, and in which
    /// words, is not claimed here.
    pub open spec fn checked(x: int, y: int, w: int, h: int, geometry: Seq<char>) -> Result<
        Region,
        Seq<char>,
    > {
        if w == 0 || h == 0 {
            Err("zero-sized region '"@ + geometry + "'"@)
        } else if x + w > i32::MAX || y + h > i32::MAX {
            Err("invalid region '"@ + geometry + "'"@)
        } else {
            Ok(Region { x: x as i32, y: y as i32, width: w as u32, height: h as u32 })
        }
    }

    /// The region that a text of the form `x,y WxH` gives.
    pub open spec fn described(geometry: Seq<char>) -> Result<Region, Seq<char>> {
        match crate::text::split(geometry, ' ') {
            None => Err("bad geometry '"@ + geometry + "'"@),
            Some((pos, size)) => match crate::text::split(pos, ',') {
                None => Err("bad geometry position '"@ + pos + "'"@),
                Some((x, y)) => match crate::text::split(size, 'x') {
                    None => Err("bad geometry size '"@ + size + "'"@),
                    Some((w, h)) => match geometry_number(x, i32::MIN as int, i32::MAX as int) {
                        Err(error) => Err(error),
                        Ok(x) => match geometry_number(y, i32::MIN as int, i32::MAX as int) {
                            Err(error) => Err(error),
                            Ok(y) => match geometry_number(w, 0, u32::MAX as int) {
                                Err(error) => Err(error),
                                Ok(w) => match geometry_number(h, 0, u32::MAX as int) {
                                    Err(error) => Err(error),
                                    Ok(h) => Region::checked(x, y, w, h, geometry),
                                },
                            },
                        },
                    },
                },
            },
        }
    }
}

/// `before`, `text` and `'`.
fn quoted(before: &str, text: &str) -> (r: String)
    ensures
        r@ == before@ + text@ + "'"@,
{
    let mut out: String = joined(before, text);
    out.append("'");
    out
}

/// A number of a geometry: white space around it does not count.
fn parse_geometry_number(text: &str, min: i64, max: u64) -> (r: Result<i128, String>)
    requires
        min <= 0,
    ensures
        geometry_number(text@, min as int, max as int) == (match r {
            Ok(value) => Ok(value as int),
            Err(error) => Err(error@),
        }),
        r matches Ok(value) ==> min <= value <= max,
{
    match parse_integer(trim(text).as_str(), min, max) {
        Ok(value) => Ok(value),
        Err(error) => Err(error.message()),
    }
}

/// The region that a text of the form `x,y WxH` gives.
pub fn parse_geometry(geometry: &str) -> (r: Result<Region, String>)
    ensures
        Region::described(geometry@) == (match r {
            Ok(region) => Ok(region),
            Err(error) => Err(error@),
        }),
{
    let (pos, size) = match split_once(geometry, ' ') {
        None => {
            return Err(quoted("bad geometry '", geometry));
        },
        Some(parts) => parts,
    };
    let (x, y) = match split_once(pos.as_str(), ',') {
        None => {
            return Err(quoted("bad geometry position '", pos.as_str()));
        },
        Some(parts) => parts,
    };
    let (w, h) = match split_once(size.as_str(), 'x') {
        None => {
            return Err(quoted("bad geometry size '", size.as_str()));
        },
        Some(parts) => parts,
    };
    let x: i128 = match parse_geometry_number(x.as_str(), i32::MIN as i64, i32::MAX as u64) {
        Err(error) => {
            return Err(error);
        },
        Ok(x) => x,
    };
    let y: i128 = match parse_geometry_number(y.as_str(), i32::MIN as i64, i32::MAX as u64) {
        Err(error) => {
            return Err(error);
        },
        Ok(y) => y,
    };
    let w: i128 = match parse_geometry_number(w.as_str(), 0, u32::MAX as u64) {
        Err(error) => {
            return Err(error);
        },
        Ok(w) => w,
    };
    let h: i128 = match parse_geometry_number(h.as_str(), 0, u32::MAX as u64) {
        Err(error) => {
            return Err(error);
        },
        Ok(h) => h,
    };
    if w == 0 || h == 0 {
        return Err(quoted("zero-sized region '", geometry));
    }
    if x + w > i32::MAX as i128 || y + h > i32::MAX as i128 {
        return Err(quoted("invalid region '", geometry));
    }
    Ok(Region { x: x as i32, y: y as i32, width: w as u32, height: h as u32 })
}

/// The two integers that an array begins with.
pub open spec fn pair(value: Option<DocumentView>) -> Option<(int, int)> {
    match value {
        Some(DocumentView::Array(items)) => if items.len() >= 2 && items[0] is Number && items[1] is Number
            && i64::MIN <= items[0]->Number_0 <= i64::MAX && i64::MIN <= items[1]->Number_0
            <= i64::MAX {
            Some((items[0]->Number_0, items[1]->Number_0))
        } else {
            None
        },
        _ => None,
    }
}

/// The geometry of the window that the compositor's answer describes, as text.
pub open spec fn window_geometry(json: Seq<char>) -> Option<Seq<char>> {
    match crate::json::parsed_json(vstd::utf8::encode_utf8(json)) {
        Parsed::Refused(_) => None,
        Parsed::Document(value) => match (pair(value.field("at"@)), pair(value.field("size"@))) {
            (Some((x, y)), Some((w, h))) => if w > 0 && h > 0 {
                Some(
                    crate::text::signed_decimal(x) + ","@ + crate::text::signed_decimal(y) + " "@
                        + crate::text::signed_decimal(w) + "x"@ + crate::text::signed_decimal(h),
                )
            } else {
                None
            },
            _ => None,
        },
    }
}

/// The integer that `value` is, where it fits `i64`.
fn integer_of(value: &Document) -> (r: Option<i64>)
    ensures
        r == (match value@ {
            DocumentView::Number(n) if i64::MIN <= n <= i64::MAX => Some(n as i64),
            _ => None,
        }),
{
    match value {
        Document::Signed(n) => Some(*n),
        Document::Unsigned(n) => if *n <= i64::MAX as u64 {
            Some(*n as i64)
        } else {
            None
        },
        _ => None,
    }
}

/// The two integers that the array in `value` begins with.
fn pair_of(value: Option<&Document>) -> (r: Option<(i64, i64)>)
    ensures
        pair(
            match value {
                Some(value) => Some(value@),
                None => None,
            },
        ) == (match r {
            Some((a, b)) => Some((a as int, b as int)),
            None => None,
        }),
{
    match value {
        Some(Document::Array(items)) => {
            proof {
                crate::document::lemma_item_views(items@);
            }
            if items.len() < 2 {
                return None;
            }
            assert(crate::document::item_views(items@)[0] == items@[0]@);
            assert(crate::document::item_views(items@)[1] == items@[1]@);
            match (integer_of(&items[0]), integer_of(&items[1])) {
                (Some(a), Some(b)) => Some((a, b)),
                _ => None,
            }
        },
        _ => None,
    }
}

/// The geometry of the window that the compositor's answer `json` describes, as text.
pub fn parse_hypr_window_geometry(json: &str) -> (r: Option<String>)
    ensures
        crate::text::view_of(r) == window_geometry(json@),
{
    let value = match parse_json(json.as_bytes()) {
        Ok(value) => value,
        Err(_) => {
            return None;
        },
    };
    let at = pair_of(value.get("at"));
    let size = pair_of(value.get("size"));
    match (at, size) {
        (Some((x, y)), Some((w, h))) => {
            if w <= 0 || h <= 0 {
                return None;
            }
            let mut geometry: String = signed_decimal_string(x);
            geometry.append(",");
            geometry.append(signed_decimal_string(y).as_str());
            geometry.append(" ");
            geometry.append(signed_decimal_string(w).as_str());
            geometry.append("x");
            geometry.append(signed_decimal_string(h).as_str());
            Some(geometry)
        },
        _ => None,
    }
}

/// How a screenshot is taken from an X server.
#[derive(Clone, Copy, Debug, PartialEq, Eq, Structural)]
pub enum X11Target {
    Root,
    Window(u32),
    /// Let the user pick a window first.
    Pick,
}

/// How to begin to take a screenshot from an X server; `active` is the window in use, if that is
/// known. Selecting a region is not to be had there.
pub fn x11_target(mode: CaptureMode, active: Option<u32>) -> (r: Result<X11Target, String>)
    ensures
        match mode {
            CaptureMode::Full => r == Ok::<X11Target, String>(X11Target::Root),
            CaptureMode::Area => r matches Err(message) && message@ == no_region()@,
            CaptureMode::Window => r == Ok::<X11Target, String>(X11Target::Pick),
            CaptureMode::ActiveWindow => match active {
                Some(id) if id != 0 => r == Ok::<X11Target, String>(X11Target::Window(id)),
                _ => r == Ok::<X11Target, String>(X11Target::Pick),
            },
        },
{
    match mode {
        CaptureMode::Full => Ok(X11Target::Root),
        CaptureMode::Area => Err(NO_REGION.to_owned()),
        CaptureMode::Window => Ok(X11Target::Pick),
        CaptureMode::ActiveWindow => match active {
            Some(id) => if id != 0 {
                Ok(X11Target::Window(id))
            } else {
                Ok(X11Target::Pick)
            },
            None => Ok(X11Target::Pick),
        },
    }
}

/// What is said where a region was to be selected on an X server.
pub const NO_REGION: &'static str =
    "interactive region selection requires Wayland (wlr-layer-shell); on X11 use `boltsnap full`, capture a window, or force `--backend wayland`";

/// What is said where a region was to be selected on an X server.
pub open spec fn no_region() -> &'static str {
    NO_REGION
}

/// The window that a click is on: the one under the pointer, or else the one that got the click.
pub fn x11_clicked(child: u32, event: u32) -> (r: u32)
    ensures
        r == (if child != 0 {
            child
        } else {
            event
        }),
{
    if child != 0 {
        child
    } else {
        event
    }
}

/// The window that a user picked: a click on no window picks none, and is refused as a region is.
pub fn x11_picked(picked: Option<u32>) -> (r: Result<u32, String>)
    ensures
        match picked {
            Some(id) if id != 0 => r == Ok::<u32, String>(id),
            _ => r matches Err(message) && message@ == no_region()@,
        },
{
    match picked {
        Some(id) => if id != 0 {
            Ok(id)
        } else {
            Err(NO_REGION.to_owned())
        },
        None => Err(NO_REGION.to_owned()),
    }
}

/// The four bytes from `4 * at` on, as an X server stores a pixel: blue, green, red and padding.
pub open spec fn stored_pixel(data: Seq<u8>, at: int) -> Rgba {
    Rgba { r: data[4 * at + 2], g: data[4 * at + 1], b: data[4 * at], a: 255 }
}

/// How many bytes of `data` there are for each pixel, as far as whole rows and pixels go.
pub open spec fn bytes_per_pixel(data: Seq<u8>, width: u16, height: u16) -> int {
    (data.len() as int / height as int) / width as int
}

/// The picture in the answer of an X server. A size of nothing and anything but four bytes for each
/// pixel are refused.
pub fn x11_image(width: u16, height: u16, data: &[u8], depth: u8) -> (r: Result<Image<Rgba>, String>)
    ensures
        if width == 0 || height == 0 {
            r matches Err(message) && message@ == "zero-sized X11 capture rect "@
                + crate::text::decimal(width as nat) + "x"@ + crate::text::decimal(height as nat)
        } else if bytes_per_pixel(data@, width, height) != 4 {
            r matches Err(message) && message@ == "unexpected X11 pixmap stride: "@
                + crate::text::decimal(bytes_per_pixel(data@, width, height) as nat)
                + " bytes per pixel (depth "@ + crate::text::decimal(depth as nat) + ")"@
        } else {
            r matches Ok(image) && image.width == width && image.height == height
                && image.well_formed() && (forall|i: int|
                0 <= i < image.pixels@.len() ==> #[trigger] image.pixels@[i] == stored_pixel(data@, i))
        },
{
    if width == 0 || height == 0 {
        let mut message: String = joined(
            "zero-sized X11 capture rect ",
            decimal_string(width as u128).as_str(),
        );
        message.append("x");
        message.append(decimal_string(height as u128).as_str());
        return Err(message);
    }
    let stride: usize = data.len() / height as usize;
    let bytes: usize = stride / width as usize;
    if bytes != 4 {
        let mut message: String = joined(
            "unexpected X11 pixmap stride: ",
            decimal_string(bytes as u128).as_str(),
        );
        message.append(" bytes per pixel (depth ");
        message.append(decimal_string(depth as u128).as_str());
        message.append(")");
        return Err(message);
    }
    proof {
        assert(4 * (width * height) <= data@.len()) by (nonlinear_arith)
            requires
                stride == data@.len() as int / height as int,
                4 == stride as int / width as int,
                width > 0,
                height > 0,
        ;
        assert(width * height <= 65535 * 65535) by (nonlinear_arith)
            requires
                width <= 65535,
                height <= 65535,
        ;
    }
    let count: usize = width as usize * height as usize;
    let mut pixels: Vec<Rgba> = Vec::new();
    let mut i: usize = 0;
    while i < count
        invariant
            i <= count,
            count * 4 <= data.len(),
            pixels.len() == i,
            forall|j: int| 0 <= j < i ==> #[trigger] pixels@[j] == stored_pixel(data@, j),
        decreases count - i,
    {
        pixels.push(Rgba { r: data[4 * i + 2], g: data[4 * i + 1], b: data[4 * i], a: 255 });
        i = i + 1;
    }
    Ok(Image { width: width as u32, height: height as u32, pixels })
}

/// A picture without its opacity.
pub fn into_rgb(image: &Image<Rgba>) -> (r: Image<Rgb>)
    ensures
        r.width == image.width,
        r.height == image.height,
        r.pixels@.len() == image.pixels@.len(),
        forall|i: int|
            0 <= i < r.pixels@.len() ==> #[trigger] r.pixels@[i] == (Rgb {
                r: image.pixels@[i].r,
                g: image.pixels@[i].g,
                b: image.pixels@[i].b,
            }),
{
    let mut pixels: Vec<Rgb> = Vec::new();
    let mut i: usize = 0;
    while i < image.pixels.len()
        invariant
            i <= image.pixels.len(),
            pixels.len() == i,
            forall|j: int|
                0 <= j < i ==> #[trigger] pixels@[j] == (Rgb {
                    r: image.pixels@[j].r,
                    g: image.pixels@[j].g,
                    b: image.pixels@[j].b,
                }),
        decreases image.pixels.len() - i,
    {
        let pixel = image.pixels[i];
        pixels.push(Rgb { r: pixel.r, g: pixel.g, b: pixel.b });
        i = i + 1;
    }
    Image { width: image.width, height: image.height, pixels }
}

/// A picture without its opacity shows the colours of the picture.
pub open spec fn is_plain(image: Image<Rgba>, plain: Image<Rgb>) -> bool {
    &&& plain.well_formed()
    &&& plain.width == image.width
    &&& plain.height == image.height
    &&& forall|i: int|
        0 <= i < plain.pixels@.len() ==> #[trigger] plain.pixels@[i] == (Rgb {
            r: image.pixels@[i].r,
            g: image.pixels@[i].g,
            b: image.pixels@[i].b,
        })
}

/// What a screenshot becomes: without opacity and, where a window was taken and `trim` asks for it,
/// without the window's border.
pub open spec fn is_kept(image: Image<Rgba>, mode: CaptureMode, trim: bool, kept: Image<Rgb>) -> bool {
    &&& kept.well_formed()
    &&& exists|plain: Image<Rgb>|
        {
            &&& #[trigger] is_plain(image, plain)
            &&& if trim && (mode == CaptureMode::Window || mode == CaptureMode::ActiveWindow)
                && plain.border() > 0 {
                &&& kept.width == image.width - 2 * plain.border()
                &&& kept.height == image.height - 2 * plain.border()
                &&& plain.is_crop(plain.border(), plain.border(), kept)
            } else {
                kept == plain
            }
        }
}

/// A screenshot as it is kept.
pub fn finish_capture(image: &Image<Rgba>, mode: CaptureMode, trim: bool) -> (r: Image<Rgb>)
    requires
        image.well_formed(),
    ensures
        is_kept(*image, mode, trim, r),
{
    let plain = into_rgb(image);
    assert(is_plain(*image, plain));
    match mode {
        CaptureMode::Window | CaptureMode::ActiveWindow => if trim {
            return strip_uniform_border(plain);
        },
        _ => {},
    }
    plain
}

/// The bytes of a PNG file of a screenshot as it is kept, or what is said where it cannot be
/// written.
pub fn capture_png(image: &Image<Rgba>, mode: CaptureMode, trim: bool) -> (r: Result<
    Vec<u8>,
    String,
>)
    requires
        image.well_formed(),
    ensures
        exists|kept: Image<Rgb>| #[trigger]
            is_kept(*image, mode, trim, kept) && crate::picture::png_bytes(
                crate::picture::RawView {
                    width: kept.width,
                    height: kept.height,
                    bytes: crate::picture::rgb_bytes(kept.pixels@),
                },
            ) == (match r {
                Ok(bytes) => crate::picture::Written::Bytes(bytes@),
                Err(message) => crate::picture::Written::Refused(message@),
            }),
{
    let kept = finish_capture(image, mode, trim);
    write_png(&kept)
}

/// The backend takes screenshots on Linux.
pub fn check_backend(backend: Backend) -> (r: Result<(), String>)
    requires
        backend != Backend::Auto,
    ensures
        match r {
            Ok(_) => backend != Backend::Windows,
            Err(message) => backend == Backend::Windows && message@
                == "Windows capture is unavailable on Linux"@,
        },
{
    match backend {
        Backend::Windows => Err("Windows capture is unavailable on Linux".to_owned()),
        _ => Ok(()),
    }
}

/// The part of the desktop that the window in use covers on Wayland, given what the compositor told
/// of it.
pub fn active_region(geometry: Option<&str>) -> (r: Result<Region, String>)
    ensures
        match geometry {
            Some(text) => match Region::described(text@) {
                Ok(region) => r matches Ok(found) && found == region,
                Err(error) => r matches Err(message) && message@ == error,
            },
            None => r matches Err(message) && message@
                == "active-window on Wayland requires Hyprland (hyprctl)"@,
        },
{
    match geometry {
        Some(text) => parse_geometry(text),
        None => Err("active-window on Wayland requires Hyprland (hyprctl)".to_owned()),
    }
}

/// What came of taking a picture of the whole desktop.
pub enum DesktopGrab {
    /// A picture; `same_layout` says whether the outputs stand as they did before.
    Taken { same_layout: bool },
    /// The outputs were moved, or one of them went away.
    LayoutChanged,
    Failed(String),
}

/// How a picture of the whole desktop goes on.
#[derive(Clone, Copy, Debug, PartialEq, Eq, Structural)]
pub enum GrabStep {
    /// The picture is used.
    Use,
    /// The portal is asked for one.
    Portal,
}

/// How a picture of the whole desktop goes on. Before it is taken, the outputs have to stand so that
/// they can be shown, and not be `too_large`.
pub fn grab_step(bounds: bool, too_large: bool, grab: &DesktopGrab) -> (r: Result<GrabStep, String>)
    ensures
        if !bounds {
            r matches Err(message) && message@ == "invalid or oversized desktop layout"@
        } else if too_large {
            r matches Err(message) && message@ == "desktop capture exceeds 64 million pixels"@
        } else {
            match *grab {
                DesktopGrab::Taken { same_layout } if same_layout => r matches Ok(step) && step
                    == GrabStep::Use,
                DesktopGrab::Failed(_) => r matches Ok(step) && step == GrabStep::Portal,
                _ => r matches Err(message) && message@
                    == "desktop layout changed during capture; retry"@,
            }
        },
{
    if !bounds {
        return Err("invalid or oversized desktop layout".to_owned());
    }
    if too_large {
        return Err("desktop capture exceeds 64 million pixels".to_owned());
    }
    match grab {
        DesktopGrab::Taken { same_layout } => if *same_layout {
            Ok(GrabStep::Use)
        } else {
            Err("desktop layout changed during capture; retry".to_owned())
        },
        DesktopGrab::LayoutChanged => Err(
            "desktop layout changed during capture; retry".to_owned(),
        ),
        DesktopGrab::Failed(_) => Ok(GrabStep::Portal),
    }
}

/// Whether the portal's picture of the desktop is used, after the first way failed with `error`.
/// `layout` says whether the outputs stand as they did before, or why that is not known.
pub fn portal_grabbed(
    error: &str,
    portal: Result<(), String>,
    layout: Result<bool, String>,
) -> (r: Result<(), String>)
    ensures
        match portal {
            Err(other) => r matches Err(message) && message@ == "libway desktop failed: "@ + error@
                + "; portal fallback failed: "@ + other@,
            Ok(_) => match layout {
                Err(other) => r matches Err(message) && message@ == other@,
                Ok(same) => if same {
                    r is Ok
                } else {
                    r matches Err(message) && message@
                        == "desktop layout changed during portal capture; retry"@
                },
            },
        },
{
    match portal {
        Err(other) => {
            let mut message: String = joined("libway desktop failed: ", error);
            message.append("; portal fallback failed: ");
            message.append(other.as_str());
            Err(message)
        },
        Ok(_) => match layout {
            Err(other) => Err(other),
            Ok(same) => if same {
                Ok(())
            } else {
                Err("desktop layout changed during portal capture; retry".to_owned())
            },
        },
    }
}

/// How a picture of the whole desktop failed first.
pub enum FullError {
    Connection(String),
    Capture(String),
}

/// What is said of a picture of the whole desktop that failed first.
pub open spec fn full_message(error: FullError) -> Seq<char> {
    match error {
        FullError::Connection(text) => "wayland connection failed: "@ + text@,
        FullError::Capture(text) => "libway desktop capture failed: "@ + text@,
    }
}

/// What is said where the portal could not take a picture of the whole desktop either.
pub fn full_failed(error: FullError, portal: &str) -> (r: String)
    ensures
        r@ == full_message(error) + "; portal fallback failed: "@ + portal@,
{
    let mut message: String = match error {
        FullError::Connection(text) => joined("wayland connection failed: ", text.as_str()),
        FullError::Capture(text) => joined("libway desktop capture failed: ", text.as_str()),
    };
    message.append("; portal fallback failed: ");
    message.append(portal);
    message
}

/// What comes of the selector: a picture, where the selection was not given up.
pub fn selected<I>(picture: Option<I>) -> (r: Result<I, String>)
    ensures
        match picture {
            Some(picture) => r == Ok::<I, String>(picture),
            None => r matches Err(message) && message@ == "selection cancelled"@,
        },
{
    match picture {
        Some(picture) => Ok(picture),
        None => Err("selection cancelled".to_owned()),
    }
}

/// A region that is written as its place and its size is read back: the place across before the
/// place down, and the width before the height.
pub proof fn lemma_geometry_read_back(region: Region)
    requires
        region.width > 0,
        region.height > 0,
        region.x + region.width <= i32::MAX,
        region.y + region.height <= i32::MAX,
    ensures
        Region::described(
            crate::text::signed_decimal(region.x as int) + ","@ + crate::text::signed_decimal(
                region.y as int,
            ) + " "@ + crate::text::decimal(region.width as nat) + "x"@ + crate::text::decimal(
                region.height as nat,
            ),
        ) == Ok::<Region, Seq<char>>(region),
{
    reveal_strlit(",");
    reveal_strlit(" ");
    reveal_strlit("x");
    let x = crate::text::signed_decimal(region.x as int);
    let y = crate::text::signed_decimal(region.y as int);
    let w = crate::text::signed_decimal(region.width as int);
    let h = crate::text::signed_decimal(region.height as int);
    crate::text::lemma_number_text(region.x as int);
    crate::text::lemma_number_text(region.y as int);
    crate::text::lemma_number_text(region.width as int);
    crate::text::lemma_number_text(region.height as int);
    crate::text::lemma_number_read_back(region.x as int, i32::MIN as int, i32::MAX as int);
    crate::text::lemma_number_read_back(region.y as int, i32::MIN as int, i32::MAX as int);
    crate::text::lemma_number_read_back(region.width as int, 0, u32::MAX as int);
    crate::text::lemma_number_read_back(region.height as int, 0, u32::MAX as int);
    let place = x.push(',') + y;
    let size = w.push('x') + h;
    let text = x + ","@ + y + " "@ + w + "x"@ + h;
    assert(text =~= place.push(' ') + size);
    assert(!place.contains(' ')) by {
        assert forall|i: int| 0 <= i < place.len() implies place[i] != ' ' by {
            if i > x.len() {
                assert(place[i] == y[i - x.len() - 1]);
            }
        }
    }
    crate::text::lemma_split_first(place, ' ', size);
    crate::text::lemma_split_first(x, ',', y);
    crate::text::lemma_split_first(w, 'x', h);
}

/// What is read of a geometry stands in it: the place before the first space, across before the
/// first comma and down behind it, and the size behind the space, the width before the first `x` and
/// the height behind it. A region is never empty.
pub proof fn lemma_geometry_parts(geometry: &str, read: Result<Region, String>)
    requires
        call_ensures(parse_geometry, (geometry,), read),
    ensures
        read matches Ok(region) ==> region.width > 0 && region.height > 0 && exists|
            x: Seq<char>,
            y: Seq<char>,
            w: Seq<char>,
            h: Seq<char>,
        |
            #![trigger x.push(','), y.push(' '), w.push('x'), h.len()]
            geometry@ == x.push(',') + y.push(' ') + w.push('x') + h && crate::text::integer(
                crate::text::trimmed(x),
                i32::MIN as int,
                i32::MAX as int,
            ) == Ok::<int, crate::text::IntError>(region.x as int) && crate::text::integer(
                crate::text::trimmed(y),
                i32::MIN as int,
                i32::MAX as int,
            ) == Ok::<int, crate::text::IntError>(region.y as int) && crate::text::integer(
                crate::text::trimmed(w),
                0,
                u32::MAX as int,
            ) == Ok::<int, crate::text::IntError>(region.width as int) && crate::text::integer(
                crate::text::trimmed(h),
                0,
                u32::MAX as int,
            ) == Ok::<int, crate::text::IntError>(region.height as int),
{
    if let Ok(region) = read {
        crate::text::lemma_split(geometry@, ' ');
        let (place, size) = crate::text::split(geometry@, ' ')->Some_0;
        crate::text::lemma_split(place, ',');
        crate::text::lemma_split(size, 'x');
        let (x, y) = crate::text::split(place, ',')->Some_0;
        let (w, h) = crate::text::split(size, 'x')->Some_0;
        assert(geometry@ =~= x.push(',') + y.push(' ') + w.push('x') + h);
        lemma_geometry_number(x, i32::MIN as int, i32::MAX as int);
        lemma_geometry_number(y, i32::MIN as int, i32::MAX as int);
        lemma_geometry_number(w, 0, u32::MAX as int);
        lemma_geometry_number(h, 0, u32::MAX as int);
        assert(h.len() >= 0);
    }
}

/// A number of a geometry is one within its limits.
proof fn lemma_geometry_number(text: Seq<char>, min: int, max: int)
    requires
        min <= 0 <= max,
    ensures
        geometry_number(text, min, max) matches Ok(value) ==> min <= value <= max
            && crate::text::integer(crate::text::trimmed(text), min, max) == Ok::<
            int,
            crate::text::IntError,
        >(value),
{
    crate::text::lemma_integer_range(crate::text::trimmed(text), min, max);
}

/// The geometry of a window is that of its place and its size, which are two numbers each; there is
/// none where one of them is missing or the window has no size.
pub proof fn lemma_window_geometry(
    json: Seq<char>,
    value: DocumentView,
    x: int,
    y: int,
    w: int,
    h: int,
)
    requires
        crate::json::parsed_json(vstd::utf8::encode_utf8(json)) == Parsed::Document(value),
        i64::MIN <= x <= i64::MAX,
        i64::MIN <= y <= i64::MAX,
        i64::MIN <= w <= i64::MAX,
        i64::MIN <= h <= i64::MAX,
        value.field("at"@) == Some(
            DocumentView::Array(seq![DocumentView::Number(x), DocumentView::Number(y)]),
        ),
        value.field("size"@) == Some(
            DocumentView::Array(seq![DocumentView::Number(w), DocumentView::Number(h)]),
        ),
    ensures
        window_geometry(json) is Some <==> w > 0 && h > 0,
        window_geometry(json) matches Some(geometry) ==> {
            &&& geometry == crate::text::signed_decimal(x) + ","@ + crate::text::signed_decimal(y)
                + " "@ + crate::text::signed_decimal(w) + "x"@ + crate::text::signed_decimal(h)
            &&& i32::MIN <= x && i32::MIN <= y && x + w <= i32::MAX && y + h <= i32::MAX && w
                <= u32::MAX && h <= u32::MAX ==> Region::described(geometry) == Ok::<
                Region,
                Seq<char>,
            >(Region { x: x as i32, y: y as i32, width: w as u32, height: h as u32 })
        },
{
    if w > 0 && h > 0 && i32::MIN <= x && i32::MIN <= y && x + w <= i32::MAX && y + h <= i32::MAX && w
        <= u32::MAX && h <= u32::MAX {
        lemma_geometry_read_back(
            Region { x: x as i32, y: y as i32, width: w as u32, height: h as u32 },
        );
    }
}

/// A colour is grayish where no two of its parts are further apart than eight.
pub proof fn lemma_grayish(colour: Rgb)
    ensures
        colour.is_grayish() <==> {
            &&& -8 <= colour.r - colour.g <= 8
            &&& -8 <= colour.g - colour.b <= 8
            &&& -8 <= colour.r - colour.b <= 8
        },
{
}

/// A border that is cut off is of one colour, the corner's, which is grayish; it is as wide as it
/// can be, up to four pixels; and what is left has all else of the picture.
pub proof fn lemma_border(image: Image<Rgb>, stripped: Image<Rgb>)
    requires
        image.well_formed(),
        call_ensures(strip_uniform_border, (image,), stripped),
    ensures
        ({
            let border = image.border();
            &&& 0 <= border <= 4
            &&& image.width < 32 || image.height < 32 || !image.at(0, 0).is_grayish() ==> border == 0
            &&& stripped.width == image.width - 2 * border
            &&& stripped.height == image.height - 2 * border
            &&& border == 0 ==> stripped == image
            &&& border > 0 ==> image.varies(border)
            &&& 0 < border < 4 ==> !image.ring_is(border, image.at(0, 0))
            &&& forall|d: int| 0 <= d < border ==> #[trigger] image.ring_is(d, image.at(0, 0))
            &&& border > 0 ==> (forall|x: int, y: int|
                0 <= x < stripped.width && 0 <= y < stripped.height ==> #[trigger] stripped.at(x, y)
                    == image.at(border + x, border + y))
        }),
{
    crate::pixels::lemma_peeled(image, 0);
}

/// A picture that is not one of a window, or is not to be trimmed, is kept as it is, without its
/// transparency.
pub proof fn lemma_kept_whole(image: &Image<Rgba>, mode: CaptureMode, trim: bool, kept: Image<Rgb>)
    requires
        image.well_formed(),
        call_ensures(finish_capture, (image, mode, trim), kept),
    ensures
        !trim || mode == CaptureMode::Full || mode == CaptureMode::Area ==> {
            &&& kept.width == image.width
            &&& kept.height == image.height
            &&& forall|i: int|
                0 <= i < kept.pixels@.len() ==> (#[trigger] kept.pixels@[i]).r == image.pixels@[i].r
                    && kept.pixels@[i].g == image.pixels@[i].g && kept.pixels@[i].b
                    == image.pixels@[i].b
        },
        kept.well_formed(),
        kept.width <= image.width,
        kept.height <= image.height,
        image.width - kept.width == image.height - kept.height,
{
    let plain = choose|plain: Image<Rgb>|
        {
            &&& #[trigger] is_plain(*image, plain)
            &&& if trim && (mode == CaptureMode::Window || mode == CaptureMode::ActiveWindow)
                && plain.border() > 0 {
                &&& kept.width == image.width - 2 * plain.border()
                &&& kept.height == image.height - 2 * plain.border()
                &&& plain.is_crop(plain.border(), plain.border(), kept)
            } else {
                kept == plain
            }
        };
    assert(is_plain(*image, plain));
}

/// What X11 is asked to capture: the whole screen; the active window where it is known; one that the
/// user picks for a window or where the active one is not known; an area not at all.
pub proof fn lemma_x11_target(mode: CaptureMode, active: Option<u32>, target: Result<X11Target, String>)
    requires
        call_ensures(x11_target, (mode, active), target),
    ensures
        target is Err <==> mode == CaptureMode::Area,
        target == Ok::<X11Target, String>(X11Target::Root) <==> mode == CaptureMode::Full,
        target matches Ok(X11Target::Window(id)) ==> active == Some(id) && id != 0 && mode
            == CaptureMode::ActiveWindow,
        mode == CaptureMode::ActiveWindow && active is Some && active->Some_0 != 0 ==> target == Ok::<
            X11Target,
            String,
        >(X11Target::Window(active->Some_0)),
        mode == CaptureMode::Window ==> target == Ok::<X11Target, String>(X11Target::Pick),
{
}

/// The window under a click is the child that it falls in, where there is one, and no window is none.
pub proof fn lemma_x11_picked(
    child: u32,
    event: u32,
    clicked: u32,
    picked: Option<u32>,
    window: Result<u32, String>,
)
    requires
        call_ensures(x11_clicked, (child, event), clicked),
        call_ensures(x11_picked, (picked,), window),
    ensures
        child != 0 ==> clicked == child,
        child == 0 ==> clicked == event,
        window is Ok <==> picked is Some && picked->Some_0 != 0,
        window matches Ok(id) ==> picked == Some(id),
{
}

/// A picture of X11 has the size that was asked for, and each of its pixels the three colours that
/// are stored for it, blue first.
pub proof fn lemma_x11_pixels(
    width: u16,
    height: u16,
    data: &[u8],
    depth: u8,
    image: Result<Image<Rgba>, String>,
    x: int,
    y: int,
)
    requires
        call_ensures(x11_image, (width, height, data, depth), image),
    ensures
        image is Ok ==> width > 0 && height > 0,
        width > 0 && height > 0 && data@.len() == 4 * (width * height) ==> image is Ok,
        image matches Ok(image) ==> {
            &&& image.width == width && image.height == height
            &&& 0 <= x < width && 0 <= y < height ==> {
                let at = 4 * (y * width + x);
                &&& image.at(x, y).b == data@[at]
                &&& image.at(x, y).g == data@[at + 1]
                &&& image.at(x, y).r == data@[at + 2]
                &&& image.at(x, y).a == 255
            }
        },
{
    if width > 0 && height > 0 && data@.len() == 4 * (width * height) {
        assert(data@.len() as int / height as int == 4 * width) by (nonlinear_arith)
            requires
                data@.len() == 4 * (width * height),
                height > 0,
        ;
        assert((4 * width) / width as int == 4) by (nonlinear_arith)
            requires
                width > 0,
        ;
    }
    if let Ok(image) = image {
        if 0 <= x < width && 0 <= y < height {
            crate::pixels::lemma_position(width as int, height as int, x, y);
            assert(image.pixels@.len() == width * height);
        }
    }
}

/// A grab of the desktop is used only where it was taken of the layout that still holds; another one
/// is asked of the portal only where none could be taken.
pub proof fn lemma_grab(
    bounds: bool,
    too_large: bool,
    grab: &DesktopGrab,
    step: Result<GrabStep, String>,
)
    requires
        call_ensures(grab_step, (bounds, too_large, grab), step),
    ensures
        step == Ok::<GrabStep, String>(GrabStep::Use) <==> bounds && !too_large && *grab
            == (DesktopGrab::Taken { same_layout: true }),
        step == Ok::<GrabStep, String>(GrabStep::Portal) <==> bounds && !too_large && grab is Failed,
{
}

/// A grab by the portal stands where it succeeds and the layout still holds. What failed before it
/// is told with what failed of it.
pub proof fn lemma_portal_grab(
    error: &str,
    portal: Result<(), String>,
    layout: Result<bool, String>,
    r: Result<(), String>,
    full: FullError,
    failed: String,
    by_portal: &str,
)
    requires
        call_ensures(portal_grabbed, (error, portal, layout), r),
        call_ensures(full_failed, (full, by_portal), failed),
    ensures
        r is Ok <==> portal is Ok && layout == Ok::<bool, String>(true),
        portal matches Err(other) ==> r->Err_0@ == "libway desktop failed: "@ + error@
            + "; portal fallback failed: "@ + other@,
        portal is Ok ==> (layout matches Err(other) ==> r->Err_0@ == other@),
        full matches FullError::Connection(text) ==> failed@ == "wayland connection failed: "@
            + text@ + "; portal fallback failed: "@ + by_portal@,
        full matches FullError::Capture(text) ==> failed@ == "libway desktop capture failed: "@
            + text@ + "; portal fallback failed: "@ + by_portal@,
{
}

/// A region reaches no further than its numbers can say.
pub proof fn lemma_region_fits(geometry: &str, read: Result<Region, String>)
    requires
        call_ensures(parse_geometry, (geometry,), read),
    ensures
        read matches Ok(region) ==> region.x + region.width <= i32::MAX && region.y + region.height
            <= i32::MAX,
{
    if let Ok(region) = read {
        crate::text::lemma_split(geometry@, ' ');
        let (place, size) = crate::text::split(geometry@, ' ')->Some_0;
        let (x, y) = crate::text::split(place, ',')->Some_0;
        let (w, h) = crate::text::split(size, 'x')->Some_0;
        lemma_geometry_number(x, i32::MIN as int, i32::MAX as int);
        lemma_geometry_number(y, i32::MIN as int, i32::MAX as int);
        lemma_geometry_number(w, 0, u32::MAX as int);
        lemma_geometry_number(h, 0, u32::MAX as int);
    }
}

/// Pictures of one size with the same pixels have the same border.
proof fn lemma_same_peel(one: Image<Rgb>, other: Image<Rgb>, d: int)
    requires
        one.width == other.width,
        one.height == other.height,
        one.pixels@ == other.pixels@,
    ensures
        one.peel(d) == other.peel(d),
        forall|x: int, y: int| #[trigger] one.at(x, y) == other.at(x, y),
    decreases 4 - d,
{
    assert(forall|x: int, y: int| #[trigger] one.at(x, y) == other.at(x, y));
    assert(forall|x: int, y: int| #[trigger] other.at(x, y) == one.at(x, y));
    assert(one.ring_is(d, one.at(0, 0)) <==> other.ring_is(d, other.at(0, 0)));
    if d < 4 {
        lemma_same_peel(one, other, d + 1);
    }
}

/// A picture with the pixels of one that is not of one colour is not of one colour.
proof fn lemma_same_varies(one: Image<Rgb>, other: Image<Rgb>, peel: int)
    requires
        one.width == other.width,
        one.height == other.height,
        one.pixels@ == other.pixels@,
    ensures
        one.varies(peel) ==> other.varies(peel),
{
    if one.varies(peel) {
        let (i, j) = choose|i: int, j: int|
            0 <= i && 0 <= j && peel + 1 + 8 * i < one.width - peel - 1 && peel + 1 + 8 * j
                < one.height - peel - 1 && #[trigger] one.at(peel + 1 + 8 * i, peel + 1 + 8 * j)
                != one.at(peel + 1, peel + 1);
        assert(other.at(peel + 1 + 8 * i, peel + 1 + 8 * j) != other.at(peel + 1, peel + 1));
    }
}

/// A picture of a window that is to be trimmed loses its border, whatever kind of window it is, and
/// nothing else; any other picture loses nothing.
pub proof fn lemma_window_trimmed(
    image: &Image<Rgba>,
    mode: CaptureMode,
    trim: bool,
    kept: Image<Rgb>,
    plain: Image<Rgb>,
    x: int,
    y: int,
)
    requires
        call_ensures(finish_capture, (image, mode, trim), kept),
        is_plain(*image, plain),
    ensures
        kept.width <= plain.width,
        kept.width - plain.width == kept.height - plain.height,
        kept.width < plain.width ==> trim && (mode == CaptureMode::Window || mode
            == CaptureMode::ActiveWindow) && 0 < plain.border() && kept.width == plain.width - 2
            * plain.border(),
        trim && (mode == CaptureMode::Window || mode == CaptureMode::ActiveWindow) && plain.border() > 0
            ==> kept.width == plain.width - 2 * plain.border(),
        0 <= x < kept.width && 0 <= y < kept.height ==> kept.at(x, y) == plain.at(
            x + (plain.width - kept.width) / 2,
            y + (plain.height - kept.height) / 2,
        ),
{
    let shown = choose|shown: Image<Rgb>|
        {
            &&& #[trigger] is_plain(*image, shown)
            &&& if trim && (mode == CaptureMode::Window || mode == CaptureMode::ActiveWindow)
                && shown.border() > 0 {
                &&& kept.width == image.width - 2 * shown.border()
                &&& kept.height == image.height - 2 * shown.border()
                &&& shown.is_crop(shown.border(), shown.border(), kept)
            } else {
                kept == shown
            }
        };
    assert(is_plain(*image, shown));
    assert(shown.pixels@ =~= plain.pixels@);
    lemma_same_peel(shown, plain, 0);
    lemma_same_varies(shown, plain, shown.peel(0));
    lemma_same_varies(plain, shown, shown.peel(0));
    assert(shown.border() == plain.border());
}

/// A region for the active window is the one that the compositor tells; a selection that was given up
/// is an error; Windows' capture is not to be had.
pub proof fn lemma_active<I>(
    geometry: Option<&str>,
    region: Result<Region, String>,
    picture: Option<I>,
    taken: Result<I, String>,
    backend: Backend,
    checked: Result<(), String>,
)
    requires
        backend != Backend::Auto,
        call_ensures(active_region, (geometry,), region),
        call_ensures(selected::<I>, (picture,), taken),
        call_ensures(check_backend, (backend,), checked),
    ensures
        region is Ok <==> geometry is Some && Region::described(geometry->Some_0@) is Ok,
        region matches Ok(found) ==> Region::described(geometry->Some_0@) == Ok::<
            Region,
            Seq<char>,
        >(found),
        taken is Ok <==> picture is Some,
        taken matches Ok(found) ==> picture == Some(found),
        checked is Ok <==> backend != Backend::Windows,
{
}

} // verus!
