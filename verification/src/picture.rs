//! Pictures in files, read and written by the `image` crate.
use vstd::prelude::*;

use crate::pixels::{Image, Rgb, Rgba};

verus! {

/// A picture as rows of bytes.
pub struct Raw {
    pub width: u32,
    pub height: u32,
    pub bytes: Vec<u8>,
}

/// What a [`Raw`] picture shows.
pub struct RawView {
    pub width: u32,
    pub height: u32,
    pub bytes: Seq<u8>,
}

impl Raw {
    /// What the picture shows.
    pub open spec fn view(&self) -> RawView {
        RawView { width: self.width, height: self.height, bytes: self.bytes@ }
    }

    /// Each place of the picture has `count` bytes.
    pub open spec fn has(&self, count: int) -> bool {
        self.bytes@.len() == self.width * self.height * count
    }
}

/// What a picture that may be missing shows.
pub open spec fn shown(picture: Option<Raw>) -> Option<RawView> {
    match picture {
        Some(picture) => Some(picture@),
        None => None,
    }
}

/// What comes of reading a picture: what it shows, or the text of the error.
pub enum Loaded {
    Picture(RawView),
    Refused(Seq<char>),
}

/// What comes of writing a picture: its bytes, or the text of the error.
pub enum Written {
    Bytes(Seq<u8>),
    Refused(Seq<char>),
}

/// What `image::load_from_memory_with_format` reads in the bytes of a PNG file, four bytes for a
/// pixel.
pub uninterp spec fn png_picture(bytes: Seq<u8>) -> Option<RawView>;

/// What `image::load_from_memory` reads in the bytes of a file, four bytes for a pixel.
pub uninterp spec fn file_picture(bytes: Seq<u8>) -> Loaded;

/// What `image::ImageReader::decode` reads in the bytes of a PNG file, four bytes for a pixel,
/// where it may hold no more columns and rows and take no more memory than is given.
pub uninterp spec fn limited_picture(
    bytes: Seq<u8>,
    width: u32,
    height: u32,
    memory: u64,
) -> Option<RawView>;

/// What `image::DynamicImage::write_to` writes as a PNG file for a picture with three bytes for a
/// pixel.
pub uninterp spec fn png_bytes(picture: RawView) -> Written;

/// Calls `image::load_from_memory_with_format` for a PNG file. What it reads depends on the bytes
/// alone, and each pixel has four bytes.
#[verifier::external_body]
fn load_png(bytes: &[u8]) -> (r: Option<Raw>)
    ensures
        shown(r) == png_picture(bytes@),
        r matches Some(picture) ==> picture.has(4),
{
    let loaded = image::load_from_memory_with_format(bytes, image::ImageFormat::Png);
    let rgba = loaded.ok()?.into_rgba8();
    Some(Raw { width: rgba.width(), height: rgba.height(), bytes: rgba.into_raw() })
}

/// Calls `image::load_from_memory`, which tells the format by the bytes. What it reads depends on
/// them alone, and each pixel has four bytes.
#[verifier::external_body]
fn load_file(bytes: &[u8]) -> (r: Result<Raw, String>)
    ensures
        file_picture(bytes@) == (match r {
            Ok(picture) => Loaded::Picture(picture@),
            Err(message) => Loaded::Refused(message@),
        }),
        r matches Ok(picture) ==> picture.has(4),
{
    let loaded = image::load_from_memory(bytes).map_err(|error| error.to_string())?;
    let rgba = loaded.into_rgba8();
    Ok(Raw { width: rgba.width(), height: rgba.height(), bytes: rgba.into_raw() })
}

/// Calls `image::ImageReader::decode` for a PNG file after `image::ImageReader::limits`. What it
/// reads depends on the bytes and the limits alone, and each pixel has four bytes.
#[verifier::external_body]
fn load_png_within(bytes: &[u8], width: u32, height: u32, memory: u64) -> (r: Option<Raw>)
    ensures
        shown(r) == limited_picture(bytes@, width, height, memory),
        r matches Some(picture) ==> picture.has(4),
{
    let cursor = std::io::Cursor::new(bytes);
    let mut reader = image::ImageReader::with_format(cursor, image::ImageFormat::Png);
    let mut limits = image::Limits::default();
    limits.max_image_width = Some(width);
    limits.max_image_height = Some(height);
    limits.max_alloc = Some(memory);
    reader.limits(limits);
    let rgba = reader.decode().ok()?.into_rgba8();
    Some(Raw { width: rgba.width(), height: rgba.height(), bytes: rgba.into_raw() })
}

/// Calls `image::DynamicImage::write_to` for a PNG file. What it writes depends on the picture
/// alone.
#[verifier::external_body]
fn save_png(picture: Raw) -> (r: Result<Vec<u8>, String>)
    requires
        picture.has(3),
    ensures
        png_bytes(picture@) == (match r {
            Ok(bytes) => Written::Bytes(bytes@),
            Err(message) => Written::Refused(message@),
        }),
{
    let rgb = image::RgbImage::from_raw(picture.width, picture.height, picture.bytes);
    let mut out = std::io::Cursor::new(Vec::new());
    image::DynamicImage::ImageRgb8(rgb.unwrap())
        .write_to(&mut out, image::ImageFormat::Png)
        .map_err(|error| error.to_string())?;
    Ok(out.into_inner())
}

/// The pixels of a picture with four bytes for each.
pub open spec fn rgba_pixels(bytes: Seq<u8>) -> Seq<Rgba> {
    Seq::new(
        bytes.len() / 4,
        |i: int|
            Rgba {
                r: bytes[4 * i],
                g: bytes[4 * i + 1],
                b: bytes[4 * i + 2],
                a: bytes[4 * i + 3],
            },
    )
}

/// The image that a picture with four bytes for a pixel shows.
pub open spec fn shows(picture: RawView, image: Image<Rgba>) -> bool {
    &&& image.width == picture.width
    &&& image.height == picture.height
    &&& image.pixels@ == rgba_pixels(picture.bytes)
}

/// The image that a picture with four bytes for a pixel shows.
fn into_image(picture: Raw) -> (r: Image<Rgba>)
    requires
        picture.has(4),
    ensures
        shows(picture@, r),
        r.well_formed(),
{
    let count: usize = picture.bytes.len() / 4;
    proof {
        let places = picture.width * picture.height;
        assert(places >= 0) by (nonlinear_arith)
            requires
                places == picture.width * picture.height,
        ;
        assert(count == places);
    }
    let mut pixels: Vec<Rgba> = Vec::new();
    let mut i: usize = 0;
    while i < count
        invariant
            count == picture.bytes.len() / 4,
            4 * count <= picture.bytes.len(),
            i <= count,
            pixels@.len() == i,
            forall|j: int|
                0 <= j < i ==> #[trigger] pixels@[j] == rgba_pixels(picture.bytes@)[j],
        decreases count - i,
    {
        pixels.push(
            Rgba {
                r: picture.bytes[4 * i],
                g: picture.bytes[4 * i + 1],
                b: picture.bytes[4 * i + 2],
                a: picture.bytes[4 * i + 3],
            },
        );
        i = i + 1;
    }
    proof {
        assert(pixels@ =~= rgba_pixels(picture.bytes@));
    }
    Image { width: picture.width, height: picture.height, pixels }
}

/// The result of reading a picture is the image that it shows.
pub open spec fn reads(picture: Option<RawView>, image: Option<Image<Rgba>>) -> bool {
    match picture {
        Some(picture) => image matches Some(image) && shows(picture, image) && image.well_formed(),
        None => image is None,
    }
}

/// The picture in a PNG file.
pub fn read_png(bytes: &[u8]) -> (r: Option<Image<Rgba>>)
    ensures
        reads(png_picture(bytes@), r),
{
    match load_png(bytes) {
        Some(picture) => Some(into_image(picture)),
        None => None,
    }
}

/// The picture in a file, or what is said of the bytes.
pub fn read_picture(bytes: &[u8]) -> (r: Result<Image<Rgba>, String>)
    ensures
        match file_picture(bytes@) {
            Loaded::Picture(picture) => r matches Ok(image) && shows(picture, image)
                && image.well_formed(),
            Loaded::Refused(text) => r matches Err(message) && message@ == text,
        },
{
    match load_file(bytes) {
        Ok(picture) => Ok(into_image(picture)),
        Err(message) => Err(message),
    }
}

/// The picture in a PNG file, where it keeps to the limits.
pub fn read_png_within(bytes: &[u8], width: u32, height: u32, memory: u64) -> (r: Option<
    Image<Rgba>,
>)
    ensures
        reads(limited_picture(bytes@, width, height, memory), r),
{
    match load_png_within(bytes, width, height, memory) {
        Some(picture) => Some(into_image(picture)),
        None => None,
    }
}

/// The bytes of opaque pixels, three for each.
pub open spec fn rgb_bytes(pixels: Seq<Rgb>) -> Seq<u8> {
    Seq::new(
        3 * pixels.len(),
        |i: int|
            if i % 3 == 0 {
                pixels[i / 3].r
            } else if i % 3 == 1 {
                pixels[i / 3].g
            } else {
                pixels[i / 3].b
            },
    )
}

/// The bytes of opaque pixels, three for each.
pub fn bytes_of(pixels: &Vec<Rgb>) -> (r: Vec<u8>)
    ensures
        r@ == rgb_bytes(pixels@),
{
    let mut bytes: Vec<u8> = Vec::new();
    let mut i: usize = 0;
    while i < pixels.len()
        invariant
            i <= pixels.len(),
            bytes@.len() == 3 * i,
            forall|j: int| 0 <= j < 3 * i ==> #[trigger] bytes@[j] == rgb_bytes(pixels@)[j],
        decreases pixels.len() - i,
    {
        bytes.push(pixels[i].r);
        bytes.push(pixels[i].g);
        bytes.push(pixels[i].b);
        i = i + 1;
    }
    proof {
        assert(bytes@ =~= rgb_bytes(pixels@));
    }
    bytes
}

/// The bytes of a PNG file that shows an opaque image.
pub fn write_png(image: &Image<Rgb>) -> (r: Result<Vec<u8>, String>)
    requires
        image.well_formed(),
    ensures
        png_bytes(
            RawView { width: image.width, height: image.height, bytes: rgb_bytes(image.pixels@) },
        ) == (match r {
            Ok(bytes) => Written::Bytes(bytes@),
            Err(message) => Written::Refused(message@),
        }),
{
    save_png(Raw { width: image.width, height: image.height, bytes: bytes_of(&image.pixels) })
}

/// A pixel is told as its red, its green and its blue, in that order, and the next one behind it.
pub proof fn lemma_rgb_bytes(pixels: &Vec<Rgb>, bytes: Vec<u8>, i: int)
    requires
        call_ensures(bytes_of, (pixels,), bytes),
        0 <= i < pixels@.len(),
    ensures
        bytes@.len() == 3 * pixels@.len(),
        bytes@[3 * i] == pixels@[i].r,
        bytes@[3 * i + 1] == pixels@[i].g,
        bytes@[3 * i + 2] == pixels@[i].b,
{
    assert((3 * i) / 3 == i && (3 * i + 1) / 3 == i && (3 * i + 2) / 3 == i);
}

/// Four bytes are a pixel: its red, its green, its blue and how much it covers, in that order.
pub proof fn lemma_rgba_pixels(bytes: Seq<u8>, i: int)
    requires
        0 <= i < bytes.len() / 4,
    ensures
        rgba_pixels(bytes).len() == bytes.len() / 4,
        rgba_pixels(bytes)[i].r == bytes[4 * i],
        rgba_pixels(bytes)[i].g == bytes[4 * i + 1],
        rgba_pixels(bytes)[i].b == bytes[4 * i + 2],
        rgba_pixels(bytes)[i].a == bytes[4 * i + 3],
{
}

} // verus!
