//! Screenshots on Windows.
use vstd::prelude::*;
use vstd::string::StringExecFns;

use crate::cli::Backend;
use crate::pixels::{crop, paste, pixel, uniform_rings, Image, Rgba};
use crate::text::{decimal_string, joined, signed_decimal_string};

verus! {

/// A part of the desktop; what lies on its right and lower edge does not belong to it.
#[derive(Clone, Copy, Debug, PartialEq, Eq, Structural)]
pub struct Rect {
    pub left: i32,
    pub top: i32,
    pub right: i32,
    pub bottom: i32,
}

impl Rect {
    /// How wide it is.
    pub open spec fn width(self) -> int {
        self.right - self.left
    }

    /// How high it is.
    pub open spec fn height(self) -> int {
        self.bottom - self.top
    }

    /// Its sides can be measured.
    pub open spec fn measurable(self) -> bool {
        i32::MIN <= self.width() <= i32::MAX && i32::MIN <= self.height() <= i32::MAX
    }

    /// Something belongs to it.
    pub open spec fn is_valid(self) -> bool {
        self.left < self.right && self.top < self.bottom
    }

    /// A place belongs to it.
    pub open spec fn has(self, x: int, y: int) -> bool {
        self.left <= x < self.right && self.top <= y < self.bottom
    }
}

/// What is said of a part to which nothing belongs.
pub open spec fn invalid_message(rect: Rect) -> Seq<char> {
    "invalid capture rectangle "@ + crate::text::signed_decimal(rect.left as int) + ","@
        + crate::text::signed_decimal(rect.top as int) + " "@ + crate::text::signed_decimal(
        rect.width(),
    ) + "x"@ + crate::text::signed_decimal(rect.height())
}

/// A part to which something belongs.
pub fn valid_rect(rect: Rect) -> (r: Result<Rect, String>)
    requires
        rect.is_valid() || rect.measurable(),
    ensures
        if rect.is_valid() {
            r matches Ok(same) && same == rect
        } else {
            r matches Err(message) && message@ == invalid_message(rect)
        },
{
    if rect.right <= rect.left || rect.bottom <= rect.top {
        let mut message: String = joined(
            "invalid capture rectangle ",
            signed_decimal_string(rect.left as i64).as_str(),
        );
        message.append(",");
        message.append(signed_decimal_string(rect.top as i64).as_str());
        message.append(" ");
        message.append(signed_decimal_string((rect.right - rect.left) as i64).as_str());
        message.append("x");
        message.append(signed_decimal_string((rect.bottom - rect.top) as i64).as_str());
        Err(message)
    } else {
        Ok(rect)
    }
}

/// The whole desktop, given its corner and its sides.
pub fn virtual_screen_rect(left: i32, top: i32, width: i32, height: i32) -> (r: Result<
    Rect,
    String,
>)
    requires
        i32::MIN <= left + width <= i32::MAX,
        i32::MIN <= top + height <= i32::MAX,
    ensures
        ({
            let rect = Rect {
                left,
                top,
                right: (left + width) as i32,
                bottom: (top + height) as i32,
            };
            if width > 0 && height > 0 {
                r matches Ok(same) && same == rect
            } else {
                r matches Err(message) && message@ == invalid_message(rect)
            }
        }),
{
    valid_rect(Rect { left, top, right: left + width, bottom: top + height })
}

/// The part that two parts share, where they share something.
pub open spec fn shared(first: Rect, second: Rect) -> Option<Rect> {
    let rect = Rect {
        left: if first.left >= second.left {
            first.left
        } else {
            second.left
        },
        top: if first.top >= second.top {
            first.top
        } else {
            second.top
        },
        right: if first.right <= second.right {
            first.right
        } else {
            second.right
        },
        bottom: if first.bottom <= second.bottom {
            first.bottom
        } else {
            second.bottom
        },
    };
    if rect.is_valid() {
        Some(rect)
    } else {
        None
    }
}

/// The part that two parts share, where they share something.
pub fn intersect(first: Rect, second: Rect) -> (r: Option<Rect>)
    ensures
        r == shared(first, second),
{
    let rect = Rect {
        left: if first.left >= second.left {
            first.left
        } else {
            second.left
        },
        top: if first.top >= second.top {
            first.top
        } else {
            second.top
        },
        right: if first.right <= second.right {
            first.right
        } else {
            second.right
        },
        bottom: if first.bottom <= second.bottom {
            first.bottom
        } else {
            second.bottom
        },
    };
    if rect.right > rect.left && rect.bottom > rect.top {
        Some(rect)
    } else {
        None
    }
}

/// What two parts share does not depend on which is named first, and a place belongs to it where it
/// belongs to both.
pub proof fn lemma_shared(first: Rect, second: Rect, x: int, y: int)
    ensures
        shared(first, second) == shared(second, first),
        (first.has(x, y) && second.has(x, y)) == (shared(first, second) matches Some(both)
            && both.has(x, y)),
{
}

/// How far apart the pixels are that are looked at along a side.
pub open spec fn step(extent: int) -> int {
    if extent / 64 >= 1 {
        extent / 64
    } else {
        1
    }
}

/// How many pixels are looked at along a side from `at` on.
pub open spec fn looked_at(extent: int, at: int) -> nat
    decreases extent + step(extent) - at,
{
    if at >= extent || step(extent) <= 0 {
        0
    } else {
        1 + looked_at(extent, at + step(extent))
    }
}

/// A pixel that is black, or nearly so.
pub open spec fn is_dark(pixel: Rgba) -> bool {
    pixel.r <= 4 && pixel.g <= 4 && pixel.b <= 4
}

/// How many of the pixels that are looked at in a row from `x` on are dark.
pub open spec fn dark_in_row(image: Image<Rgba>, y: int, x: int) -> nat
    decreases image.width + step(image.width as int) - x,
{
    if x >= image.width || step(image.width as int) <= 0 {
        0
    } else {
        (if is_dark(image.at(x, y)) {
            1nat
        } else {
            0nat
        }) + dark_in_row(image, y, x + step(image.width as int))
    }
}

/// How many of the pixels that are looked at from the row `y` on are dark.
pub open spec fn dark_from(image: Image<Rgba>, y: int) -> nat
    decreases image.height + step(image.height as int) - y,
{
    if y >= image.height || step(image.height as int) <= 0 {
        0
    } else {
        dark_in_row(image, y, 0) + dark_from(image, y + step(image.height as int))
    }
}

/// How many pixels are looked at from the row `y` on.
pub open spec fn samples_from(width: int, height: int, y: int) -> nat
    decreases height + step(height) - y,
{
    if y >= height || step(height) <= 0 {
        0
    } else {
        looked_at(width, 0) + samples_from(width, height, y + step(height))
    }
}

/// A picture on which next to nothing is shown: 199 of 200 pixels that are looked at are dark.
pub open spec fn is_empty_frame(image: Image<Rgba>) -> bool {
    image.width == 0 || image.height == 0 || dark_from(image, 0) * 200 >= samples_from(
        image.width as int,
        image.height as int,
        0,
    ) * 199
}

/// The pixels along a side fill it.
proof fn lemma_looked_at(extent: int, at: int)
    requires
        0 <= at,
        0 <= extent,
    ensures
        looked_at(extent, at) * step(extent) <= (if at < extent {
            extent - at + step(extent) - 1
        } else {
            0
        }),
    decreases extent + step(extent) - at,
{
    let s = step(extent);
    if at < extent {
        lemma_looked_at(extent, at + s);
        let rest = looked_at(extent, at + s);
        assert((1 + rest) * s == s + rest * s) by (nonlinear_arith);
    } else {
        assert(0 * s == 0) by (nonlinear_arith);
    }
}

/// No more than 127 pixels are looked at along a side.
proof fn lemma_few_along(extent: int)
    requires
        0 <= extent,
    ensures
        looked_at(extent, 0) <= 127,
{
    let s = step(extent);
    let count = looked_at(extent, 0);
    lemma_looked_at(extent, 0);
    if count >= 128 {
        assert(count * s >= 128 * s) by (nonlinear_arith)
            requires
                count >= 128,
                s >= 1,
        ;
    }
}

/// The rows that are looked at have as many pixels each.
proof fn lemma_few(width: int, height: int, y: int)
    requires
        0 <= width,
        0 <= height,
        0 <= y,
    ensures
        samples_from(width, height, y) <= 127 * looked_at(height, y),
    decreases height + step(height) - y,
{
    lemma_few_along(width);
    if y < height {
        lemma_few(width, height, y + step(height));
    }
}

/// How far apart the pixels are that are looked at along a side.
fn step_along(extent: u32) -> (r: u32)
    ensures
        r == step(extent as int),
        r >= 1,
{
    if extent / 64 >= 1 {
        extent / 64
    } else {
        1
    }
}

/// Whether next to nothing is shown on a picture.
pub fn looks_like_empty_frame(image: &Image<Rgba>) -> (r: bool)
    requires
        image.well_formed(),
    ensures
        r == is_empty_frame(*image),
{
    if image.width == 0 || image.height == 0 {
        return true;
    }
    let width: u64 = image.width as u64;
    let height: u64 = image.height as u64;
    let step_x: u32 = step_along(image.width);
    let step_y: u32 = step_along(image.height);
    let ghost total = samples_from(width as int, height as int, 0);
    proof {
        lemma_few(width as int, height as int, 0);
        lemma_few_along(height as int);
    }
    let mut samples: u32 = 0;
    let mut dark: u32 = 0;
    let mut y: u64 = 0;
    while y < height
        invariant
            image.well_formed(),
            width == image.width,
            height == image.height,
            step_x == step(width as int),
            step_y == step(height as int),
            step_x >= 1,
            step_y >= 1,
            y <= u32::MAX + step_y,
            total == samples_from(width as int, height as int, 0),
            total <= 127 * 127,
            samples + samples_from(width as int, height as int, y as int) == total,
            dark <= samples,
            dark + dark_from(*image, y as int) == dark_from(*image, 0),
        decreases height + step_y - y,
    {
        let ghost row = y as int;
        let ghost dark_before = dark as nat;
        let ghost samples_before = samples as nat;
        let mut x: u64 = 0;
        while x < width
            invariant
                image.well_formed(),
                width == image.width,
                height == image.height,
                step_x == step(width as int),
                step_x >= 1,
                x <= u32::MAX + step_x,
                y < height,
                row == y,
                total <= 127 * 127,
                samples_before + looked_at(width as int, 0) <= total,
                samples + looked_at(width as int, x as int) == samples_before + looked_at(
                    width as int,
                    0,
                ),
                dark <= samples,
                dark + dark_in_row(*image, row, x as int) == dark_before + dark_in_row(
                    *image,
                    row,
                    0,
                ),
            decreases width + step_x - x,
        {
            let found = pixel(image, x as u32, y as u32);
            samples = samples + 1;
            if found.r <= 4 && found.g <= 4 && found.b <= 4 {
                dark = dark + 1;
            }
            x = x + step_x as u64;
        }
        y = y + step_y as u64;
    }
    dark * 200 >= samples * 199
}

/// How the pixels of a frame stand in its bytes.
pub enum Format {
    /// Blue first.
    Bgra8,
    /// Blue first.
    Bgra8Srgb,
    /// Red first.
    Rgba8,
    /// Red first.
    Rgba8Srgb,
    /// A format that is not known, by its name.
    Other(String),
}

/// The opaque pixel at a place of a frame.
pub open spec fn opaque_pixel(bytes: Seq<u8>, blue_first: bool, i: int) -> Rgba {
    if blue_first {
        Rgba { r: bytes[4 * i + 2], g: bytes[4 * i + 1], b: bytes[4 * i], a: 255 }
    } else {
        Rgba { r: bytes[4 * i], g: bytes[4 * i + 1], b: bytes[4 * i + 2], a: 255 }
    }
}

/// A picture shows the pixels of a frame.
pub open spec fn shows_frame(image: Image<Rgba>, bytes: Seq<u8>, blue_first: bool) -> bool {
    image.well_formed() && forall|i: int|
        0 <= i < image.pixels@.len() ==> #[trigger] image.pixels@[i] == opaque_pixel(
            bytes,
            blue_first,
            i,
        )
}

/// The picture that a frame shows, where it has all its pixels.
pub fn opaque_image(bytes: &[u8], blue_first: bool, width: u32, height: u32) -> (r: Option<
    Image<Rgba>,
>)
    ensures
        if bytes@.len() / 4 >= width * height {
            r matches Some(image) && image.width == width && image.height == height && shows_frame(
                image,
                bytes@,
                blue_first,
            )
        } else {
            r is None
        },
{
    let available: usize = bytes.len() / 4;
    proof {
        assert(0 <= width * height <= u32::MAX * u32::MAX) by (nonlinear_arith)
            requires
                width <= u32::MAX,
                height <= u32::MAX,
        ;
    }
    let count: u64 = width as u64 * height as u64;
    if (available as u64) < count {
        return None;
    }
    let mut pixels: Vec<Rgba> = Vec::new();
    let mut i: usize = 0;
    while i < count as usize
        invariant
            count == width * height,
            count <= available,
            available == bytes.len() / 4,
            i <= count,
            pixels@.len() == i,
            forall|j: int|
                0 <= j < i ==> #[trigger] pixels@[j] == opaque_pixel(bytes@, blue_first, j),
        decreases count - i,
    {
        assert(4 * i + 3 < bytes.len());
        let at: usize = 4 * i;
        if blue_first {
            pixels.push(Rgba { r: bytes[at + 2], g: bytes[at + 1], b: bytes[at], a: 255 });
        } else {
            pixels.push(Rgba { r: bytes[at], g: bytes[at + 1], b: bytes[at + 2], a: 255 });
        }
        i = i + 1;
    }
    Some(Image { width, height, pixels })
}

/// The picture of a monitor's frame.
pub fn monitor_image(format: Format, bytes: &[u8], width: u32, height: u32) -> (r: Result<
    Image<Rgba>,
    String,
>)
    ensures
        match format {
            Format::Other(name) => r matches Err(message) && message@
                == "unsupported DXGI desktop format "@ + name@,
            _ => if bytes@.len() / 4 >= width * height {
                r matches Ok(image) && image.width == width && image.height == height
                    && shows_frame(image, bytes@, format is Bgra8 || format is Bgra8Srgb)
            } else {
                r matches Err(message) && message@ == "could not construct DXGI monitor image"@
            },
        },
{
    let blue_first: bool = match &format {
        Format::Bgra8 | Format::Bgra8Srgb => true,
        Format::Rgba8 | Format::Rgba8Srgb => false,
        Format::Other(name) => {
            return Err(joined("unsupported DXGI desktop format ", name.as_str()));
        },
    };
    match opaque_image(bytes, blue_first, width, height) {
        Some(image) => Ok(image),
        None => Err("could not construct DXGI monitor image".to_owned()),
    }
}

/// A picture of a part of the desktop that is put together from those of the monitors.
pub struct Desktop {
    pub rect: Rect,
    pub image: Image<Rgba>,
    /// How many pixels the monitors gave.
    pub covered: u64,
}

/// A pixel of the desktop's picture once a monitor's picture stands in it: `old` where the monitor
/// does not show the place.
pub open spec fn placed(
    rect: Rect,
    monitor: Rect,
    image: Image<Rgba>,
    x: int,
    y: int,
    old: Rgba,
) -> Rgba {
    let at_x = rect.left + x - monitor.left;
    let at_y = rect.top + y - monitor.top;
    if monitor.has(rect.left + x, rect.top + y) && at_x < image.width && at_y < image.height {
        image.at(at_x, at_y)
    } else {
        old
    }
}

impl Desktop {
    /// The picture has the size of the part.
    pub open spec fn well_formed(&self) -> bool {
        &&& self.rect.measurable()
        &&& self.rect.is_valid()
        &&& self.image.well_formed()
        &&& self.image.width == self.rect.width()
        &&& self.image.height == self.rect.height()
    }

    /// An empty picture of a part of the desktop.
    pub fn new(rect: Rect) -> (r: Result<Desktop, String>)
        requires
            rect.measurable(),
            rect.width() * rect.height() <= usize::MAX,
        ensures
            if rect.is_valid() {
                r matches Ok(desktop) && desktop.rect == rect && desktop.covered == 0
                    && desktop.well_formed() && forall|i: int|
                    0 <= i < desktop.image.pixels@.len() ==> #[trigger] desktop.image.pixels@[i]
                        == (Rgba { r: 0, g: 0, b: 0, a: 0 })
            } else {
                r matches Err(message) && message@ == invalid_message(rect)
            },
    {
        match valid_rect(rect) {
            Err(message) => Err(message),
            Ok(_) => {
                let width: u32 = (rect.right - rect.left) as u32;
                let height: u32 = (rect.bottom - rect.top) as u32;
                proof {
                    assert(0 <= width * height <= u32::MAX * u32::MAX) by (nonlinear_arith)
                        requires
                            width <= u32::MAX,
                            height <= u32::MAX,
                    ;
                }
                let count: u64 = width as u64 * height as u64;
                let mut pixels: Vec<Rgba> = Vec::new();
                let mut i: u64 = 0;
                while i < count
                    invariant
                        i <= count,
                        pixels@.len() == i,
                        forall|j: int|
                            0 <= j < i ==> #[trigger] pixels@[j] == (Rgba { r: 0, g: 0, b: 0, a: 0 }),
                    decreases count - i,
                {
                    pixels.push(Rgba { r: 0, g: 0, b: 0, a: 0 });
                    i = i + 1;
                }
                Ok(Desktop { rect, image: Image { width, height, pixels }, covered: 0 })
            },
        }
    }

    /// The part of a monitor that is needed.
    pub fn needed(&self, monitor: Rect) -> (r: Option<Rect>)
        ensures
            r == shared(self.rect, monitor),
    {
        intersect(self.rect, monitor)
    }

    /// Puts the picture of a monitor that shows a part of the desktop into the picture. A monitor
    /// whose picture is smaller than the monitor leaves what it does not show as it is, but counts
    /// as if it showed all.
    pub fn place(&mut self, monitor: Rect, image: &Image<Rgba>)
        requires
            old(self).well_formed(),
            image.well_formed(),
            shared(old(self).rect, monitor) matches Some(both) ==> {
                &&& both.left - monitor.left <= i32::MAX
                &&& both.top - monitor.top <= i32::MAX
                &&& old(self).covered + both.width() * both.height() <= u64::MAX
            },
        ensures
            final(self).well_formed(),
            final(self).rect == old(self).rect,
            final(self).covered == (match shared(old(self).rect, monitor) {
                Some(both) => old(self).covered + both.width() * both.height(),
                None => old(self).covered as int,
            }),
            forall|x: int, y: int|
                0 <= x < old(self).image.width && 0 <= y < old(self).image.height
                    ==> #[trigger] final(self).image.at(x, y) == placed(
                    old(self).rect,
                    monitor,
                    *image,
                    x,
                    y,
                    old(self).image.at(x, y),
                ),
    {
        let both: Rect = match intersect(self.rect, monitor) {
            Some(both) => both,
            None => {
                proof {
                    assert forall|x: int, y: int|
                        0 <= x < self.image.width && 0 <= y < self.image.height implies
                        #[trigger] self.image.at(x, y) == placed(
                        self.rect,
                        monitor,
                        *image,
                        x,
                        y,
                        self.image.at(x, y),
                    ) by {
                        lemma_shared(self.rect, monitor, self.rect.left + x, self.rect.top + y);
                    }
                }
                return ;
            },
        };
        let ghost before = self.image;
        let rect: Rect = self.rect;
        let from_x: u32 = (both.left - monitor.left) as u32;
        let from_y: u32 = (both.top - monitor.top) as u32;
        let wide: u32 = (both.right - both.left) as u32;
        let high: u32 = (both.bottom - both.top) as u32;
        proof {
            assert(0 <= wide * high <= u32::MAX * u32::MAX) by (nonlinear_arith)
                requires
                    wide <= u32::MAX,
                    high <= u32::MAX,
            ;
        }
        let area: u64 = wide as u64 * high as u64;
        let corner_x: u32 = if from_x <= image.width {
            from_x
        } else {
            image.width
        };
        let corner_y: u32 = if from_y <= image.height {
            from_y
        } else {
            image.height
        };
        let size_x: u32 = if wide <= image.width - corner_x {
            wide
        } else {
            image.width - corner_x
        };
        let size_y: u32 = if high <= image.height - corner_y {
            high
        } else {
            image.height - corner_y
        };
        let to: (u32, u32) = ((both.left - rect.left) as u32, (both.top - rect.top) as u32);
        paste(&mut self.image, image, (corner_x, corner_y), (size_x, size_y), to);
        proof {
            assert forall|x: int, y: int|
                0 <= x < before.width && 0 <= y < before.height implies #[trigger] self.image.at(
                x,
                y,
            ) == placed(rect, monitor, *image, x, y, before.at(x, y)) by {
                lemma_shared(rect, monitor, rect.left + x, rect.top + y);
            }
        }
        self.covered = self.covered + area;
    }

    /// The picture, where the monitors showed all of it.
    pub fn finish(self) -> (r: Result<Image<Rgba>, String>)
        requires
            self.well_formed(),
        ensures
            ({
                let expected = self.image.width * self.image.height;
                if self.covered == expected {
                    r matches Ok(image) && image == self.image
                } else {
                    r matches Err(message) && message@ == "DXGI covered "@ + crate::text::decimal(
                        self.covered as nat,
                    ) + " of "@ + crate::text::decimal(expected as nat) + " requested pixels"@
                }
            }),
    {
        proof {
            assert(0 <= self.image.width * self.image.height <= u32::MAX * u32::MAX)
                by (nonlinear_arith)
                requires
                    self.image.width <= u32::MAX,
                    self.image.height <= u32::MAX,
            ;
        }
        let expected: u64 = self.image.width as u64 * self.image.height as u64;
        if self.covered != expected {
            let mut message: String = joined(
                "DXGI covered ",
                decimal_string(self.covered as u128).as_str(),
            );
            message.append(" of ");
            message.append(decimal_string(expected as u128).as_str());
            message.append(" requested pixels");
            return Err(message);
        }
        Ok(self.image)
    }
}

/// A monitor that holds the whole part gives each of its pixels, and as many as are asked for.
pub proof fn lemma_one_monitor(rect: Rect, monitor: Rect, image: Image<Rgba>, x: int, y: int, old: Rgba)
    requires
        rect.is_valid(),
        monitor.left <= rect.left && rect.right <= monitor.right,
        monitor.top <= rect.top && rect.bottom <= monitor.bottom,
        image.width == monitor.width(),
        image.height == monitor.height(),
        0 <= x < rect.width(),
        0 <= y < rect.height(),
    ensures
        shared(rect, monitor) == Some(rect),
        placed(rect, monitor, image, x, y, old) == image.at(
            rect.left - monitor.left + x,
            rect.top - monitor.top + y,
        ),
{
}

/// Two monitors that share nothing do not disturb each other: it makes no difference which picture
/// is put in first.
pub proof fn lemma_monitors_swap(
    rect: Rect,
    first: Rect,
    first_image: Image<Rgba>,
    second: Rect,
    second_image: Image<Rgba>,
    x: int,
    y: int,
    old: Rgba,
)
    requires
        shared(first, second) is None,
    ensures
        placed(
            rect,
            second,
            second_image,
            x,
            y,
            placed(rect, first, first_image, x, y, old),
        ) == placed(rect, first, first_image, x, y, placed(rect, second, second_image, x, y, old)),
{
    lemma_shared(first, second, rect.left + x, rect.top + y);
}

/// Whether the slower way is tried: the first gave nothing, or a picture on which nothing is shown.
pub fn needs_fallback(first: &Result<Image<Rgba>, String>) -> (r: bool)
    requires
        first matches Ok(image) ==> image.well_formed(),
    ensures
        r == (match *first {
            Ok(image) => is_empty_frame(image),
            Err(_) => true,
        }),
{
    match first {
        Ok(image) => looks_like_empty_frame(image),
        Err(_) => true,
    }
}

/// What is said where both ways of taking a picture failed.
pub open spec fn both_failed(
    first: Seq<char>,
    first_error: Seq<char>,
    second_error: Seq<char>,
) -> Seq<char> {
    first + " ("@ + first_error + "); GDI fallback failed ("@ + second_error + ")"@
}

/// What is said where both ways of taking a picture failed.
fn failures(first: &str, first_error: &str, second_error: &str) -> (r: String)
    ensures
        r@ == both_failed(first@, first_error@, second_error@),
{
    let mut message: String = joined(first, " (");
    message.append(first_error);
    message.append("); GDI fallback failed (");
    message.append(second_error);
    message.append(")");
    message
}

/// The picture of a part of the desktop, given what came of the first and of the slower way. The
/// first way's picture is kept unless nothing is shown on it; then the slower way's is taken, where
/// there is one.
pub fn capture_rect(first: Result<Image<Rgba>, String>, fallback: Result<Image<Rgba>, String>) -> (r:
    Result<Image<Rgba>, String>)
    requires
        first matches Ok(image) ==> image.well_formed(),
    ensures
        match first {
            Ok(image) => r == (if is_empty_frame(image) && fallback is Ok {
                fallback
            } else {
                first
            }),
            Err(error) => match fallback {
                Ok(_) => r == fallback,
                Err(other) => r matches Err(message) && message@ == both_failed(
                    "DXGI capture failed"@,
                    error@,
                    other@,
                ),
            },
        },
{
    if !needs_fallback(&first) {
        return first;
    }
    match fallback {
        Ok(image) => Ok(image),
        Err(other) => match first {
            Ok(image) => Ok(image),
            Err(error) => Err(failures("DXGI capture failed", error.as_str(), other.as_str())),
        },
    }
}

/// The window that a picture is taken of, where there is one: the one under the pointer, or the
/// active one.
pub fn found_window(window: Option<u64>, under_pointer: bool) -> (r: Result<u64, String>)
    ensures
        match window {
            Some(window) => r == Ok::<u64, String>(window),
            None => r matches Err(message) && message@ == (if under_pointer {
                "no window found under the pointer"@
            } else {
                "no active Windows window available"@
            }),
        },
{
    match window {
        Some(window) => Ok(window),
        None => if under_pointer {
            Err("no window found under the pointer".to_owned())
        } else {
            Err("no active Windows window available".to_owned())
        },
    }
}

/// The picture of a window, given what came of the first and of the slower way. The slower way goes
/// by the window's place: its outer error says that the place is not known.
pub fn capture_window(
    first: Result<Image<Rgba>, String>,
    fallback: Result<Result<Image<Rgba>, String>, String>,
) -> (r: Result<Image<Rgba>, String>)
    ensures
        match (first, fallback) {
            (Ok(_), _) => r == first,
            (Err(_), Err(unplaced)) => r == Err::<Image<Rgba>, String>(unplaced),
            (Err(_), Ok(Ok(image))) => r == Ok::<Image<Rgba>, String>(image),
            (Err(error), Ok(Err(other))) => r matches Err(message) && message@ == both_failed(
                "WGC failed"@,
                error@,
                other@,
            ),
        },
{
    match first {
        Ok(image) => Ok(image),
        Err(error) => match fallback {
            Err(unplaced) => Err(unplaced),
            Ok(Ok(image)) => Ok(image),
            Ok(Err(other)) => Err(failures("WGC failed", error.as_str(), other.as_str())),
        },
    }
}

/// The backend takes screenshots on Windows.
pub fn check_backend(backend: Backend) -> (r: Result<(), String>)
    ensures
        if backend == Backend::Windows {
            r is Ok
        } else {
            r matches Err(message) && message@ == "backend "@ + backend.name()
                + " is unavailable on Windows"@
        },
{
    match backend {
        Backend::Windows => Ok(()),
        _ => {
            let mut message: String = joined("backend ", backend.as_str());
            message.append(" is unavailable on Windows");
            Err(message)
        },
    }
}

/// The file that a screenshot was written to holds something.
pub fn check_written(path: &str, length: Option<u64>) -> (r: Result<(), String>)
    ensures
        match length {
            Some(length) if length > 0 => r is Ok,
            _ => r matches Err(message) && message@ == "capture did not create "@ + path@,
        },
{
    match length {
        Some(length) => if length > 0 {
            return Ok(());
        },
        None => {},
    }
    Err(joined("capture did not create ", path))
}

/// The picture without up to four rings of one colour at its edge: `None` where nothing is taken
/// off.
pub fn strip_uniform_border(image: &Image<Rgba>) -> (r: Option<Image<Rgba>>)
    requires
        image.well_formed(),
    ensures
        if image.width < 32 || image.height < 32 || image.peel(0) == 0 {
            r is None
        } else {
            r matches Some(part) && part.width == image.width - 2 * image.peel(0) && part.height
                == image.height - 2 * image.peel(0) && image.is_crop(
                image.peel(0),
                image.peel(0),
                part,
            )
        },
{
    if image.width < 32 || image.height < 32 {
        return None;
    }
    let peel: u32 = uniform_rings(image);
    if peel == 0 {
        return None;
    }
    Some(crop(image, peel, peel, image.width - peel * 2, image.height - peel * 2))
}

/// A rectangle is valid where it has an inside; what is told of the screen's place and size is its
/// rectangle.
pub proof fn lemma_rects(
    rect: Rect,
    valid: Result<Rect, String>,
    left: i32,
    top: i32,
    width: i32,
    height: i32,
    screen: Result<Rect, String>,
)
    requires
        rect.is_valid() || rect.measurable(),
        i32::MIN <= left + width <= i32::MAX,
        i32::MIN <= top + height <= i32::MAX,
        call_ensures(valid_rect, (rect,), valid),
        call_ensures(virtual_screen_rect, (left, top, width, height), screen),
    ensures
        valid is Ok <==> rect.left < rect.right && rect.top < rect.bottom,
        valid matches Ok(same) ==> same == rect,
        screen is Ok <==> width > 0 && height > 0,
        screen matches Ok(found) ==> found.left == left && found.top == top && found.width() == width
            && found.height() == height,
{
}

/// A picture is looked at in about 64 steps each way, one pixel at least.
pub proof fn lemma_step(extent: int)
    requires
        extent >= 0,
    ensures
        step(extent) >= 1,
        extent < 128 ==> step(extent) == 1,
        64 * step(extent) <= extent || step(extent) == 1,
        extent < 64 * (step(extent) + 1),
{
}

/// A frame of which every pixel is dark is empty, and one without a dark pixel is not; a frame without
/// pixels is.
pub proof fn lemma_empty_frame(image: Image<Rgba>)
    requires
        image.well_formed(),
    ensures
        image.width == 0 || image.height == 0 ==> is_empty_frame(image),
        (forall|x: int, y: int|
            0 <= x < image.width && 0 <= y < image.height ==> is_dark(#[trigger] image.at(x, y)))
            ==> is_empty_frame(image),
        image.width > 0 && image.height > 0 && (forall|x: int, y: int|
            0 <= x < image.width && 0 <= y < image.height ==> !is_dark(#[trigger] image.at(x, y)))
            ==> !is_empty_frame(image),
{
    lemma_dark_rows(image, 0);
}

proof fn lemma_dark_row(image: Image<Rgba>, y: int, x: int)
    requires
        0 <= x,
        0 <= y < image.height,
    ensures
        dark_in_row(image, y, x) <= looked_at(image.width as int, x),
        (forall|i: int, j: int|
            0 <= i < image.width && 0 <= j < image.height ==> is_dark(#[trigger] image.at(i, j)))
            ==> dark_in_row(image, y, x) == looked_at(image.width as int, x),
        (forall|i: int, j: int|
            0 <= i < image.width && 0 <= j < image.height ==> !is_dark(#[trigger] image.at(i, j)))
            ==> dark_in_row(image, y, x) == 0,
        x < image.width ==> looked_at(image.width as int, x) > 0,
    decreases
            (if x < image.width {
                image.width - x
            } else {
                0
            }),
{
    lemma_step(image.width as int);
    if x < image.width {
        lemma_dark_row(image, y, x + step(image.width as int));
    }
}

proof fn lemma_dark_rows(image: Image<Rgba>, y: int)
    requires
        0 <= y,
    ensures
        (forall|i: int, j: int|
            0 <= i < image.width && 0 <= j < image.height ==> is_dark(#[trigger] image.at(i, j)))
            ==> dark_from(image, y) == samples_from(image.width as int, image.height as int, y),
        (forall|i: int, j: int|
            0 <= i < image.width && 0 <= j < image.height ==> !is_dark(#[trigger] image.at(i, j)))
            ==> dark_from(image, y) == 0,
        y < image.height && image.width > 0 ==> samples_from(
            image.width as int,
            image.height as int,
            y,
        ) > 0,
    decreases
            (if y < image.height {
                image.height - y
            } else {
                0
            }),
{
    lemma_step(image.height as int);
    if y < image.height {
        lemma_dark_row(image, y, 0);
        lemma_dark_rows(image, y + step(image.height as int));
    }
}

/// A pixel is dark where none of its colours is above four.
pub proof fn lemma_dark(pixel: Rgba)
    ensures
        is_dark(pixel) <==> !(pixel.r > 4 || pixel.g > 4 || pixel.b > 4),
{
}

/// A frame's pixels are its bytes, covered fully, the red first or the blue first as its format says.
pub proof fn lemma_frame_pixels(
    format: Format,
    bytes: &[u8],
    width: u32,
    height: u32,
    image: Result<Image<Rgba>, String>,
    i: int,
)
    requires
        call_ensures(monitor_image, (format, bytes, width, height), image),
        0 <= i < width * height,
    ensures
        image is Ok <==> !(format is Other) && bytes@.len() / 4 >= width * height,
        image matches Ok(image) ==> {
            let pixel = image.pixels@[i];
            &&& image.width == width && image.height == height
            &&& pixel.g == bytes@[4 * i + 1]
            &&& pixel.a == 255
            &&& format is Bgra8 || format is Bgra8Srgb ==> pixel.b == bytes@[4 * i] && pixel.r
                == bytes@[4 * i + 2]
            &&& format is Rgba8 || format is Rgba8Srgb ==> pixel.r == bytes@[4 * i] && pixel.b
                == bytes@[4 * i + 2]
        },
{
    if let Ok(image) = image {
        assert(image.pixels@.len() == width * height);
        assert(image.pixels@[i] == opaque_pixel(
            bytes@,
            format is Bgra8 || format is Bgra8Srgb,
            i,
        ));
    }
}

/// What is captured: the first picture where it shows something, or else the other where that could
/// be taken; a picture that shows nothing is still better than none.
pub proof fn lemma_captured(
    first: Result<Image<Rgba>, String>,
    fallback: Result<Image<Rgba>, String>,
    r: Result<Image<Rgba>, String>,
)
    requires
        first matches Ok(image) ==> image.well_formed(),
        call_ensures(capture_rect, (first, fallback), r),
    ensures
        r is Ok <==> first is Ok || fallback is Ok,
        first matches Ok(image) ==> (!is_empty_frame(image) ==> r == first),
        first matches Ok(image) ==> (is_empty_frame(image) && fallback is Ok ==> r == fallback),
        first matches Ok(image) ==> (is_empty_frame(image) && fallback is Err ==> r == first),
        first is Err && fallback is Ok ==> r == fallback,
        first is Err && fallback is Err ==> r->Err_0@ == "DXGI capture failed"@ + " ("@
            + first->Err_0@ + "); GDI fallback failed ("@ + fallback->Err_0@ + ")"@,
{
}

/// A window is captured the first way where that works, and else the other way.
pub proof fn lemma_captured_window(
    first: Result<Image<Rgba>, String>,
    fallback: Result<Result<Image<Rgba>, String>, String>,
    r: Result<Image<Rgba>, String>,
    backend: Backend,
    checked: Result<(), String>,
    path: &str,
    length: Option<u64>,
    written: Result<(), String>,
)
    requires
        call_ensures(capture_window, (first, fallback), r),
        call_ensures(check_backend, (backend,), checked),
        call_ensures(check_written, (path, length), written),
    ensures
        first is Ok ==> r == first,
        r is Ok <==> first is Ok || (fallback is Ok && fallback->Ok_0 is Ok),
        first is Err && fallback is Ok && fallback->Ok_0 is Ok ==> r == fallback->Ok_0,
        checked is Ok <==> backend == Backend::Windows,
        written is Ok <==> length is Some && length->Some_0 > 0,
{
}

/// A picture is taken another way where the first failed or shows nothing; a window that is not found
/// is an error.
pub proof fn lemma_fallback(
    first: &Result<Image<Rgba>, String>,
    needed: bool,
    window: Option<u64>,
    under_pointer: bool,
    found: Result<u64, String>,
)
    requires
        first matches Ok(image) ==> image.well_formed(),
        call_ensures(needs_fallback, (first,), needed),
        call_ensures(found_window, (window, under_pointer), found),
    ensures
        needed <==> first is Err || is_empty_frame(first->Ok_0),
        found is Ok <==> window is Some,
        found matches Ok(id) ==> window == Some(id),
{
}

/// The border that is cut off a window is of one colour, and as wide as it can be.
pub proof fn lemma_border(image: &Image<Rgba>, part: Option<Image<Rgba>>, x: int, y: int)
    requires
        image.well_formed(),
        call_ensures(strip_uniform_border, (image,), part),
    ensures
        image.width < 32 || image.height < 32 ==> part is None,
        part matches Some(part) ==> {
            let border = image.peel(0);
            &&& 0 < border <= 4
            &&& part.width == image.width - 2 * border && part.height == image.height - 2 * border
            &&& forall|d: int| 0 <= d < border ==> #[trigger] image.ring_is(d, image.at(0, 0))
            &&& 0 <= x < part.width && 0 <= y < part.height ==> part.at(x, y) == image.at(
                border + x,
                border + y,
            )
        },
        part is None && image.width >= 32 && image.height >= 32 ==> !image.ring_is(
            0,
            image.at(0, 0),
        ),
{
    crate::pixels::lemma_peeled(*image, 0);
}

} // verus!
