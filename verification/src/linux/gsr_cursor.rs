//! The plugin that draws a smoothed pointer into the frames of a recording.
use vstd::prelude::*;

use crate::pixels::{pixel, Image, Rgba};
use crate::text::text_of;

verus! {

/// How long a line that is not complete may become.
pub const MAX_PARTIAL: usize = 4096;

/// Whether the recorder draws in the way that the plugin knows.
pub fn check_api(graphics_api: i32) -> (r: Result<(), String>)
    ensures
        if graphics_api == 0 {
            r is Ok
        } else {
            r matches Err(message) && message@
                == "needs gsr's EGL (GLES) context; X11/GLX capture is unsupported"@
        },
{
    if graphics_api != 0 {
        Err("needs gsr's EGL (GLES) context; X11/GLX capture is unsupported".to_owned())
    } else {
        Ok(())
    }
}

/// Where the next line ends from `at` on: the end of the bytes where none does.
pub open spec fn line_end(bytes: Seq<u8>, at: int) -> int
    decreases bytes.len() - at,
{
    if at < 0 || at >= bytes.len() || bytes[at] == 0x0a {
        at
    } else {
        line_end(bytes, at + 1)
    }
}

/// A line's end lies in the bytes.
proof fn lemma_line_end(bytes: Seq<u8>, at: int)
    requires
        0 <= at <= bytes.len(),
    ensures
        at <= line_end(bytes, at) <= bytes.len(),
        line_end(bytes, at) < bytes.len() ==> bytes[line_end(bytes, at)] == 0x0a,
        forall|i: int| at <= i < line_end(bytes, at) ==> bytes[i] != 0x0a,
    decreases bytes.len() - at,
{
    if at < bytes.len() && bytes[at] != 0x0a {
        lemma_line_end(bytes, at + 1);
    }
}

/// The complete lines in the bytes.
pub open spec fn complete_lines(bytes: Seq<u8>) -> Seq<Seq<u8>>
    decreases bytes.len(),
{
    let end = line_end(bytes, 0);
    if 0 <= end < bytes.len() {
        seq![bytes.take(end)] + complete_lines(bytes.skip(end + 1))
    } else {
        Seq::empty()
    }
}

/// What stands behind the last complete line.
pub open spec fn unfinished(bytes: Seq<u8>) -> Seq<u8>
    decreases bytes.len(),
{
    let end = line_end(bytes, 0);
    if 0 <= end < bytes.len() {
        unfinished(bytes.skip(end + 1))
    } else {
        bytes
    }
}

/// Where no line ends in the first bytes, it ends as if those behind stood alone.
proof fn lemma_line_end_joined(a: Seq<u8>, b: Seq<u8>, at: int)
    requires
        0 <= at <= a.len(),
    ensures
        line_end(a, at) < a.len() ==> line_end(a + b, at) == line_end(a, at),
    decreases a.len() - at,
{
    if at < a.len() {
        assert((a + b)[at] == a[at]);
        if a[at] != 0x0a {
            lemma_line_end_joined(a, b, at + 1);
        }
    }
}

/// Bytes that come in two parts give the lines that they give in one: what the first part left
/// unfinished goes before the second.
pub proof fn lemma_parts_make_no_difference(a: Seq<u8>, b: Seq<u8>)
    ensures
        complete_lines(a + b) == complete_lines(a) + complete_lines(unfinished(a) + b),
        unfinished(a + b) == unfinished(unfinished(a) + b),
    decreases a.len(),
{
    lemma_line_end(a, 0);
    let end = line_end(a, 0);
    if end < a.len() {
        lemma_line_end_joined(a, b, 0);
        let rest = a.skip(end + 1);
        assert((a + b).take(end) =~= a.take(end));
        assert((a + b).skip(end + 1) =~= rest + b);
        lemma_parts_make_no_difference(rest, b);
        assert(complete_lines(a + b) =~= complete_lines(a) + complete_lines(unfinished(a) + b));
    } else {
        assert(complete_lines(a) + complete_lines(a + b) =~= complete_lines(a + b));
    }
}

/// What runs of bytes hold.
pub open spec fn byte_views(lines: Seq<Vec<u8>>) -> Seq<Seq<u8>> {
    Seq::new(lines.len(), |i: int| lines[i]@)
}

/// The events that come from the trackers, line by line.
pub struct Feed {
    pub partial: Vec<u8>,
}

impl Feed {
    /// Nothing has come yet.
    pub fn new() -> (r: Self)
        ensures
            r.partial@.len() == 0,
    {
        Feed { partial: Vec::new() }
    }

    /// Takes bytes in and gives the lines that they complete. A line that grows too long without
    /// an end is dropped.
    pub fn poll(&mut self, bytes: &[u8]) -> (r: Vec<Vec<u8>>)
        ensures
            byte_views(r@) == complete_lines(old(self).partial@ + bytes@),
            final(self).partial@ == (if unfinished(old(self).partial@ + bytes@).len()
                > MAX_PARTIAL {
                Seq::empty()
            } else {
                unfinished(old(self).partial@ + bytes@)
            }),
    {
        let ghost all = self.partial@ + bytes@;
        let mut gathered: Vec<u8> = Vec::new();
        std::mem::swap(&mut gathered, &mut self.partial);
        let mut lines: Vec<Vec<u8>> = Vec::new();
        let mut i: usize = 0;
        let ghost before = gathered@;
        proof {
            assert(before + bytes@.take(0) =~= before);
        }
        while i < bytes.len()
            invariant
                i <= bytes@.len(),
                gathered@ == before + bytes@.take(i as int),
            decreases bytes.len() - i,
        {
            gathered.push(bytes[i]);
            proof {
                assert(gathered@ =~= before + bytes@.take(i + 1));
            }
            i = i + 1;
        }
        proof {
            assert(bytes@.take(i as int) =~= bytes@);
            assert(gathered@ == all);
            assert(all.skip(0) =~= all);
            assert(byte_views(lines@) + complete_lines(all) =~= complete_lines(all));
        }
        let mut start: usize = 0;
        let mut line: Vec<u8> = Vec::new();
        let mut at: usize = 0;
        while at < gathered.len()
            invariant
                gathered@ == all,
                start <= at <= all.len(),
                line@ == all.subrange(start as int, at as int),
                forall|j: int| start <= j < at ==> all[j] != 0x0a,
                byte_views(lines@) + complete_lines(all.skip(start as int)) == complete_lines(all),
                unfinished(all.skip(start as int)) == unfinished(all),
            decreases gathered.len() - at,
        {
            let byte: u8 = gathered[at];
            if byte == 0x0a {
                let ghost rest = all.skip(start as int);
                let ghost found = line@;
                let ghost known = byte_views(lines@);
                proof {
                    lemma_first_end(rest, at - start);
                    assert(rest.take(at - start) =~= found);
                    assert(rest.skip(at - start + 1) =~= all.skip(at + 1));
                }
                lines.push(line);
                line = Vec::new();
                start = at + 1;
                proof {
                    assert(byte_views(lines@) =~= known.push(found));
                    assert(known.push(found) + complete_lines(all.skip(start as int)) =~= known
                        + complete_lines(rest));
                    assert(line@ =~= all.subrange(start as int, at + 1));
                }
            } else {
                line.push(byte);
                proof {
                    assert(line@ =~= all.subrange(start as int, at + 1));
                }
            }
            at = at + 1;
        }
        proof {
            let rest = all.skip(start as int);
            lemma_no_end(rest, 0);
            assert(line@ =~= rest);
            assert(complete_lines(rest) =~= Seq::empty());
            assert(byte_views(lines@) + Seq::<Seq<u8>>::empty() =~= byte_views(lines@));
        }
        if line.len() > MAX_PARTIAL {
            self.partial = Vec::new();
            proof {
                assert(self.partial@ =~= Seq::empty());
            }
        } else {
            self.partial = line;
        }
        lines
    }
}

/// The first line ends where the first end stands.
proof fn lemma_first_end(bytes: Seq<u8>, end: int)
    requires
        0 <= end < bytes.len(),
        bytes[end] == 0x0a,
        forall|i: int| 0 <= i < end ==> bytes[i] != 0x0a,
    ensures
        line_end(bytes, 0) == end,
{
    lemma_line_end(bytes, 0);
    let found = line_end(bytes, 0);
    if found > end {
        assert(bytes[end] != 0x0a);
    }
    lemma_stops(bytes, 0);
}

/// A line that ends before the bytes do ends at an end.
proof fn lemma_stops(bytes: Seq<u8>, at: int)
    requires
        0 <= at <= bytes.len(),
    ensures
        line_end(bytes, at) < bytes.len() ==> bytes[line_end(bytes, at)] == 0x0a,
    decreases bytes.len() - at,
{
    if at < bytes.len() && bytes[at] != 0x0a {
        lemma_stops(bytes, at + 1);
    }
}

/// Bytes without an end give no line.
proof fn lemma_no_end(bytes: Seq<u8>, at: int)
    requires
        0 <= at <= bytes.len(),
        forall|i: int| 0 <= i < bytes.len() ==> bytes[i] != 0x0a,
    ensures
        line_end(bytes, at) == bytes.len(),
    decreases bytes.len() - at,
{
    if at < bytes.len() {
        lemma_no_end(bytes, at + 1);
    }
}

/// How many pixels of the arrow a pixel of the video has, in each direction.
pub const SUPERSAMPLE: u32 = 4;

/// The smallest multiple of [`SUPERSAMPLE`] that is not smaller.
pub open spec fn rounded_up(value: int) -> int {
    (value + SUPERSAMPLE - 1) / (SUPERSAMPLE as int) * SUPERSAMPLE
}

/// A colour dimmed by its opacity.
pub open spec fn dimmed(colour: u8, alpha: u8) -> int {
    (colour * alpha + 127) / 255
}

/// A pixel dimmed by its opacity.
pub open spec fn premultiplied(pixel: Rgba) -> Rgba {
    Rgba {
        r: dimmed(pixel.r, pixel.a) as u8,
        g: dimmed(pixel.g, pixel.a) as u8,
        b: dimmed(pixel.b, pixel.a) as u8,
        a: pixel.a,
    }
}

/// A place of the texture of an arrow: the arrow stands in it at a distance of one pixel of the
/// video from the edge.
pub open spec fn texel(arrow: Image<Rgba>, x: int, y: int) -> Rgba {
    let pad = SUPERSAMPLE as int;
    if pad <= x < arrow.width + pad && pad <= y < arrow.height + pad {
        premultiplied(arrow.at(x - pad, y - pad))
    } else {
        Rgba { r: 0, g: 0, b: 0, a: 0 }
    }
}

/// A colour dimmed by its opacity.
fn dim(colour: u8, alpha: u8) -> (r: u8)
    ensures
        r == dimmed(colour, alpha),
{
    proof {
        assert(0 <= colour * alpha <= 255 * 255) by (nonlinear_arith)
            requires
                colour <= 255,
                alpha <= 255,
        ;
    }
    ((colour as u32 * alpha as u32 + 127) / 255) as u8
}

/// The texture of an arrow: a multiple of [`SUPERSAMPLE`] wide and high, with an edge where nothing
/// is drawn, and its colours dimmed by their opacity.
pub fn texture(arrow: &Image<Rgba>) -> (r: Image<Rgba>)
    requires
        arrow.well_formed(),
        arrow.width <= u32::MAX - 12,
        arrow.height <= u32::MAX - 12,
        rounded_up(arrow.width + 8) * rounded_up(arrow.height + 8) <= usize::MAX,
    ensures
        r.well_formed(),
        r.width == rounded_up(arrow.width + 8),
        r.height == rounded_up(arrow.height + 8),
        forall|x: int, y: int|
            0 <= x < r.width && 0 <= y < r.height ==> #[trigger] r.at(x, y) == texel(*arrow, x, y),
{
    let width: u32 = (arrow.width + 8 + 3) / 4 * 4;
    let height: u32 = (arrow.height + 8 + 3) / 4 * 4;
    let mut pixels: Vec<Rgba> = Vec::new();
    let mut y: u32 = 0;
    proof {
        assert(0 * width == 0) by (nonlinear_arith);
    }
    while y < height
        invariant
            arrow.well_formed(),
            arrow.width <= u32::MAX - 12,
            arrow.height <= u32::MAX - 12,
            y <= height,
            pixels@.len() == y * width,
            forall|a: int, b: int|
                0 <= a < width && 0 <= b < y ==> #[trigger] pixels@[crate::pixels::position(
                    width as int,
                    a,
                    b,
                )] == texel(*arrow, a, b),
        decreases height - y,
    {
        let mut x: u32 = 0;
        while x < width
            invariant
                arrow.well_formed(),
                arrow.width <= u32::MAX - 12,
                arrow.height <= u32::MAX - 12,
                x <= width,
                y < height,
                pixels@.len() == y * width + x,
                forall|a: int, b: int|
                    0 <= a < width && 0 <= b < y ==> #[trigger] pixels@[crate::pixels::position(
                        width as int,
                        a,
                        b,
                    )] == texel(*arrow, a, b),
                forall|a: int|
                    0 <= a < x ==> #[trigger] pixels@[crate::pixels::position(
                        width as int,
                        a,
                        y as int,
                    )] == texel(*arrow, a, y as int),
            decreases width - x,
        {
            let ghost before = pixels@;
            if 4 <= x && x < arrow.width + 4 && 4 <= y && y < arrow.height + 4 {
                let from = pixel(arrow, x - 4, y - 4);
                pixels.push(
                    Rgba {
                        r: dim(from.r, from.a),
                        g: dim(from.g, from.a),
                        b: dim(from.b, from.a),
                        a: from.a,
                    },
                );
            } else {
                pixels.push(Rgba { r: 0, g: 0, b: 0, a: 0 });
            }
            proof {
                assert forall|a: int, b: int| 0 <= a < width && 0 <= b < y implies
                    #[trigger] pixels@[crate::pixels::position(width as int, a, b)] == texel(
                    *arrow,
                    a,
                    b,
                ) by {
                    crate::pixels::lemma_position(width as int, y as int, a, b);
                    assert(width * y == y * width) by (nonlinear_arith);
                    assert(before[crate::pixels::position(width as int, a, b)] == texel(
                        *arrow,
                        a,
                        b,
                    ));
                }
                assert forall|a: int| 0 <= a < x + 1 implies #[trigger] pixels@[
                    crate::pixels::position(width as int, a, y as int)] == texel(
                    *arrow,
                    a,
                    y as int,
                ) by {
                    if a < x {
                        assert(before[crate::pixels::position(width as int, a, y as int)] == texel(
                            *arrow,
                            a,
                            y as int,
                        ));
                    }
                }
            }
            x = x + 1;
        }
        proof {
            assert((y + 1) * width == y * width + width) by (nonlinear_arith);
            assert forall|a: int, b: int| 0 <= a < width && 0 <= b < y + 1 implies
                #[trigger] pixels@[crate::pixels::position(width as int, a, b)] == texel(
                *arrow,
                a,
                b,
            ) by {
                if b == y {
                    assert(pixels@[crate::pixels::position(width as int, a, y as int)] == texel(
                        *arrow,
                        a,
                        y as int,
                    ));
                }
            }
        }
        y = y + 1;
    }
    proof {
        assert(width * height == height * width) by (nonlinear_arith);
    }
    Image { width, height, pixels }
}

/// What the graphics driver says, of which `length` bytes are there.
pub fn info_log(buffer: &Vec<u8>, length: i32) -> (r: String)
    ensures
        r@ == crate::text::lossy(
            buffer@.take(
                if length < 0 {
                    0
                } else if length > buffer@.len() {
                    buffer@.len() as int
                } else {
                    length as int
                },
            ),
        ),
{
    let mut shown: Vec<u8> = Vec::new();
    let end: usize = if length < 0 {
        0
    } else if length as usize > buffer.len() {
        buffer.len()
    } else {
        length as usize
    };
    let mut i: usize = 0;
    while i < end
        invariant
            i <= end <= buffer.len(),
            shown@ == buffer@.take(i as int),
        decreases end - i,
    {
        shown.push(buffer[i]);
        proof {
            assert(shown@ =~= buffer@.take(i + 1));
        }
        i = i + 1;
    }
    text_of(shown.as_slice())
}

/// A colour is dimmed as far as it is covered: not at all where it is covered, to nothing where it is
/// not, and to the whole number next to its part between.
pub proof fn lemma_dimmed(colour: u8, alpha: u8)
    ensures
        0 <= dimmed(colour, alpha) <= colour,
        alpha == 255 ==> dimmed(colour, alpha) == colour,
        alpha == 0 ==> dimmed(colour, alpha) == 0,
        -127 <= 255 * dimmed(colour, alpha) - colour * alpha <= 127,
        premultiplied(Rgba { r: colour, g: alpha, b: alpha, a: alpha }).r == dimmed(colour, alpha),
{
    let product = colour * alpha;
    assert(0 <= product <= 255 * colour) by (nonlinear_arith)
        requires
            product == colour * alpha,
            0 <= alpha <= 255,
            0 <= colour,
    ;
    if alpha == 255 {
        assert(product == 255 * colour);
    }
    if alpha == 0 {
        assert(product == 0);
    }
}

/// Each part of a pixel is dimmed by itself, and how much it covers stays.
pub proof fn lemma_premultiplied(pixel: Rgba)
    ensures
        premultiplied(pixel).a == pixel.a,
        premultiplied(pixel).r == dimmed(pixel.r, pixel.a),
        premultiplied(pixel).g == dimmed(pixel.g, pixel.a),
        premultiplied(pixel).b == dimmed(pixel.b, pixel.a),
{
    lemma_dimmed(pixel.r, pixel.a);
    lemma_dimmed(pixel.g, pixel.a);
    lemma_dimmed(pixel.b, pixel.a);
}

/// The texture holds the arrow four pixels from its corner and nothing around it, and its sides are
/// the next multiples of four.
pub proof fn lemma_texture(arrow: &Image<Rgba>, r: Image<Rgba>, x: int, y: int)
    requires
        arrow.well_formed(),
        call_ensures(texture, (arrow,), r),
        0 <= x < r.width,
        0 <= y < r.height,
    ensures
        r.width % 4 == 0 && arrow.width + 8 <= r.width < arrow.width + 12,
        r.height % 4 == 0 && arrow.height + 8 <= r.height < arrow.height + 12,
        x < 4 || y < 4 || x >= arrow.width + 4 || y >= arrow.height + 4 ==> r.at(x, y) == (Rgba {
            r: 0,
            g: 0,
            b: 0,
            a: 0,
        }),
        4 <= x < arrow.width + 4 && 4 <= y < arrow.height + 4 ==> {
            let shown = arrow.at(x - 4, y - 4);
            &&& r.at(x, y).a == shown.a
            &&& shown.a == 255 ==> r.at(x, y) == shown
            &&& shown.a == 0 ==> r.at(x, y) == (Rgba { r: 0, g: 0, b: 0, a: 0 })
        },
{
    if 4 <= x < arrow.width + 4 && 4 <= y < arrow.height + 4 {
        let shown = arrow.at(x - 4, y - 4);
        lemma_premultiplied(shown);
        lemma_dimmed(shown.r, shown.a);
        lemma_dimmed(shown.g, shown.a);
        lemma_dimmed(shown.b, shown.a);
    }
}

/// A message is what the buffer holds up to its length, and no more than there is.
pub proof fn lemma_info_log(buffer: &Vec<u8>, length: i32, log: String)
    requires
        call_ensures(info_log, (buffer, length), log),
    ensures
        length <= 0 ==> log@ == crate::text::lossy(Seq::empty()),
        length >= buffer@.len() ==> log@ == crate::text::lossy(buffer@),
        0 <= length <= buffer@.len() ==> log@ == crate::text::lossy(buffer@.take(length as int)),
{
    assert(buffer@.take(0) =~= Seq::empty());
    assert(buffer@.take(buffer@.len() as int) =~= buffer@);
}

/// Lines that are complete and what is left of them make up all that was fed.
pub proof fn lemma_lines(bytes: Seq<u8>)
    ensures
        forall|i: int|
            0 <= i < complete_lines(bytes).len() ==> !(#[trigger] complete_lines(bytes)[i]).contains(
                0x0a,
            ),
        !unfinished(bytes).contains(0x0a),
        rejoined(complete_lines(bytes)) + unfinished(bytes) == bytes,
    decreases bytes.len(),
{
    let end = line_end(bytes, 0);
    lemma_line_end(bytes, 0);
    if 0 <= end < bytes.len() {
        let rest = bytes.skip(end + 1);
        lemma_lines(rest);
        let first = bytes.take(end);
        let lines = seq![first] + complete_lines(rest);
        assert forall|i: int| 0 <= i < lines.len() implies !(#[trigger] lines[i]).contains(0x0a) by {
            if i > 0 {
                assert(lines[i] == complete_lines(rest)[i - 1]);
            }
        }
        assert(lines.skip(1) =~= complete_lines(rest));
        assert(rejoined(lines) + unfinished(rest) =~= first.push(0x0a) + (rejoined(
            complete_lines(rest),
        ) + unfinished(rest)));
        assert(first.push(0x0a) + rest =~= bytes);
    } else {
        assert(rejoined(Seq::empty()) + bytes =~= bytes);
    }
}

/// `lines` one behind the other, each with its end.
pub open spec fn rejoined(lines: Seq<Seq<u8>>) -> Seq<u8>
    decreases lines.len(),
{
    if lines.len() == 0 {
        Seq::empty()
    } else {
        lines[0].push(0x0a) + rejoined(lines.skip(1))
    }
}

} // verus!
