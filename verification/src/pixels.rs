//! Pictures as rows of pixels.
use vstd::prelude::*;

verus! {

/// A colour.
#[derive(Clone, Copy, Debug, PartialEq, Eq, Structural)]
pub struct Rgb {
    pub r: u8,
    pub g: u8,
    pub b: u8,
}

/// A colour with its opacity.
#[derive(Clone, Copy, Debug, PartialEq, Eq, Structural)]
pub struct Rgba {
    pub r: u8,
    pub g: u8,
    pub b: u8,
    pub a: u8,
}

/// What a picture is made of.
pub trait Pixel: Copy {
    /// The two pixels look the same.
    fn equals(self, other: Self) -> (r: bool)
        ensures
            r == (self == other),
    ;
}

impl Pixel for Rgb {
    fn equals(self, other: Self) -> bool {
        self == other
    }
}

impl Pixel for Rgba {
    fn equals(self, other: Self) -> bool {
        self == other
    }
}

/// A picture, its rows from top to bottom.
#[derive(Clone, Debug, PartialEq, Eq)]
pub struct Image<P> {
    pub width: u32,
    pub height: u32,
    pub pixels: Vec<P>,
}

/// Where the pixel `(x, y)` stands in a picture of the given width.
pub open spec fn position(width: int, x: int, y: int) -> int {
    y * width + x
}

/// A pixel within the picture stands within its rows.
pub proof fn lemma_position(width: int, height: int, x: int, y: int)
    by (nonlinear_arith)
    requires
        0 <= x < width,
        0 <= y < height,
    ensures
        0 <= position(width, x, y) < width * height,
{
}

/// A position belongs to one pixel.
pub proof fn lemma_position_divides(width: int, x: int, y: int)
    by (nonlinear_arith)
    requires
        0 <= x < width,
        0 <= y,
    ensures
        position(width, x, y) / width == y,
        position(width, x, y) % width == x,
{
}

impl<P> Image<P> {
    /// There is a pixel for each place in the picture.
    pub open spec fn well_formed(&self) -> bool {
        self.pixels@.len() == self.width * self.height
    }

    /// The pixel in column `x` of row `y`.
    pub open spec fn at(&self, x: int, y: int) -> P {
        self.pixels@[position(self.width as int, x, y)]
    }

    /// `part` is the picture's part of its own size with its corner at `(x, y)`.
    pub open spec fn is_crop(&self, x: int, y: int, part: Image<P>) -> bool {
        &&& part.well_formed()
        &&& forall|i: int, j: int|
            0 <= i < part.width && 0 <= j < part.height ==> #[trigger] part.at(i, j) == self.at(
                x + i,
                y + j,
            )
    }
}

/// The pixel in column `x` of row `y`.
pub fn pixel<P: Pixel>(image: &Image<P>, x: u32, y: u32) -> (r: P)
    requires
        image.well_formed(),
        x < image.width,
        y < image.height,
    ensures
        r == image.at(x as int, y as int),
{
    proof {
        lemma_position(image.width as int, image.height as int, x as int, y as int);
        assert(y * image.width <= u32::MAX * u32::MAX) by (nonlinear_arith)
            requires
                y <= u32::MAX,
                image.width <= u32::MAX,
        ;
    }
    let place: u64 = y as u64 * image.width as u64 + x as u64;
    assert(place < image.pixels.len());
    image.pixels[place as usize]
}

/// The part of `image` of the size `width` by `height` with its corner at `(x, y)`.
pub fn crop<P: Pixel>(image: &Image<P>, x: u32, y: u32, width: u32, height: u32) -> (r: Image<P>)
    requires
        image.well_formed(),
        x + width <= image.width,
        y + height <= image.height,
    ensures
        r.width == width,
        r.height == height,
        image.is_crop(x as int, y as int, r),
{
    let mut pixels: Vec<P> = Vec::new();
    let mut j: u32 = 0;
    proof {
        assert(0 * width == 0) by (nonlinear_arith);
    }
    while j < height
        invariant
            image.well_formed(),
            x + width <= image.width,
            y + height <= image.height,
            j <= height,
            pixels@.len() == j * width,
            forall|a: int, b: int|
                0 <= a < width && 0 <= b < j ==> #[trigger] pixels@[position(width as int, a, b)]
                    == image.at(x + a, y + b),
        decreases height - j,
    {
        let mut i: u32 = 0;
        while i < width
            invariant
                image.well_formed(),
                x + width <= image.width,
                y + height <= image.height,
                j < height,
                i <= width,
                pixels@.len() == j * width + i,
                forall|a: int, b: int|
                    0 <= a < width && 0 <= b < j ==> #[trigger] pixels@[position(
                        width as int,
                        a,
                        b,
                    )] == image.at(x + a, y + b),
                forall|a: int|
                    0 <= a < i ==> #[trigger] pixels@[position(width as int, a, j as int)]
                        == image.at(x + a, y + j),
            decreases width - i,
        {
            let ghost before = pixels@;
            pixels.push(pixel(image, x + i, y + j));
            proof {
                assert forall|a: int, b: int| 0 <= a < width && 0 <= b < j implies
                    #[trigger] pixels@[position(width as int, a, b)] == image.at(x + a, y + b) by {
                    lemma_position(width as int, j as int, a, b);
                    assert(width * j == j * width) by (nonlinear_arith);
                    assert(before[position(width as int, a, b)] == image.at(x + a, y + b));
                }
                assert forall|a: int| 0 <= a < i + 1 implies #[trigger] pixels@[position(
                    width as int,
                    a,
                    j as int,
                )] == image.at(x + a, y + j) by {
                    if a < i {
                        assert(before[position(width as int, a, j as int)] == image.at(x + a, y + j));
                    }
                }
            }
            i = i + 1;
        }
        proof {
            assert((j + 1) * width == j * width + width) by (nonlinear_arith);
            assert forall|a: int, b: int| 0 <= a < width && 0 <= b < j + 1 implies
                #[trigger] pixels@[position(width as int, a, b)] == image.at(x + a, y + b) by {
                if b == j {
                    assert(pixels@[position(width as int, a, j as int)] == image.at(x + a, y + j));
                }
            }
        }
        j = j + 1;
    }
    proof {
        assert(width * height == height * width) by (nonlinear_arith);
    }
    Image { width, height, pixels }
}

/// A pixel of `target` once the part of `source` of the given size with its corner at `from` stands
/// in it with its corner at `to`.
pub open spec fn pasted<P>(
    target: Image<P>,
    source: Image<P>,
    from: (int, int),
    size: (int, int),
    to: (int, int),
    x: int,
    y: int,
) -> P {
    if to.0 <= x < to.0 + size.0 && to.1 <= y < to.1 + size.1 {
        source.at(from.0 + x - to.0, from.1 + y - to.1)
    } else {
        target.at(x, y)
    }
}

/// Puts the part of `source` of the given size with its corner at `from` into `target` with its
/// corner at `to`.
pub fn paste<P: Pixel>(
    target: &mut Image<P>,
    source: &Image<P>,
    from: (u32, u32),
    size: (u32, u32),
    to: (u32, u32),
)
    requires
        old(target).well_formed(),
        source.well_formed(),
        from.0 + size.0 <= source.width,
        from.1 + size.1 <= source.height,
        to.0 + size.0 <= old(target).width,
        to.1 + size.1 <= old(target).height,
    ensures
        final(target).well_formed(),
        final(target).width == old(target).width,
        final(target).height == old(target).height,
        forall|x: int, y: int|
            0 <= x < old(target).width && 0 <= y < old(target).height ==> #[trigger] final(target).at(x, y) == pasted(
                *old(target),
                *source,
                (from.0 as int, from.1 as int),
                (size.0 as int, size.1 as int),
                (to.0 as int, to.1 as int),
                x,
                y,
            ),
{
    let ghost before = *target;
    let ghost corner = (from.0 as int, from.1 as int);
    let ghost place = (to.0 as int, to.1 as int);
    let width: u32 = target.width;
    let height: u32 = target.height;
    let mut j: u32 = 0;
    while j < size.1
        invariant
            before.width == width,
            before.height == height,
            target.width == width,
            target.height == height,
            before.well_formed(),
            target.well_formed(),
            source.well_formed(),
            corner == (from.0 as int, from.1 as int),
            place == (to.0 as int, to.1 as int),
            from.0 + size.0 <= source.width,
            from.1 + size.1 <= source.height,
            to.0 + size.0 <= width,
            to.1 + size.1 <= height,
            j <= size.1,
            forall|x: int, y: int|
                0 <= x < width && 0 <= y < height ==> #[trigger] target.at(x, y) == pasted(
                    before,
                    *source,
                    corner,
                    (size.0 as int, j as int),
                    place,
                    x,
                    y,
                ),
        decreases size.1 - j,
    {
        let mut i: u32 = 0;
        let ghost row = *target;
        proof {
            assert forall|x: int, y: int| 0 <= x < width && 0 <= y < height implies
                #[trigger] target.at(x, y) == pasted(
                row,
                *source,
                (corner.0, corner.1 + j),
                (0, 1),
                (place.0, place.1 + j),
                x,
                y,
            ) by {}
        }
        while i < size.0
            invariant
                row.width == width,
                row.height == height,
                target.width == width,
                target.height == height,
                target.well_formed(),
                source.well_formed(),
                corner == (from.0 as int, from.1 as int),
                place == (to.0 as int, to.1 as int),
                from.0 + size.0 <= source.width,
                from.1 + size.1 <= source.height,
                to.0 + size.0 <= width,
                to.1 + size.1 <= height,
                j < size.1,
                i <= size.0,
                forall|x: int, y: int|
                    0 <= x < width && 0 <= y < height ==> #[trigger] target.at(x, y) == pasted(
                        row,
                        *source,
                        (corner.0, corner.1 + j),
                        (i as int, 1),
                        (place.0, place.1 + j),
                        x,
                        y,
                    ),
            decreases size.0 - i,
        {
            let value = pixel(source, from.0 + i, from.1 + j);
            let column: u32 = to.0 + i;
            let line: u32 = to.1 + j;
            proof {
                lemma_position(width as int, height as int, column as int, line as int);
                assert(line * width <= u32::MAX * u32::MAX) by (nonlinear_arith)
                    requires
                        line <= u32::MAX,
                        width <= u32::MAX,
                ;
            }
            let at: u64 = line as u64 * width as u64 + column as u64;
            let ghost earlier = *target;
            assert(at < target.pixels.len());
            target.pixels.set(at as usize, value);
            proof {
                assert forall|x: int, y: int| 0 <= x < width && 0 <= y < height implies
                    #[trigger] target.at(x, y) == pasted(
                    row,
                    *source,
                    (corner.0, corner.1 + j),
                    (i + 1, 1),
                    (place.0, place.1 + j),
                    x,
                    y,
                ) by {
                    lemma_position(width as int, height as int, x, y);
                    lemma_position_divides(width as int, x, y);
                    lemma_position_divides(width as int, column as int, line as int);
                    if x == column && y == line {
                        assert(target.at(x, y) == value);
                    } else {
                        assert(target.at(x, y) == earlier.at(x, y));
                    }
                }
            }
            i = i + 1;
        }
        proof {
            assert forall|x: int, y: int| 0 <= x < width && 0 <= y < height implies
                #[trigger] target.at(x, y) == pasted(
                before,
                *source,
                corner,
                (size.0 as int, j + 1),
                place,
                x,
                y,
            ) by {
                assert(row.at(x, y) == pasted(
                    before,
                    *source,
                    corner,
                    (size.0 as int, j as int),
                    place,
                    x,
                    y,
                ));
            }
        }
        j = j + 1;
    }
}

impl<P> Image<P> {
    /// The pixels of the ring at the distance `d` from the picture's edge all are `edge`.
    pub open spec fn ring_is(&self, d: int, edge: P) -> bool {
        &&& forall|x: int|
            d <= x < self.width - d ==> #[trigger] self.at(x, d) == edge && self.at(
                x,
                self.height - 1 - d,
            ) == edge
        &&& forall|y: int|
            d <= y < self.height - d ==> #[trigger] self.at(d, y) == edge && self.at(
                self.width - 1 - d,
                y,
            ) == edge
    }

    /// How many rings, counted from the edge and from `d` on up to four, are of the colour of the
    /// picture's first pixel.
    pub open spec fn peel(&self, d: int) -> int
        decreases 4 - d,
    {
        if d < 4 && self.ring_is(d, self.at(0, 0)) {
            self.peel(d + 1)
        } else {
            d
        }
    }
}

/// The pixels from `from` up to `to` along the row `fixed`, or down the column `fixed`, all are
/// `edge`.
fn line_is<P: Pixel>(image: &Image<P>, from: u32, to: u32, fixed: u32, row: bool, edge: P) -> (r:
    bool)
    requires
        image.well_formed(),
        row ==> to <= image.width && fixed < image.height,
        !row ==> to <= image.height && fixed < image.width,
    ensures
        row ==> r == forall|x: int| from <= x < to ==> #[trigger] image.at(x, fixed as int) == edge,
        !row ==> r == forall|y: int| from <= y < to ==> #[trigger] image.at(fixed as int, y) == edge,
{
    let mut i: u32 = from;
    while i < to
        invariant
            image.well_formed(),
            row ==> to <= image.width && fixed < image.height,
            !row ==> to <= image.height && fixed < image.width,
            from <= i,
            row ==> forall|x: int|
                from <= x < i ==> #[trigger] image.at(x, fixed as int) == edge,
            !row ==> forall|y: int|
                from <= y < i ==> #[trigger] image.at(fixed as int, y) == edge,
        decreases to - i,
    {
        let found = if row {
            pixel(image, i, fixed)
        } else {
            pixel(image, fixed, i)
        };
        if !found.equals(edge) {
            return false;
        }
        i = i + 1;
    }
    true
}

/// The ring at the distance `d` is of one colour, that of `edge`.
fn ring_uniform<P: Pixel>(image: &Image<P>, d: u32, edge: P) -> (r: bool)
    requires
        image.well_formed(),
        d < 4,
        image.width >= 32,
        image.height >= 32,
    ensures
        r == image.ring_is(d as int, edge),
{
    let (w, h) = (image.width, image.height);
    let top: bool = line_is(image, d, w - d, d, true, edge);
    let bottom: bool = line_is(image, d, w - d, h - 1 - d, true, edge);
    let left: bool = line_is(image, d, h - d, d, false, edge);
    let right: bool = line_is(image, d, h - d, w - 1 - d, false, edge);
    proof {
        if image.ring_is(d as int, edge) {
            assert forall|x: int| d <= x < w - d implies #[trigger] image.at(x, h - 1 - d) == edge by {
                assert(image.at(x, d as int) == edge);
            }
            assert forall|y: int| d <= y < h - d implies #[trigger] image.at(w - 1 - d, y) == edge by {
                assert(image.at(d as int, y) == edge);
            }
        }
    }
    top && bottom && left && right
}

/// How many rings, counted from the edge and up to four, are of the colour of the first pixel.
pub fn uniform_rings<P: Pixel>(image: &Image<P>) -> (r: u32)
    requires
        image.well_formed(),
        image.width >= 32,
        image.height >= 32,
    ensures
        r == image.peel(0),
        r <= 4,
{
    let edge = pixel(image, 0, 0);
    let mut d: u32 = 0;
    while d < 4 && ring_uniform(image, d, edge)
        invariant
            image.well_formed(),
            image.width >= 32,
            image.height >= 32,
            edge == image.at(0, 0),
            d <= 4,
            image.peel(0) == image.peel(d as int),
        decreases 4 - d,
    {
        d = d + 1;
    }
    d
}

/// The rings that are peeled off are all of one colour, and the next is not, unless there are four.
pub proof fn lemma_peeled<P>(image: Image<P>, d: int)
    requires
        0 <= d <= 4,
    ensures
        d <= image.peel(d) <= 4,
        forall|k: int| d <= k < image.peel(d) ==> #[trigger] image.ring_is(k, image.at(0, 0)),
        image.peel(d) < 4 ==> !image.ring_is(image.peel(d), image.at(0, 0)),
    decreases 4 - d,
{
    if d < 4 && image.ring_is(d, image.at(0, 0)) {
        lemma_peeled(image, d + 1);
    }
}

/// A ring lies as far from each side of the picture: every pixel at that distance has the colour.
pub proof fn lemma_ring<P>(image: Image<P>, d: int, edge: P, x: int, y: int)
    requires
        image.ring_is(d, edge),
        d <= x < image.width - d,
        d <= y < image.height - d,
        x == d || y == d || x == image.width - 1 - d || y == image.height - 1 - d,
    ensures
        image.at(x, y) == edge,
{
    assert(image.at(x, d) == edge);
    assert(image.at(d, y) == edge);
}

/// What is pasted is found where it was put, and everything beside it is as it was.
pub proof fn lemma_pasted<P>(
    target: Image<P>,
    source: Image<P>,
    from: (int, int),
    size: (int, int),
    to: (int, int),
    dx: int,
    dy: int,
)
    ensures
        0 <= dx < size.0 && 0 <= dy < size.1 ==> pasted(
            target,
            source,
            from,
            size,
            to,
            to.0 + dx,
            to.1 + dy,
        ) == source.at(from.0 + dx, from.1 + dy),
        dx < 0 || dx >= size.0 || dy < 0 || dy >= size.1 ==> pasted(
            target,
            source,
            from,
            size,
            to,
            to.0 + dx,
            to.1 + dy,
        ) == target.at(to.0 + dx, to.1 + dy),
{
}

/// A part that is cut out has the size that was asked for, and in it the pixels that lie there.
pub proof fn lemma_cropped<P: Pixel>(
    image: &Image<P>,
    x: u32,
    y: u32,
    width: u32,
    height: u32,
    part: Image<P>,
    i: int,
    j: int,
)
    requires
        image.well_formed(),
        x + width <= image.width,
        y + height <= image.height,
        call_ensures(crop::<P>, (image, x, y, width, height), part),
        0 <= i < width,
        0 <= j < height,
    ensures
        part.width == width,
        part.height == height,
        part.at(i, j) == image.at(x + i, y + j),
        image.at(x + i, y + j) == image.pixels@[(y + j) * image.width + (x + i)],
{
}

} // verus!
