//! Parts of a screen that are selected.
//!
//! Places are counted in 256ths of a pixel.
use vstd::prelude::*;

verus! {

/// How small a selection may be: four pixels.
pub const MIN_SEL: i64 = 1024;

/// How far out a place can be: more than there are columns and rows on any screen.
pub const FARTHEST: i64 = 0x200_0000_0000;

/// A place on the output.
#[derive(Clone, Copy, Debug, PartialEq, Eq, Structural)]
pub struct Point {
    pub x: i64,
    pub y: i64,
}

impl Point {
    /// A place as far out as a pointer can be.
    pub open spec fn in_range(self) -> bool {
        -FARTHEST <= self.x <= FARTHEST && -FARTHEST <= self.y <= FARTHEST
    }
}

/// A part of the output.
#[derive(Clone, Copy, Debug, PartialEq, Eq, Structural)]
pub struct Rect {
    pub x: i64,
    pub y: i64,
    pub w: i64,
    pub h: i64,
}

impl Rect {
    /// The part between two opposite corners.
    pub open spec fn between(first: Point, second: Point) -> Rect {
        Rect {
            x: if first.x <= second.x {
                first.x
            } else {
                second.x
            },
            y: if first.y <= second.y {
                first.y
            } else {
                second.y
            },
            w: (if first.x <= second.x {
                second.x - first.x
            } else {
                first.x - second.x
            }) as i64,
            h: (if first.y <= second.y {
                second.y - first.y
            } else {
                first.y - second.y
            }) as i64,
        }
    }

    /// A part that is too small to be selected.
    pub open spec fn tiny(self) -> bool {
        self.w < MIN_SEL || self.h < MIN_SEL
    }

    /// A part as far out as a pointer can be.
    pub open spec fn in_range(self) -> bool {
        &&& -FARTHEST <= self.x <= FARTHEST
        &&& -FARTHEST <= self.y <= FARTHEST
        &&& 0 <= self.w <= 2 * FARTHEST
        &&& 0 <= self.h <= 2 * FARTHEST
    }

    /// Its right edge.
    pub fn right(&self) -> (r: i64)
        requires
            self.in_range(),
        ensures
            r == self.x + self.w,
    {
        self.x + self.w
    }

    /// Its lower edge.
    pub fn bottom(&self) -> (r: i64)
        requires
            self.in_range(),
        ensures
            r == self.y + self.h,
    {
        self.y + self.h
    }

    /// Whether a place lies in it or on its edge.
    pub fn contains(&self, point: Point) -> (r: bool)
        requires
            self.in_range(),
        ensures
            r == (self.x <= point.x <= self.x + self.w && self.y <= point.y <= self.y + self.h),
    {
        point.x >= self.x && point.x <= self.right() && point.y >= self.y && point.y
            <= self.bottom()
    }

    /// The part between two opposite corners.
    pub fn from_corners(first: Point, second: Point) -> (r: Rect)
        requires
            first.in_range(),
            second.in_range(),
        ensures
            r == Rect::between(first, second),
            r.in_range(),
    {
        Rect {
            x: if first.x <= second.x {
                first.x
            } else {
                second.x
            },
            y: if first.y <= second.y {
                first.y
            } else {
                second.y
            },
            w: if first.x <= second.x {
                second.x - first.x
            } else {
                first.x - second.x
            },
            h: if first.y <= second.y {
                second.y - first.y
            } else {
                first.y - second.y
            },
        }
    }
}

/// The part between two corners does not depend on which is named first.
pub proof fn lemma_corners_swap(first: Point, second: Point)
    ensures
        Rect::between(first, second) == Rect::between(second, first),
{
}

/// Both corners belong to the part between them.
pub proof fn lemma_corners_belong(first: Point, second: Point)
    requires
        first.in_range(),
        second.in_range(),
    ensures
        ({
            let rect = Rect::between(first, second);
            &&& rect.x <= first.x <= rect.x + rect.w && rect.y <= first.y <= rect.y + rect.h
            &&& rect.x <= second.x <= rect.x + rect.w && rect.y <= second.y <= rect.y + rect.h
        }),
{
}

/// A handle of the selection: which of its edges are moved.
#[derive(Clone, Copy, Debug, PartialEq, Eq, Structural)]
pub struct Handle {
    pub left: bool,
    pub right: bool,
    pub top: bool,
    pub bottom: bool,
}

/// What of the selection a place hits.
#[derive(Clone, Copy, Debug, PartialEq, Eq, Structural)]
pub enum Region {
    Handle(Handle),
    Inside,
    Outside,
}

/// What is being done.
#[derive(Clone, Copy, Debug, PartialEq, Eq, Structural)]
pub enum Mode {
    /// Nothing is selected.
    Idle,
    /// A part is being drawn.
    Drawing { anchor: Point, now: Point },
    /// A part is selected and can be changed.
    Editing { rect: Rect },
}

/// What is being done to the selection.
#[derive(Clone, Copy, Debug, PartialEq, Eq, Structural)]
pub enum Interaction {
    Resize { handle: Handle },
    /// It is moved; `grab` is where in it it was taken hold of: [`move_target`] says where it goes.
    Move { grab: Point },
    /// It was pressed: a click unless the pointer moves away.
    ClickInside { press: Point },
}

/// Where the corner of a part goes that was taken hold of at `grab` and is moved to `at`.
pub fn move_target(at: Point, grab: Point) -> (r: Point)
    requires
        i64::MIN <= at.x - grab.x <= i64::MAX,
        i64::MIN <= at.y - grab.y <= i64::MAX,
    ensures
        r.x == at.x - grab.x,
        r.y == at.y - grab.y,
{
    Point { x: at.x - grab.x, y: at.y - grab.y }
}

/// The edges of the part between two corners are the corners' own: it reaches no further and no less
/// far than they do.
pub proof fn lemma_corners_are_edges(first: Point, second: Point)
    requires
        first.in_range(),
        second.in_range(),
    ensures
        ({
            let rect = Rect::between(first, second);
            &&& rect.x == first.x || rect.x == second.x
            &&& rect.y == first.y || rect.y == second.y
            &&& rect.x + rect.w == first.x || rect.x + rect.w == second.x
            &&& rect.y + rect.h == first.y || rect.y + rect.h == second.y
            &&& rect.x <= first.x && rect.x <= second.x && rect.y <= first.y && rect.y <= second.y
            &&& rect.x + rect.w >= first.x && rect.x + rect.w >= second.x
            &&& rect.y + rect.h >= first.y && rect.y + rect.h >= second.y
        }),
{
}

/// A part that is moved keeps the place at which it is held under the pointer.
pub proof fn lemma_held_place(at: Point, grab: Point, corner: Point)
    requires
        call_ensures(move_target, (at, grab), corner),
    ensures
        corner.x + grab.x == at.x,
        corner.y + grab.y == at.y,
{
}

/// The right and the lower edge of a part, and the points within its edges.
pub proof fn lemma_edges(rect: &Rect, point: Point, right: i64, bottom: i64, inside: bool)
    requires
        rect.in_range(),
        call_ensures(Rect::right, (rect,), right),
        call_ensures(Rect::bottom, (rect,), bottom),
        call_ensures(Rect::contains, (rect, point), inside),
    ensures
        right - rect.x == rect.w,
        bottom - rect.y == rect.h,
        inside <==> rect.x <= point.x <= right && rect.y <= point.y <= bottom,
{
}

} // verus!
