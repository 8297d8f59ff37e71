//! What can be recorded.
use vstd::prelude::*;

use crate::text::same;

verus! {

/// The longest side of a picture that hardware encoders take.
pub const HARDWARE_H264_MAX_SIDE: u32 = 4096;

/// A part of the desktop.
#[derive(Clone, Copy, Debug, PartialEq, Eq, Structural)]
pub struct Geometry {
    pub x: i32,
    pub y: i32,
    pub w: u32,
    pub h: u32,
}

/// What a recording shows.
#[derive(Clone, Debug, PartialEq, Eq)]
pub enum CaptureScope {
    Area(Geometry),
    Outputs(Vec<String>),
}

/// How many pixels a unit of the desktop is, as a fraction.
#[derive(Clone, Copy, Debug, PartialEq, Eq, Structural)]
pub struct Scale {
    pub numerator: i64,
    pub denominator: u64,
}

impl Scale {
    /// The fraction is a number above zero.
    pub open spec fn positive(self) -> bool {
        self.numerator > 0 && self.denominator > 0
    }

    /// Two fractions are the same number.
    pub open spec fn same(self, other: Scale) -> bool {
        self.numerator * other.denominator == other.numerator * self.denominator
    }

    /// A distance in the desktop's units in whole pixels: halves are rounded up.
    pub open spec fn pixels(self, distance: int) -> int {
        (2 * (distance * self.numerator) + self.denominator) / (2 * self.denominator as int)
    }

    /// Whether the fraction is a number above zero.
    pub fn is_positive(self) -> (r: bool)
        ensures
            r == self.positive(),
    {
        self.numerator > 0 && self.denominator > 0
    }

    /// Whether two fractions are the same number.
    pub fn is_same(self, other: Scale) -> (r: bool)
        ensures
            r == self.same(other),
    {
        proof {
            assert(-0x8000_0000_0000_0000 * 0xffff_ffff_ffff_ffff <= self.numerator
                * other.denominator <= 0x8000_0000_0000_0000 * 0xffff_ffff_ffff_ffff)
                by (nonlinear_arith)
                requires
                    -0x8000_0000_0000_0000 <= self.numerator <= 0x8000_0000_0000_0000,
                    0 <= other.denominator <= 0xffff_ffff_ffff_ffff,
            ;
            assert(-0x8000_0000_0000_0000 * 0xffff_ffff_ffff_ffff <= other.numerator
                * self.denominator <= 0x8000_0000_0000_0000 * 0xffff_ffff_ffff_ffff)
                by (nonlinear_arith)
                requires
                    -0x8000_0000_0000_0000 <= other.numerator <= 0x8000_0000_0000_0000,
                    0 <= self.denominator <= 0xffff_ffff_ffff_ffff,
            ;
        }
        self.numerator as i128 * other.denominator as i128 == other.numerator as i128
            * self.denominator as i128
    }

    /// A distance in the desktop's units in whole pixels: halves are rounded up.
    pub fn in_pixels(self, distance: u32) -> (r: u128)
        requires
            self.positive(),
        ensures
            r == self.pixels(distance as int),
    {
        proof {
            assert(0 <= distance * self.numerator <= 0x1_0000_0000 * 0x8000_0000_0000_0000)
                by (nonlinear_arith)
                requires
                    0 <= distance <= 0x1_0000_0000,
                    0 <= self.numerator <= 0x8000_0000_0000_0000,
            ;
        }
        (2 * (distance as u128 * self.numerator as u128) + self.denominator as u128) / (2
            * self.denominator as u128)
    }
}

/// The same scale gives the same distance, however it is written as a fraction.
pub proof fn lemma_same_scale(first: Scale, second: Scale, distance: nat)
    requires
        first.positive(),
        second.positive(),
        first.same(second),
    ensures
        first.pixels(distance as int) == second.pixels(distance as int),
{
    let (a, b) = (first.numerator as int, first.denominator as int);
    let (c, d) = (second.numerator as int, second.denominator as int);
    let x = distance as int;
    let whole = first.pixels(x);
    let up = 2 * (x * a) + b;
    let other = 2 * (x * c) + d;
    // Both fractions have the same quotient: `up / 2b == (up * d) / (2b * d) == (other * b) / (2d * b)`.
    assert(up * d == other * b) by (nonlinear_arith)
        requires
            a * d == c * b,
            up == 2 * (x * a) + b,
            other == 2 * (x * c) + d,
    ;
    assert(x * a >= 0 && x * c >= 0) by (nonlinear_arith)
        requires
            x >= 0,
            a > 0,
            c > 0,
    ;
    vstd::arithmetic::div_mod::lemma_fundamental_div_mod(up, 2 * b);
    let rest = up % (2 * b);
    assert(other == 2 * d * whole + (other - 2 * d * whole));
    assert((other - 2 * d * whole) * b == rest * d) by (nonlinear_arith)
        requires
            up == 2 * b * whole + rest,
            up * d == other * b,
    ;
    let remains = other - 2 * d * whole;
    assert(0 <= remains < 2 * d) by (nonlinear_arith)
        requires
            remains * b == rest * d,
            0 <= rest < 2 * b,
            b > 0,
            d > 0,
    ;
    vstd::arithmetic::div_mod::lemma_fundamental_div_mod_converse(other, 2 * d, whole, remains);
}

/// An output of the desktop.
#[derive(Clone, Debug, PartialEq, Eq)]
pub struct Monitor {
    pub name: String,
    pub description: String,
    /// The place in the desktop, in its own units.
    pub x: i32,
    pub y: i32,
    /// The size in pixels.
    pub width: u32,
    pub height: u32,
    pub scale: Scale,
    pub focused: bool,
}

/// The place of the first focused output from `at` on: the length where there is none.
pub open spec fn focused_from(monitors: Seq<Monitor>, at: int) -> int
    decreases monitors.len() - at,
{
    if at < 0 || at >= monitors.len() || monitors[at].focused {
        at
    } else {
        focused_from(monitors, at + 1)
    }
}

/// The place of the first output of the given name from `at` on: the length where there is none.
pub open spec fn named_from(monitors: Seq<Monitor>, name: Seq<char>, at: int) -> int
    decreases monitors.len() - at,
{
    if at < 0 || at >= monitors.len() || monitors[at].name@ == name {
        at
    } else {
        named_from(monitors, name, at + 1)
    }
}

/// The place of the first focused output.
pub fn focused_place(monitors: &Vec<Monitor>) -> (r: usize)
    ensures
        r == focused_from(monitors@, 0),
        r <= monitors.len(),
{
    let mut at: usize = 0;
    while at < monitors.len() && !monitors[at].focused
        invariant
            at <= monitors.len(),
            focused_from(monitors@, 0) == focused_from(monitors@, at as int),
        decreases monitors.len() - at,
    {
        at = at + 1;
    }
    at
}

/// The place of the first output of the given name.
pub fn named_place(monitors: &Vec<Monitor>, name: &str) -> (r: usize)
    ensures
        r == named_from(monitors@, name@, 0),
        r <= monitors.len(),
{
    let mut at: usize = 0;
    while at < monitors.len() && !same(monitors[at].name.as_str(), name)
        invariant
            at <= monitors.len(),
            named_from(monitors@, name@, 0) == named_from(monitors@, name@, at as int),
        decreases monitors.len() - at,
    {
        at = at + 1;
    }
    at
}

/// A search goes forward.
pub proof fn lemma_focused_range(monitors: Seq<Monitor>, at: int)
    requires
        0 <= at,
    ensures
        focused_from(monitors, at) >= at,
    decreases monitors.len() - at,
{
    if at < monitors.len() && !monitors[at].focused {
        lemma_focused_range(monitors, at + 1);
    }
}

/// A search goes forward.
pub proof fn lemma_named_range(monitors: Seq<Monitor>, name: Seq<char>, at: int)
    requires
        0 <= at,
    ensures
        named_from(monitors, name, at) >= at,
    decreases monitors.len() - at,
{
    if at < monitors.len() && monitors[at].name@ != name {
        lemma_named_range(monitors, name, at + 1);
    }
}

/// A distance in pixels is the whole number next to the exact one: no further from it than half a
/// pixel. At a scale of one it is the distance itself.
pub proof fn lemma_pixels_of(scale: Scale, distance: int)
    requires
        scale.positive(),
        distance >= 0,
    ensures
        scale.pixels(distance) >= 0,
        2 * (scale.denominator * scale.pixels(distance)) <= 2 * (distance * scale.numerator)
            + scale.denominator,
        2 * (distance * scale.numerator) < 2 * (scale.denominator * scale.pixels(distance))
            + scale.denominator,
        scale.numerator == scale.denominator ==> scale.pixels(distance) == distance,
        scale.pixels(0) == 0,
{
    let b = scale.denominator as int;
    let up = 2 * (distance * scale.numerator) + b;
    let r = scale.pixels(distance);
    assert(distance * scale.numerator >= 0) by (nonlinear_arith)
        requires
            distance >= 0,
            scale.numerator > 0,
    ;
    vstd::arithmetic::div_mod::lemma_fundamental_div_mod(up, 2 * b);
    assert(0 <= up % (2 * b) < 2 * b) by {
        vstd::arithmetic::div_mod::lemma_mod_bound(up, 2 * b);
    }
    assert((2 * b) * r == 2 * (b * r)) by (nonlinear_arith);
    vstd::arithmetic::div_mod::lemma_div_pos_is_pos(up, 2 * b);
    if scale.numerator == scale.denominator {
        assert(distance == r) by (nonlinear_arith)
            requires
                2 * (b * r) <= 2 * (distance * b) + b,
                2 * (distance * b) < 2 * (b * r) + b,
                b > 0,
        ;
    }
    assert(b / (2 * b) == 0) by (nonlinear_arith)
        requires
            b > 0,
    ;
    assert(2 * (0 * scale.numerator) + b == b);
}

/// The place of the focused output and of one of a name is that of the first such output, and the
/// number of outputs where there is none.
pub proof fn lemma_first_place(monitors: &Vec<Monitor>, name: &str, focused: usize, named: usize)
    requires
        call_ensures(focused_place, (monitors,), focused),
        call_ensures(named_place, (monitors, name), named),
    ensures
        focused < monitors@.len() ==> monitors@[focused as int].focused,
        forall|i: int| 0 <= i < focused ==> !(#[trigger] monitors@[i]).focused,
        focused <= monitors@.len(),
        named < monitors@.len() ==> monitors@[named as int].name@ == name@,
        forall|i: int| 0 <= i < named ==> (#[trigger] monitors@[i]).name@ != name@,
        named <= monitors@.len(),
{
    lemma_place_from(monitors@, name@, 0);
}

/// The first focused output, and the first of a name, from a place on.
pub proof fn lemma_place_from(monitors: Seq<Monitor>, name: Seq<char>, at: int)
    requires
        0 <= at <= monitors.len(),
    ensures
        at <= focused_from(monitors, at) <= monitors.len(),
        focused_from(monitors, at) < monitors.len() ==> monitors[focused_from(
            monitors,
            at,
        )].focused,
        forall|i: int| at <= i < focused_from(monitors, at) ==> !(#[trigger] monitors[i]).focused,
        at <= named_from(monitors, name, at) <= monitors.len(),
        named_from(monitors, name, at) < monitors.len() ==> monitors[named_from(
            monitors,
            name,
            at,
        )].name@ == name,
        forall|i: int|
            at <= i < named_from(monitors, name, at) ==> (#[trigger] monitors[i]).name@ != name,
    decreases monitors.len() - at,
{
    if at < monitors.len() {
        lemma_place_from(monitors, name, at + 1);
    }
}

} // verus!
