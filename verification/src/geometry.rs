//! Integer points, sizes and rectangles in the logical coordinate space.
//!
//! The types mirror `smithay::utils::{Point, Size, Rectangle}` over `i32`
//! coordinates, and their arithmetic saturates at the bounds of `i32` as
//! smithay's does.

use vstd::prelude::*;

verus! {

/// The value of `v` clamped into the range of `i32`.
pub open spec fn saturate(v: int) -> int {
    if v < i32::MIN {
        i32::MIN as int
    } else if v > i32::MAX {
        i32::MAX as int
    } else {
        v
    }
}

/// The smaller of two integers.
pub open spec fn min_int(a: int, b: int) -> int {
    if a <= b {
        a
    } else {
        b
    }
}

/// The larger of two integers.
pub open spec fn max_int(a: int, b: int) -> int {
    if a >= b {
        a
    } else {
        b
    }
}

/// Saturating addition on `i32`.
pub fn saturating_add(a: i32, b: i32) -> (r: i32)
    ensures
        r == saturate(a + b),
{
    let wide: i64 = a as i64 + b as i64;
    if wide > i32::MAX as i64 {
        i32::MAX
    } else if wide < i32::MIN as i64 {
        i32::MIN
    } else {
        wide as i32
    }
}

/// Saturating subtraction on `i32`.
pub fn saturating_sub(a: i32, b: i32) -> (r: i32)
    ensures
        r == saturate(a - b),
{
    let wide: i64 = a as i64 - b as i64;
    if wide > i32::MAX as i64 {
        i32::MAX
    } else if wide < i32::MIN as i64 {
        i32::MIN
    } else {
        wide as i32
    }
}

/// The smaller of two coordinates.
pub fn min(a: i32, b: i32) -> (r: i32)
    ensures
        r == min_int(a as int, b as int),
{
    if a <= b {
        a
    } else {
        b
    }
}

/// The larger of two coordinates.
pub fn max(a: i32, b: i32) -> (r: i32)
    ensures
        r == max_int(a as int, b as int),
{
    if a >= b {
        a
    } else {
        b
    }
}

/// A point, by its horizontal and vertical coordinates.
#[derive(Clone, Copy, Debug, PartialEq, Eq, Structural)]
pub struct Point {
    pub x: i32,
    pub y: i32,
}

impl Point {
    /// The component-wise sum, saturated.
    pub open spec fn spec_add(self, other: Point) -> Point {
        Point { x: saturate(self.x + other.x) as i32, y: saturate(self.y + other.y) as i32 }
    }

    /// The component-wise difference, saturated.
    pub open spec fn spec_sub(self, other: Point) -> Point {
        Point { x: saturate(self.x - other.x) as i32, y: saturate(self.y - other.y) as i32 }
    }

    /// The point at `(x, y)`.
    pub fn new(x: i32, y: i32) -> (p: Point)
        ensures
            p == (Point { x, y }),
    {
        Point { x, y }
    }

    /// Component-wise saturating sum.
    pub fn add(self, other: Point) -> (p: Point)
        ensures
            p == self.spec_add(other),
    {
        Point { x: saturating_add(self.x, other.x), y: saturating_add(self.y, other.y) }
    }

    /// Component-wise saturating difference.
    pub fn sub(self, other: Point) -> (p: Point)
        ensures
            p == self.spec_sub(other),
    {
        Point { x: saturating_sub(self.x, other.x), y: saturating_sub(self.y, other.y) }
    }
}

/// A width and a height.
#[derive(Clone, Copy, Debug, PartialEq, Eq, Structural)]
pub struct Size {
    pub w: i32,
    pub h: i32,
}

/// An axis-aligned rectangle, by its top-left corner and its dimensions.
#[derive(Clone, Copy, Debug, PartialEq, Eq, Structural)]
pub struct Rect {
    pub loc: Point,
    pub size: Size,
}

impl Rect {
    /// Neither dimension is negative.
    pub open spec fn wf(self) -> bool {
        self.size.w >= 0 && self.size.h >= 0
    }

    /// Both dimensions are positive.
    pub open spec fn non_degenerate(self) -> bool {
        self.size.w > 0 && self.size.h > 0
    }

    /// The horizontal coordinate just past the right edge, saturated.
    pub open spec fn right(self) -> int {
        saturate(self.loc.x + self.size.w)
    }

    /// The vertical coordinate just past the bottom edge, saturated.
    pub open spec fn bottom(self) -> int {
        saturate(self.loc.y + self.size.h)
    }

    /// `p` lies inside the rectangle: edges on the left and top are inside,
    /// edges on the right and bottom are not.
    pub open spec fn spec_contains(self, p: Point) -> bool {
        self.loc.x <= p.x < self.right() && self.loc.y <= p.y < self.bottom()
    }

    /// The two rectangles share an area; touching edges do not count.
    pub open spec fn spec_overlaps(self, other: Rect) -> bool {
        &&& self.loc.x < other.right()
        &&& other.loc.x < self.right()
        &&& self.loc.y < other.bottom()
        &&& other.loc.y < self.bottom()
    }

    /// The area common to both rectangles, where they overlap.
    pub open spec fn spec_intersection(self, other: Rect) -> Option<Rect> {
        if self.spec_overlaps(other) {
            let x = max_int(self.loc.x as int, other.loc.x as int);
            let y = max_int(self.loc.y as int, other.loc.y as int);
            Some(
                Rect {
                    loc: Point { x: x as i32, y: y as i32 },
                    size: Size {
                        w: saturate(min_int(self.right(), other.right()) - x) as i32,
                        h: saturate(min_int(self.bottom(), other.bottom()) - y) as i32,
                    },
                },
            )
        } else {
            None
        }
    }

    /// The smallest rectangle that contains both.
    pub open spec fn spec_merge(self, other: Rect) -> Rect {
        let x = min_int(self.loc.x as int, other.loc.x as int);
        let y = min_int(self.loc.y as int, other.loc.y as int);
        Rect {
            loc: Point { x: x as i32, y: y as i32 },
            size: Size {
                w: saturate(max_int(self.right(), other.right()) - x) as i32,
                h: saturate(max_int(self.bottom(), other.bottom()) - y) as i32,
            },
        }
    }

    /// The rectangle moved so that its corner is `self.loc - by`, saturating.
    pub open spec fn spec_translate_back(self, by: Point) -> Rect {
        Rect { loc: self.loc.spec_sub(by), size: self.size }
    }

    /// The corner and the dimensions, in that order.
    pub open spec fn spec_to_tuple(self) -> (i32, i32, i32, i32) {
        (self.loc.x, self.loc.y, self.size.w, self.size.h)
    }

    /// The rectangle with the corner and the dimensions of `t`.
    pub open spec fn spec_from_tuple(t: (i32, i32, i32, i32)) -> Rect {
        Rect { loc: Point { x: t.0, y: t.1 }, size: Size { w: t.2, h: t.3 } }
    }

    /// The corner and the dimensions, in that order.
    pub fn to_tuple(&self) -> (t: (i32, i32, i32, i32))
        ensures
            t == self.spec_to_tuple(),
    {
        (self.loc.x, self.loc.y, self.size.w, self.size.h)
    }

    /// The rectangle with the corner and the dimensions of `t`.
    pub fn from_tuple(t: (i32, i32, i32, i32)) -> (r: Rect)
        ensures
            r == Rect::spec_from_tuple(t),
    {
        Rect { loc: Point { x: t.0, y: t.1 }, size: Size { w: t.2, h: t.3 } }
    }

    /// The rectangle with its corner at `(x, y)`, `w` wide and `h` high.
    pub fn new(x: i32, y: i32, w: i32, h: i32) -> (r: Rect)
        ensures
            r == (Rect { loc: Point { x, y }, size: Size { w, h } }),
    {
        Rect { loc: Point { x, y }, size: Size { w, h } }
    }

    /// Whether neither dimension is negative.
    pub fn is_wf(&self) -> (b: bool)
        ensures
            b == self.wf(),
    {
        self.size.w >= 0 && self.size.h >= 0
    }

    /// Whether `p` lies inside the rectangle.
    pub fn contains(&self, p: Point) -> (b: bool)
        ensures
            b == self.spec_contains(p),
    {
        self.loc.x <= p.x && p.x < saturating_add(self.loc.x, self.size.w) && self.loc.y <= p.y && p.y
            < saturating_add(self.loc.y, self.size.h)
    }

    /// The area common to both rectangles, `None` where they do not overlap.
    pub fn intersection(&self, other: Rect) -> (r: Option<Rect>)
        ensures
            r == self.spec_intersection(other),
            r is Some <==> self.spec_overlaps(other),
            self.wf() && other.wf() ==> (r matches Some(i) ==> i.wf()),
    {
        let right = saturating_add(self.loc.x, self.size.w);
        let bottom = saturating_add(self.loc.y, self.size.h);
        let other_right = saturating_add(other.loc.x, other.size.w);
        let other_bottom = saturating_add(other.loc.y, other.size.h);
        if !(self.loc.x < other_right && other.loc.x < right && self.loc.y < other_bottom && other.loc.y
            < bottom) {
            return None;
        }
        let x = max(self.loc.x, other.loc.x);
        let y = max(self.loc.y, other.loc.y);
        Some(
            Rect {
                loc: Point { x, y },
                size: Size {
                    w: saturating_sub(min(right, other_right), x),
                    h: saturating_sub(min(bottom, other_bottom), y),
                },
            },
        )
    }

    /// The smallest rectangle that contains both.
    pub fn merge(&self, other: Rect) -> (r: Rect)
        ensures
            r == self.spec_merge(other),
            self.wf() && other.wf() ==> r.wf(),
    {
        let x = min(self.loc.x, other.loc.x);
        let y = min(self.loc.y, other.loc.y);
        let right = max(saturating_add(self.loc.x, self.size.w), saturating_add(other.loc.x, other.size.w));
        let bottom = max(saturating_add(self.loc.y, self.size.h), saturating_add(other.loc.y, other.size.h));
        Rect { loc: Point { x, y }, size: Size { w: saturating_sub(right, x), h: saturating_sub(bottom, y) } }
    }

    /// The rectangle with `by` subtracted from its corner, saturating.
    pub fn translate_back(&self, by: Point) -> (r: Rect)
        ensures
            r == self.spec_translate_back(by),
            self.wf() ==> r.wf(),
    {
        Rect { loc: self.loc.sub(by), size: self.size }
    }
}

} // verus!
