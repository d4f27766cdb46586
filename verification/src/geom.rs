//! Geometric primitives over fixed-point scalars.
//!
//! Every length is an `i64` counting thousandths of a pixel (milli-units);
//! [`SCALE`] milli-units make one pixel.  Rounding a milli-unit value to a
//! whole pixel rounds to the nearest integer, ties upward.

use vstd::prelude::*;

verus! {

/// Milli-units per pixel.
pub const SCALE: i64 = 1000;

/// Magnitude bound on coordinates: every geometric quantity the library
/// computes with stays within this many milli-units of zero.
pub const COORD_BOUND: i64 = 1_000_000_000_000_000;

/// Absolute value.
pub open spec fn abs_i(x: int) -> int {
    if x < 0 {
        -x
    } else {
        x
    }
}

/// Flooring division (the mathematical quotient for a positive divisor).
pub open spec fn spec_floor_div(n: int, d: int) -> int {
    n / d
}

/// Division rounded to the nearest integer, ties upward; `d` must be positive.
pub open spec fn spec_round_div(n: int, d: int) -> int {
    (2 * n + d) / (2 * d)
}

/// A milli-unit length rounded to the nearest whole pixel.
pub open spec fn spec_milli_to_px(v: int) -> int {
    spec_round_div(v, SCALE as int)
}

/// Flooring division on machine integers.
pub fn floor_div(n: i64, d: i64) -> (q: i64)
    requires
        d > 0,
        -0x2000_0000_0000_0000 <= n <= 0x2000_0000_0000_0000,
    ensures
        q == spec_floor_div(n as int, d as int),
{
    if n >= 0 {
        let nn: u64 = n as u64;
        let dd: u64 = d as u64;
        let qq: u64 = nn / dd;
        qq as i64
    } else {
        let m: u64 = (-n) as u64;
        let dd: u64 = d as u64;
        let q0: u64 = m / dd;
        let r0: u64 = m % dd;
        proof {
            vstd::arithmetic::div_mod::lemma_fundamental_div_mod(m as int, dd as int);
            if r0 == 0 {
                assert(n as int == (-(q0 as int)) * (d as int) + 0) by (nonlinear_arith)
                    requires
                        n as int == -(m as int),
                        m as int == (d as int) * (q0 as int) + (r0 as int),
                        r0 == 0,
                ;
                vstd::arithmetic::div_mod::lemma_fundamental_div_mod_converse(
                    n as int, d as int, -(q0 as int), 0);
            } else {
                assert(n as int == (-(q0 as int) - 1) * (d as int) + ((d as int) - (r0 as int)))
                    by (nonlinear_arith)
                    requires
                        n as int == -(m as int),
                        m as int == (d as int) * (q0 as int) + (r0 as int),
                ;
                vstd::arithmetic::div_mod::lemma_fundamental_div_mod_converse(
                    n as int, d as int, -(q0 as int) - 1, d as int - r0 as int);
            }
        }
        if r0 == 0 {
            -(q0 as i64)
        } else {
            -(q0 as i64) - 1
        }
    }
}

/// Division rounded to the nearest integer, ties upward.
pub fn round_div(n: i64, d: i64) -> (q: i64)
    requires
        d > 0,
        d <= 0x1000_0000,
        -0x0800_0000_0000_0000 <= n <= 0x0800_0000_0000_0000,
    ensures
        q == spec_round_div(n as int, d as int),
{
    floor_div(2 * n + d, 2 * d)
}

/// Rounds a milli-unit length to the nearest whole pixel, ties upward.
pub fn milli_to_px(v: i64) -> (px: i64)
    requires
        -0x0800_0000_0000_0000 <= v <= 0x0800_0000_0000_0000,
    ensures
        px == spec_milli_to_px(v as int),
{
    round_div(v, SCALE)
}

/// A point, in milli-units.
#[derive(Clone, Copy, Debug, PartialEq, Eq, Structural)]
pub struct Point {
    pub x: i64,
    pub y: i64,
}

impl Point {
    /// Builds a point.
    pub fn new(x: i64, y: i64) -> (p: Point)
        ensures
            p == (Point { x, y }),
    {
        Point { x, y }
    }

    /// The origin.
    pub fn zero() -> (p: Point)
        ensures
            p == (Point { x: 0, y: 0 }),
    {
        Point { x: 0, y: 0 }
    }

    /// Translates the point by `(dx, dy)`.
    pub fn translate(&self, dx: i64, dy: i64) -> (p: Point)
        requires
            abs_i(self.x as int) + abs_i(dx as int) <= COORD_BOUND,
            abs_i(self.y as int) + abs_i(dy as int) <= COORD_BOUND,
        ensures
            p == (Point { x: (self.x + dx) as i64, y: (self.y + dy) as i64 }),
    {
        Point { x: self.x + dx, y: self.y + dy }
    }
}

/// A size, in milli-units.  Sizes are never negative: the constructor clamps.
#[derive(Clone, Copy, Debug, PartialEq, Eq, Structural)]
pub struct Size {
    pub width: i64,
    pub height: i64,
}

impl Size {
    /// Builds a size, clamping negative lengths to zero.
    pub fn new(width: i64, height: i64) -> (s: Size)
        ensures
            s.width == if width >= 0 { width as int } else { 0int },
            s.height == if height >= 0 { height as int } else { 0int },
            s.width >= 0 && s.height >= 0,
    {
        Size {
            width: if width >= 0 { width } else { 0 },
            height: if height >= 0 { height } else { 0 },
        }
    }

    /// The empty size.
    pub fn zero() -> (s: Size)
        ensures
            s == (Size { width: 0, height: 0 }),
    {
        Size { width: 0, height: 0 }
    }

    /// Whether the size spans no area.
    pub fn is_empty(&self) -> (b: bool)
        ensures
            b == (self.width <= 0 || self.height <= 0),
    {
        self.width <= 0 || self.height <= 0
    }
}

/// An axis-aligned rectangle, in milli-units.
#[derive(Clone, Copy, Debug, PartialEq, Eq, Structural)]
pub struct Rect {
    pub x: i64,
    pub y: i64,
    pub width: i64,
    pub height: i64,
}

/// Whether a rectangle's coordinates stay within the library's working range.
pub open spec fn rect_wf(r: Rect) -> bool {
    &&& abs_i(r.x as int) <= COORD_BOUND
    &&& abs_i(r.y as int) <= COORD_BOUND
    &&& 0 <= r.width <= COORD_BOUND
    &&& 0 <= r.height <= COORD_BOUND
}

impl Rect {
    /// Builds a rectangle.
    pub fn new(x: i64, y: i64, width: i64, height: i64) -> (r: Rect)
        ensures
            r == (Rect { x, y, width, height }),
    {
        Rect { x, y, width, height }
    }

    /// The empty rectangle at the origin.
    pub fn zero() -> (r: Rect)
        ensures
            r == (Rect { x: 0, y: 0, width: 0, height: 0 }),
    {
        Rect { x: 0, y: 0, width: 0, height: 0 }
    }

    /// A rectangle of the given size at the origin.
    pub fn from_size(size: Size) -> (r: Rect)
        ensures
            r == (Rect { x: 0, y: 0, width: size.width, height: size.height }),
    {
        Rect { x: 0, y: 0, width: size.width, height: size.height }
    }

    /// A rectangle at `point` of the given size.
    pub fn from_point_size(point: Point, size: Size) -> (r: Rect)
        ensures
            r == (Rect { x: point.x, y: point.y, width: size.width, height: size.height }),
    {
        Rect { x: point.x, y: point.y, width: size.width, height: size.height }
    }

    /// The left edge.
    pub fn left(&self) -> (v: i64)
        ensures
            v == self.x,
    {
        self.x
    }

    /// The top edge.
    pub fn top(&self) -> (v: i64)
        ensures
            v == self.y,
    {
        self.y
    }

    /// The right edge.
    pub fn right(&self) -> (v: i64)
        requires
            rect_wf(*self),
        ensures
            v == self.x + self.width,
    {
        self.x + self.width
    }

    /// The bottom edge.
    pub fn bottom(&self) -> (v: i64)
        requires
            rect_wf(*self),
        ensures
            v == self.y + self.height,
    {
        self.y + self.height
    }

    /// The rectangle's size.
    pub fn size(&self) -> (s: Size)
        ensures
            s == (Size { width: self.width, height: self.height }),
    {
        Size { width: self.width, height: self.height }
    }

    /// The rectangle's top-left corner.
    pub fn origin(&self) -> (p: Point)
        ensures
            p == (Point { x: self.x, y: self.y }),
    {
        Point { x: self.x, y: self.y }
    }

    /// The rectangle's center, coordinates rounded downward.
    pub fn center(&self) -> (p: Point)
        requires
            rect_wf(*self),
        ensures
            p.x == self.x + self.width / 2,
            p.y == self.y + self.height / 2,
    {
        Point { x: self.x + self.width / 2, y: self.y + self.height / 2 }
    }

    /// Whether the point lies in the rectangle (edges included).
    pub fn contains_point(&self, point: Point) -> (b: bool)
        requires
            rect_wf(*self),
        ensures
            b == (self.x <= point.x <= self.x + self.width && self.y <= point.y <= self.y
                + self.height),
    {
        point.x >= self.x && point.x <= self.x + self.width && point.y >= self.y && point.y
            <= self.y + self.height
    }

    /// Whether the rectangle spans no area.
    pub fn is_empty(&self) -> (b: bool)
        ensures
            b == (self.width <= 0 || self.height <= 0),
    {
        self.width <= 0 || self.height <= 0
    }

    /// Whether the two rectangles overlap in a region of positive area.
    pub fn intersects(&self, other: &Rect) -> (b: bool)
        requires
            rect_wf(*self),
            rect_wf(*other),
        ensures
            b == (self.x < other.x + other.width && self.x + self.width > other.x && self.y
                < other.y + other.height && self.y + self.height > other.y),
    {
        self.x < other.x + other.width && self.x + self.width > other.x && self.y < other.y
            + other.height && self.y + self.height > other.y
    }

    /// The overlap of two rectangles, or `None` when they do not overlap.
    pub fn intersection(&self, other: &Rect) -> (r: Option<Rect>)
        requires
            rect_wf(*self),
            rect_wf(*other),
        ensures
            match r {
                Some(q) => {
                    &&& q.x == if self.x >= other.x { self.x as int } else { other.x as int }
                    &&& q.y == if self.y >= other.y { self.y as int } else { other.y as int }
                    &&& q.x + q.width == if self.x + self.width <= other.x + other.width {
                        self.x + self.width
                    } else {
                        other.x + other.width
                    }
                    &&& q.y + q.height == if self.y + self.height <= other.y + other.height {
                        self.y + self.height
                    } else {
                        other.y + other.height
                    }
                },
                None => !(self.x < other.x + other.width && self.x + self.width > other.x && self.y
                    < other.y + other.height && self.y + self.height > other.y),
            },
    {
        if !self.intersects(other) {
            return None;
        }
        let left: i64 = if self.x >= other.x { self.x } else { other.x };
        let top: i64 = if self.y >= other.y { self.y } else { other.y };
        let right: i64 = if self.x + self.width <= other.x + other.width {
            self.x + self.width
        } else {
            other.x + other.width
        };
        let bottom: i64 = if self.y + self.height <= other.y + other.height {
            self.y + self.height
        } else {
            other.y + other.height
        };
        Some(Rect { x: left, y: top, width: right - left, height: bottom - top })
    }

    /// The smallest rectangle containing both rectangles.
    pub fn union(&self, other: &Rect) -> (r: Rect)
        requires
            rect_wf(*self),
            rect_wf(*other),
        ensures
            r.x == if self.x <= other.x { self.x as int } else { other.x as int },
            r.y == if self.y <= other.y { self.y as int } else { other.y as int },
            r.x + r.width == if self.x + self.width >= other.x + other.width {
                self.x + self.width
            } else {
                other.x + other.width
            },
            r.y + r.height == if self.y + self.height >= other.y + other.height {
                self.y + self.height
            } else {
                other.y + other.height
            },
    {
        let left: i64 = if self.x <= other.x { self.x } else { other.x };
        let top: i64 = if self.y <= other.y { self.y } else { other.y };
        let right: i64 = if self.x + self.width >= other.x + other.width {
            self.x + self.width
        } else {
            other.x + other.width
        };
        let bottom: i64 = if self.y + self.height >= other.y + other.height {
            self.y + self.height
        } else {
            other.y + other.height
        };
        Rect { x: left, y: top, width: right - left, height: bottom - top }
    }

    /// Translates the rectangle by `(dx, dy)`.
    pub fn translate(&self, dx: i64, dy: i64) -> (r: Rect)
        requires
            rect_wf(*self),
            abs_i(dx as int) <= COORD_BOUND,
            abs_i(dy as int) <= COORD_BOUND,
        ensures
            r.x == self.x + dx,
            r.y == self.y + dy,
            r.width == self.width,
            r.height == self.height,
    {
        Rect { x: self.x + dx, y: self.y + dy, width: self.width, height: self.height }
    }
}

/// Interior padding, in milli-units.
#[derive(Clone, Copy, Debug, PartialEq, Eq, Structural)]
pub struct Padding {
    pub top: i64,
    pub bottom: i64,
    pub left: i64,
    pub right: i64,
}

impl Padding {
    /// The same padding on all four sides.
    pub fn all(value: i64) -> (p: Padding)
        ensures
            p == (Padding { top: value, bottom: value, left: value, right: value }),
    {
        Padding { top: value, bottom: value, left: value, right: value }
    }

    /// Vertical and horizontal padding.
    pub fn symmetric(vertical: i64, horizontal: i64) -> (p: Padding)
        ensures
            p == (Padding { top: vertical, bottom: vertical, left: horizontal, right: horizontal }),
    {
        Padding { top: vertical, bottom: vertical, left: horizontal, right: horizontal }
    }
}

/// Edge insets, in milli-units.
#[derive(Clone, Copy, Debug, PartialEq, Eq, Structural)]
pub struct EdgeInsets {
    pub top: i64,
    pub right: i64,
    pub bottom: i64,
    pub left: i64,
}

/// Whether the insets stay within the library's working range.
pub open spec fn insets_wf(e: EdgeInsets) -> bool {
    &&& abs_i(e.top as int) <= COORD_BOUND
    &&& abs_i(e.right as int) <= COORD_BOUND
    &&& abs_i(e.bottom as int) <= COORD_BOUND
    &&& abs_i(e.left as int) <= COORD_BOUND
}

impl EdgeInsets {
    /// Builds insets from the four sides.
    pub fn new(top: i64, right: i64, bottom: i64, left: i64) -> (e: EdgeInsets)
        ensures
            e == (EdgeInsets { top, right, bottom, left }),
    {
        EdgeInsets { top, right, bottom, left }
    }

    /// The same inset on all four sides.
    pub fn all(value: i64) -> (e: EdgeInsets)
        ensures
            e == (EdgeInsets { top: value, right: value, bottom: value, left: value }),
    {
        EdgeInsets { top: value, right: value, bottom: value, left: value }
    }

    /// Vertical and horizontal insets.
    pub fn symmetric(vertical: i64, horizontal: i64) -> (e: EdgeInsets)
        ensures
            e == (EdgeInsets { top: vertical, right: horizontal, bottom: vertical, left: horizontal }),
    {
        EdgeInsets { top: vertical, right: horizontal, bottom: vertical, left: horizontal }
    }

    /// No insets.
    pub fn zero() -> (e: EdgeInsets)
        ensures
            e == (EdgeInsets { top: 0, right: 0, bottom: 0, left: 0 }),
    {
        EdgeInsets { top: 0, right: 0, bottom: 0, left: 0 }
    }

    /// The sum of the left and right insets.
    pub fn horizontal(&self) -> (v: i64)
        requires
            insets_wf(*self),
        ensures
            v == self.left + self.right,
    {
        self.left + self.right
    }

    /// The sum of the top and bottom insets.
    pub fn vertical(&self) -> (v: i64)
        requires
            insets_wf(*self),
        ensures
            v == self.top + self.bottom,
    {
        self.top + self.bottom
    }

    /// Shrinks a rectangle by the insets, clamping the size at zero.
    pub fn apply_to_rect(&self, rect: &Rect) -> (r: Rect)
        requires
            insets_wf(*self),
            rect_wf(*rect),
        ensures
            r.x == rect.x + self.left,
            r.y == rect.y + self.top,
            r.width == if rect.width - self.left - self.right >= 0 {
                rect.width - self.left - self.right
            } else {
                0int
            },
            r.height == if rect.height - self.top - self.bottom >= 0 {
                rect.height - self.top - self.bottom
            } else {
                0int
            },
    {
        let w: i64 = rect.width - self.left - self.right;
        let h: i64 = rect.height - self.top - self.bottom;
        Rect {
            x: rect.x + self.left,
            y: rect.y + self.top,
            width: if w >= 0 { w } else { 0 },
            height: if h >= 0 { h } else { 0 },
        }
    }

    /// Grows a rectangle by the insets.
    pub fn expand_rect(&self, rect: &Rect) -> (r: Rect)
        requires
            insets_wf(*self),
            rect_wf(*rect),
        ensures
            r.x == rect.x - self.left,
            r.y == rect.y - self.top,
            r.width == rect.width + self.left + self.right,
            r.height == rect.height + self.top + self.bottom,
    {
        Rect {
            x: rect.x - self.left,
            y: rect.y - self.top,
            width: rect.width + self.left + self.right,
            height: rect.height + self.top + self.bottom,
        }
    }
}

impl Default for EdgeInsets {
    /// The default insets are zero on every side.
    fn default() -> (e: EdgeInsets)
        ensures
            e == (EdgeInsets { top: 0, right: 0, bottom: 0, left: 0 }),
    {
        EdgeInsets { top: 0, right: 0, bottom: 0, left: 0 }
    }
}

/// A length given in pixels, as a fraction of a container, or left automatic.
#[derive(Clone, Copy, Debug, PartialEq, Eq, Structural)]
pub enum Unit {
    /// An absolute length in milli-units.
    Px(i64),
    /// A fraction of the containing length, in per-mille (500 is one half).
    Percent(i64),
    /// Resolved later by layout.
    Auto,
}

impl Unit {
    /// Resolves the unit against a containing length (milli-units).
    /// `Auto` resolves to zero; layout handles it separately.
    pub fn to_pixels(&self, container_size: i64) -> (v: i64)
        requires
            0 <= container_size <= 1_000_000_000_000,
            self matches Unit::Percent(p) ==> abs_i(p as int) <= 1_000_000,
        ensures
            v == match *self {
                Unit::Px(px) => px as int,
                Unit::Percent(p) => spec_floor_div(container_size * p, SCALE as int),
                Unit::Auto => 0int,
            },
    {
        match self {
            Unit::Px(px) => *px,
            Unit::Percent(p) => {
                proof {
                    assert(container_size * *p <= 0x2000_0000_0000_0000 && container_size * *p
                        >= -0x2000_0000_0000_0000) by (nonlinear_arith)
                        requires
                            0 <= container_size <= 1_000_000_000_000,
                            abs_i(*p as int) <= 1_000_000,
                    ;
                }
                floor_div(container_size * *p, SCALE)
            },
            Unit::Auto => 0,
        }
    }
}

} // verus!
