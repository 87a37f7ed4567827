//! Points, path elements and path segments: the vocabulary every shape
//! produces when converted to a Bézier outline.

use vstd::prelude::*;

verus! {

/// Largest coordinate magnitude the library accepts. Keeping coordinates
/// within this bound lets every product of two coordinates, and every sum
/// of such products over a path, fit comfortably in an `i64`.
pub const COORD_LIMIT: i64 = 1048576;

/// Largest number of elements a retained path may hold.
pub const MAX_ELS: usize = 65536;

/// Does a coordinate lie within the library's coordinate domain?
pub open spec fn coord_ok(c: int) -> bool {
    -COORD_LIMIT <= c <= COORD_LIMIT
}

/// A point on the integer grid.
#[derive(Clone, Copy, Debug, PartialEq, Eq, Structural)]
pub struct Point {
    pub x: i64,
    pub y: i64,
}

impl Point {
    /// Both coordinates lie within the coordinate domain.
    pub open spec fn wf(self) -> bool {
        coord_ok(self.x as int) && coord_ok(self.y as int)
    }

    pub fn new(x: i64, y: i64) -> (p: Point)
        ensures
            p.x == x,
            p.y == y,
    {
        Point { x, y }
    }
}

/// Half of an integer, rounded toward zero (the rounding Rust's `/`
/// performs on signed integers).
pub open spec fn half_trunc(n: int) -> int {
    if n >= 0 { n / 2 } else { -((-n) / 2) }
}

/// The midpoint of two points, each coordinate rounded toward zero.
pub open spec fn spec_midpoint(a: Point, b: Point) -> Point {
    Point { x: half_trunc(a.x + b.x) as i64, y: half_trunc(a.y + b.y) as i64 }
}

/// Rounding toward zero keeps a midpoint coordinate between its
/// endpoints' bounds.
pub proof fn lemma_mid_between(lo: int, hi: int, a: int, b: int)
    requires
        lo <= a <= hi,
        lo <= b <= hi,
    ensures
        lo <= half_trunc(a + b) <= hi,
{
    assert(2 * lo <= a + b <= 2 * hi);
    if a + b >= 0 {
        assert(lo <= half_trunc(a + b) <= hi) by (nonlinear_arith)
            requires 2 * lo <= a + b <= 2 * hi && a + b >= 0;
    } else {
        assert(lo <= half_trunc(a + b) <= hi) by (nonlinear_arith)
            requires 2 * lo <= a + b <= 2 * hi && a + b < 0;
    }
}

/// Half of a bounded `i64`, rounded toward zero.
fn half(n: i64) -> (r: i64)
    requires
        -4 * COORD_LIMIT <= n <= 4 * COORD_LIMIT,
    ensures
        r as int == half_trunc(n as int),
{
    if n >= 0 { n / 2 } else { -((-n) / 2) }
}

pub fn midpoint(a: Point, b: Point) -> (m: Point)
    requires
        a.wf(),
        b.wf(),
    ensures
        m == spec_midpoint(a, b),
        m.wf(),
{
    proof {
        lemma_mid_between(-COORD_LIMIT as int, COORD_LIMIT as int, a.x as int, b.x as int);
        lemma_mid_between(-COORD_LIMIT as int, COORD_LIMIT as int, a.y as int, b.y as int);
    }
    Point { x: half(a.x + b.x), y: half(a.y + b.y) }
}

/// One instruction in a Bézier outline.
#[derive(Clone, Copy, Debug, PartialEq, Eq, Structural)]
pub enum PathEl {
    /// Start a new subpath at the point.
    MoveTo(Point),
    /// Draw a line to the point.
    LineTo(Point),
    /// Draw a quadratic Bézier with the given control point and end point.
    QuadTo(Point, Point),
    /// Draw a cubic Bézier with the given control points and end point.
    CurveTo(Point, Point, Point),
    /// Close the current subpath, returning to its start.
    ClosePath,
}

impl PathEl {
    /// Every point the element carries lies within the coordinate domain.
    pub open spec fn wf(self) -> bool {
        match self {
            PathEl::MoveTo(p) => p.wf(),
            PathEl::LineTo(p) => p.wf(),
            PathEl::QuadTo(p1, p2) => p1.wf() && p2.wf(),
            PathEl::CurveTo(p1, p2, p3) => p1.wf() && p2.wf() && p3.wf(),
            PathEl::ClosePath => true,
        }
    }
}

/// One resolved curve of an outline: a maximal-run grouping of elements
/// carries its start point explicitly.
#[derive(Clone, Copy, Debug, PartialEq, Eq, Structural)]
pub enum PathSeg {
    /// A line from the first point to the second.
    Line(Point, Point),
    /// A quadratic Bézier: start, control, end.
    Quad(Point, Point, Point),
    /// A cubic Bézier: start, two controls, end.
    Cubic(Point, Point, Point, Point),
}

} // verus!
