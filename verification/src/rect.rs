//! An axis-aligned rectangle, given by two opposite corners.

use vstd::prelude::*;
use crate::arith::lemma_mul_bound;
use crate::circle::Circle;
use crate::geom::{coord_ok, COORD_LIMIT, PathEl, Point};
use crate::line::Line;
use crate::rounded_rect::RoundedRect;
use crate::shape::Shape;

verus! {

/// An axis-aligned rectangle spanning `(x0, y0)` to `(x1, y1)`. The
/// corners need not be ordered; a rectangle with `x0 > x1` or `y0 > y1`
/// has negative signed area.
#[derive(Clone, Copy, Debug, PartialEq, Eq, Structural)]
pub struct Rect {
    pub x0: i64,
    pub y0: i64,
    pub x1: i64,
    pub y1: i64,
}

/// Does the point lie in the rectangle, boundary included? Meaningful for
/// rectangles with ordered corners, such as bounding boxes.
pub open spec fn pt_in_rect(p: Point, r: Rect) -> bool {
    r.x0 <= p.x <= r.x1 && r.y0 <= p.y <= r.y1
}

/// Does every point the element carries lie in the rectangle?
pub open spec fn el_in_rect(el: PathEl, r: Rect) -> bool {
    match el {
        PathEl::MoveTo(p) => pt_in_rect(p, r),
        PathEl::LineTo(p) => pt_in_rect(p, r),
        PathEl::QuadTo(p1, p2) => pt_in_rect(p1, r) && pt_in_rect(p2, r),
        PathEl::CurveTo(p1, p2, p3) => pt_in_rect(p1, r) && pt_in_rect(p2, r) && pt_in_rect(
            p3,
            r,
        ),
        PathEl::ClosePath => true,
    }
}

impl Rect {
    /// All four coordinates lie within the coordinate domain.
    pub open spec fn wf(self) -> bool {
        coord_ok(self.x0 as int) && coord_ok(self.y0 as int) && coord_ok(self.x1 as int)
            && coord_ok(self.y1 as int)
    }

    /// The corners are ordered: `x0 <= x1` and `y0 <= y1`.
    pub open spec fn sorted(self) -> bool {
        self.x0 <= self.x1 && self.y0 <= self.y1
    }

    pub fn new(x0: i64, y0: i64, x1: i64, y1: i64) -> (r: Rect)
        ensures
            r == (Rect { x0, y0, x1, y1 }),
    {
        Rect { x0, y0, x1, y1 }
    }

    /// The same rectangle with its corners ordered.
    pub open spec fn spec_abs(self) -> Rect {
        Rect {
            x0: if self.x0 <= self.x1 { self.x0 } else { self.x1 },
            y0: if self.y0 <= self.y1 { self.y0 } else { self.y1 },
            x1: if self.x0 <= self.x1 { self.x1 } else { self.x0 },
            y1: if self.y0 <= self.y1 { self.y1 } else { self.y0 },
        }
    }

    /// The same rectangle with its corners ordered.
    pub fn abs(&self) -> (r: Rect)
        ensures
            r == self.spec_abs(),
            r.sorted(),
    {
        Rect {
            x0: if self.x0 <= self.x1 { self.x0 } else { self.x1 },
            y0: if self.y0 <= self.y1 { self.y0 } else { self.y1 },
            x1: if self.x0 <= self.x1 { self.x1 } else { self.x0 },
            y1: if self.y0 <= self.y1 { self.y1 } else { self.y0 },
        }
    }

    /// The signed width, `x1 - x0`.
    pub open spec fn spec_width(self) -> int {
        self.x1 - self.x0
    }

    /// The signed height, `y1 - y0`.
    pub open spec fn spec_height(self) -> int {
        self.y1 - self.y0
    }

    pub fn width(&self) -> (w: i64)
        requires
            self.wf(),
        ensures
            w as int == self.spec_width(),
    {
        self.x1 - self.x0
    }

    pub fn height(&self) -> (h: i64)
        requires
            self.wf(),
        ensures
            h as int == self.spec_height(),
    {
        self.y1 - self.y0
    }

    /// Is the point strictly inside the rectangle?
    pub open spec fn spec_strictly_inside(self, pt: Point) -> bool {
        let a = self.spec_abs();
        a.x0 < pt.x < a.x1 && a.y0 < pt.y < a.y1
    }

    /// The rectangle's outline: a move, three lines and a close, at
    /// every tolerance.
    pub open spec fn spec_elements(self) -> Seq<PathEl> {
        seq![
            PathEl::MoveTo(Point { x: self.x0, y: self.y0 }),
            PathEl::LineTo(Point { x: self.x1, y: self.y0 }),
            PathEl::LineTo(Point { x: self.x1, y: self.y1 }),
            PathEl::LineTo(Point { x: self.x0, y: self.y1 }),
            PathEl::ClosePath,
        ]
    }

    /// The signed area `width * height`.
    pub open spec fn spec_area(self) -> int {
        self.spec_width() * self.spec_height()
    }

    /// Twice the sum of the extents.
    pub open spec fn spec_perimeter(self) -> int {
        let a = self.spec_abs();
        2 * (a.spec_width() + a.spec_height())
    }

    /// The sign of the area for points strictly inside, zero outside.
    pub open spec fn spec_winding(self, pt: Point) -> int {
        if self.spec_strictly_inside(pt) {
            if self.spec_area() > 0 {
                1int
            } else if self.spec_area() < 0 {
                -1int
            } else {
                0int
            }
        } else {
            0int
        }
    }
}

impl Shape for Rect {
    open spec fn wf(&self) -> bool {
        Rect::wf(*self)
    }

    open spec fn elements_spec(&self, tolerance: int) -> Seq<PathEl> {
        self.spec_elements()
    }

    open spec fn is_closed(&self) -> bool {
        true
    }

    /// The signed area `width * height`; negative exactly when one of the
    /// two corner orderings is reversed.
    open spec fn area_spec(&self) -> int {
        self.spec_area()
    }

    /// Twice the sum of the extents, exactly.
    open spec fn perimeter_spec(&self, accuracy: int) -> int {
        self.spec_perimeter()
    }

    /// The sign of the area for points strictly inside, zero outside.
    open spec fn winding_spec(&self, pt: Point) -> int {
        self.spec_winding(pt)
    }

    open spec fn bounding_box_spec(&self) -> Rect {
        self.spec_abs()
    }

    open spec fn as_line_spec(&self) -> Option<Line> {
        None
    }

    open spec fn as_rect_spec(&self) -> Option<Rect> {
        Some(*self)
    }

    open spec fn as_rounded_rect_spec(&self) -> Option<RoundedRect> {
        None
    }

    open spec fn as_circle_spec(&self) -> Option<Circle> {
        None
    }

    open spec fn as_path_slice_spec(&self) -> Option<Seq<PathEl>> {
        None
    }

    proof fn lemma_elements_wf(&self, tolerance: int) {
        assert(self.is_closed());
        assert(self.as_path_slice_spec() is None);
        assert(self.bounding_box_spec().wf());
        let els = self.elements_spec(tolerance);
        assert(els[0] is MoveTo);
        assert(els.last() == PathEl::ClosePath);
        assert(forall|i: int|
            0 <= i < els.len() ==> el_in_rect(#[trigger] els[i], self.bounding_box_spec()));
    }

    proof fn lemma_winding_outside_box(&self, pt: Point) {
        assert(self.spec_strictly_inside(pt) ==> pt_in_rect(pt, self.spec_abs()));
    }

    proof fn lemma_probes_exclusive(&self) {
    }

    proof fn lemma_probes_sound(&self, tolerance: int, accuracy: int, pt: Point) {
        assert(self.as_rect_spec() == Some(*self));
    }

    fn path_elements(&self, tolerance: i64) -> (els: Vec<PathEl>) {
        let mut els: Vec<PathEl> = Vec::new();
        els.push(PathEl::MoveTo(Point { x: self.x0, y: self.y0 }));
        els.push(PathEl::LineTo(Point { x: self.x1, y: self.y0 }));
        els.push(PathEl::LineTo(Point { x: self.x1, y: self.y1 }));
        els.push(PathEl::LineTo(Point { x: self.x0, y: self.y1 }));
        els.push(PathEl::ClosePath);
        proof {
            assert(els@ =~= self.elements_spec(tolerance as int));
        }
        els
    }

    fn area(&self) -> (a: i64) {
        let w = self.x1 - self.x0;
        let h = self.y1 - self.y0;
        proof {
            lemma_mul_bound(w as int, h as int, 2 * COORD_LIMIT as int);
        }
        w * h
    }

    fn perimeter(&self, accuracy: i64) -> (p: i64) {
        let a = self.abs();
        2 * ((a.x1 - a.x0) + (a.y1 - a.y0))
    }

    fn winding(&self, pt: Point) -> (w: i32) {
        let a = self.abs();
        if a.x0 < pt.x && pt.x < a.x1 && a.y0 < pt.y && pt.y < a.y1 {
            let wd = self.x1 - self.x0;
            let ht = self.y1 - self.y0;
            proof {
                lemma_mul_bound(wd as int, ht as int, 2 * COORD_LIMIT as int);
                assert((wd > 0 && ht > 0) ==> wd as int * ht as int > 0) by (nonlinear_arith);
                assert((wd < 0 && ht < 0) ==> wd as int * ht as int > 0) by (nonlinear_arith);
                assert((wd > 0 && ht < 0) ==> (wd as int * ht as int) < 0) by (nonlinear_arith);
                assert((wd < 0 && ht > 0) ==> (wd as int * ht as int) < 0) by (nonlinear_arith);
            }
            if (wd > 0) == (ht > 0) {
                1
            } else {
                -1
            }
        } else {
            0
        }
    }

    fn bounding_box(&self) -> (r: Rect) {
        self.abs()
    }

    fn as_line(&self) -> (r: Option<Line>) {
        None
    }

    fn as_rect(&self) -> (r: Option<Rect>) {
        Some(*self)
    }

    fn as_rounded_rect(&self) -> (r: Option<RoundedRect>) {
        None
    }

    fn as_circle(&self) -> (r: Option<Circle>) {
        None
    }

    fn as_path_slice(&self) -> (r: Option<&[PathEl]>) {
        None
    }
}

/// Law: a retained path tracing a rectangle's outline measures the same
/// signed area as the rectangle itself, even though it no longer answers
/// the rectangle probe: half the shoelace sum over the rectangle's
/// element sequence is exactly `width * height`.
pub proof fn lemma_traced_rect_area(r: Rect, tolerance: int)
    ensures
        crate::geom::half_trunc(
            crate::bez_path::cross_from(
                Shape::elements_spec(&r, tolerance),
                Point { x: 0, y: 0 },
                Point { x: 0, y: 0 },
            ),
        ) == Shape::area_spec(&r),
{
    let o = Point { x: 0, y: 0 };
    let p00 = Point { x: r.x0, y: r.y0 };
    let p10 = Point { x: r.x1, y: r.y0 };
    let p11 = Point { x: r.x1, y: r.y1 };
    let p01 = Point { x: r.x0, y: r.y1 };
    let e = Shape::elements_spec(&r, tolerance);
    let e1 = seq![
        PathEl::LineTo(p10),
        PathEl::LineTo(p11),
        PathEl::LineTo(p01),
        PathEl::ClosePath,
    ];
    let e2 = seq![PathEl::LineTo(p11), PathEl::LineTo(p01), PathEl::ClosePath];
    let e3 = seq![PathEl::LineTo(p01), PathEl::ClosePath];
    let e4 = seq![PathEl::ClosePath];
    let e5 = Seq::<PathEl>::empty();
    assert(e.drop_first() =~= e1);
    assert(e1.drop_first() =~= e2);
    assert(e2.drop_first() =~= e3);
    assert(e3.drop_first() =~= e4);
    assert(e4.drop_first() =~= e5);
    let total = crate::bez_path::cross_from(e, o, o);
    assert(total == crate::bez_path::cross_from(e1, p00, p00));
    assert(crate::bez_path::cross_from(e1, p00, p00) == crate::bez_path::cross(p00, p10)
        + crate::bez_path::cross_from(e2, p00, p10));
    assert(crate::bez_path::cross_from(e2, p00, p10) == crate::bez_path::cross(p10, p11)
        + crate::bez_path::cross_from(e3, p00, p11));
    assert(crate::bez_path::cross_from(e3, p00, p11) == crate::bez_path::cross(p11, p01)
        + crate::bez_path::cross_from(e4, p00, p01));
    assert(crate::bez_path::cross_from(e4, p00, p01) == crate::bez_path::cross(p01, p00)
        + crate::bez_path::cross_from(e5, p00, p00));
    assert(crate::bez_path::cross_from(e5, p00, p00) == 0);
    assert(total == crate::bez_path::cross(p00, p10) + crate::bez_path::cross(p10, p11)
        + crate::bez_path::cross(p11, p01) + crate::bez_path::cross(p01, p00));
    let w = r.spec_width();
    let h = r.spec_height();
    assert(total == 2 * (w * h)) by (nonlinear_arith)
        requires
            total == (r.x0 as int * r.y0 as int - r.x1 as int * r.y0 as int) + (r.x1 as int
                * r.y1 as int - r.x1 as int * r.y0 as int) + (r.x1 as int * r.y1 as int - r.x0 as int
                * r.y1 as int) + (r.x0 as int * r.y0 as int - r.x0 as int * r.y1 as int),
            w == r.x1 as int - r.x0 as int,
            h == r.y1 as int - r.y0 as int,
    ;
    let a = w * h;
    if a >= 0 {
        assert(crate::geom::half_trunc(2 * a) == a);
    } else {
        assert(-(2 * a) == 2 * (-a));
        assert((2 * (-a)) / 2 == -a);
        assert(crate::geom::half_trunc(2 * a) == a);
    }
}

/// Law: a retained path tracing an ordered rectangle's outline assigns
/// winding one to every point strictly inside, just as the rectangle
/// itself does: the crossing rule over the four traced edges counts one
/// upward crossing to the right of the point and nothing else.
pub proof fn lemma_traced_rect_winding(r: Rect, tolerance: int, pt: Point)
    requires
        r.sorted(),
        r.spec_strictly_inside(pt),
    ensures
        crate::bez_path::wind_from(
            Shape::elements_spec(&r, tolerance),
            Point { x: 0, y: 0 },
            Point { x: 0, y: 0 },
            pt,
        ) == 1,
        Shape::winding_spec(&r, pt) == 1,
{
    let o = Point { x: 0, y: 0 };
    let p00 = Point { x: r.x0, y: r.y0 };
    let p10 = Point { x: r.x1, y: r.y0 };
    let p11 = Point { x: r.x1, y: r.y1 };
    let p01 = Point { x: r.x0, y: r.y1 };
    let e = Shape::elements_spec(&r, tolerance);
    let e1 = seq![
        PathEl::LineTo(p10),
        PathEl::LineTo(p11),
        PathEl::LineTo(p01),
        PathEl::ClosePath,
    ];
    let e2 = seq![PathEl::LineTo(p11), PathEl::LineTo(p01), PathEl::ClosePath];
    let e3 = seq![PathEl::LineTo(p01), PathEl::ClosePath];
    let e4 = seq![PathEl::ClosePath];
    let e5 = Seq::<PathEl>::empty();
    assert(e.drop_first() =~= e1);
    assert(e1.drop_first() =~= e2);
    assert(e2.drop_first() =~= e3);
    assert(e3.drop_first() =~= e4);
    assert(e4.drop_first() =~= e5);
    let total = crate::bez_path::wind_from(e, o, o, pt);
    assert(total == crate::bez_path::wind_from(e1, p00, p00, pt));
    assert(crate::bez_path::wind_from(e1, p00, p00, pt) == crate::bez_path::edge_wind(
        p00,
        p10,
        pt,
    ) + crate::bez_path::wind_from(e2, p00, p10, pt));
    assert(crate::bez_path::wind_from(e2, p00, p10, pt) == crate::bez_path::edge_wind(
        p10,
        p11,
        pt,
    ) + crate::bez_path::wind_from(e3, p00, p11, pt));
    assert(crate::bez_path::wind_from(e3, p00, p11, pt) == crate::bez_path::edge_wind(
        p11,
        p01,
        pt,
    ) + crate::bez_path::wind_from(e4, p00, p01, pt));
    assert(crate::bez_path::wind_from(e4, p00, p01, pt) == crate::bez_path::edge_wind(
        p01,
        p00,
        pt,
    ) + crate::bez_path::wind_from(e5, p00, p00, pt));
    assert(crate::bez_path::wind_from(e5, p00, p00, pt) == 0);
    assert(crate::bez_path::edge_wind(p00, p10, pt) == 0);
    assert(crate::bez_path::edge_wind(p11, p01, pt) == 0);
    assert((pt.x as int - r.x1 as int) * (r.y1 as int - r.y0 as int) < 0) by (nonlinear_arith)
        requires pt.x < r.x1 as int && r.y0 < r.y1;
    assert(crate::bez_path::edge_wind(p10, p11, pt) == 1);
    assert((pt.x as int - r.x0 as int) * (r.y0 as int - r.y1 as int) < 0) by (nonlinear_arith)
        requires r.x0 < pt.x as int && r.y0 < r.y1;
    assert(crate::bez_path::edge_wind(p01, p00, pt) == 0);
    let w = r.spec_width();
    let h = r.spec_height();
    assert(w > 0 && h > 0);
    assert(w * h > 0) by (nonlinear_arith)
        requires w > 0 && h > 0;
}

/// Law: a rectangle's winding sign agrees with its area sign. A point
/// strictly inside a rectangle of positive area has winding one; strictly
/// inside a rectangle of negative area, winding minus one.
pub proof fn lemma_rect_winding_matches_area(r: Rect, pt: Point)
    requires
        r.spec_strictly_inside(pt),
    ensures
        r.area_spec() != 0,
        r.area_spec() > 0 ==> Shape::winding_spec(&r, pt) == 1,
        r.area_spec() < 0 ==> Shape::winding_spec(&r, pt) == -1,
{
    let w = r.spec_width();
    let h = r.spec_height();
    assert(w != 0 && h != 0);
    assert((w != 0 && h != 0) ==> w * h != 0) by (nonlinear_arith);
}

} // verus!
