//! An open line between two points.

use vstd::prelude::*;
use crate::arith::{isqrt, lemma_mul_bound, sqrt_floor};
use crate::circle::Circle;
use crate::geom::{COORD_LIMIT, PathEl, Point};
use crate::rect::{el_in_rect, Rect};
use crate::rounded_rect::RoundedRect;
use crate::shape::Shape;

verus! {

/// A single open line from `p0` to `p1`.
#[derive(Clone, Copy, Debug, PartialEq, Eq, Structural)]
pub struct Line {
    pub p0: Point,
    pub p1: Point,
}

impl Line {
    /// Both endpoints lie within the coordinate domain.
    pub open spec fn wf(self) -> bool {
        self.p0.wf() && self.p1.wf()
    }

    pub fn new(p0: Point, p1: Point) -> (l: Line)
        ensures
            l == (Line { p0, p1 }),
    {
        Line { p0, p1 }
    }

    /// The squared distance between the endpoints.
    pub open spec fn spec_len_sq(self) -> int {
        (self.p1.x - self.p0.x) * (self.p1.x - self.p0.x) + (self.p1.y - self.p0.y) * (self.p1.y
            - self.p0.y)
    }

    /// The line's outline: a move to the first endpoint and a line to
    /// the second, at every tolerance.
    pub open spec fn spec_elements(self) -> Seq<PathEl> {
        seq![PathEl::MoveTo(self.p0), PathEl::LineTo(self.p1)]
    }

    /// The exact Euclidean length, rounded down.
    pub open spec fn spec_perimeter(self) -> int {
        sqrt_floor(self.spec_len_sq())
    }

    /// The smallest rectangle holding both endpoints.
    pub open spec fn spec_bbox(self) -> Rect {
        (Rect { x0: self.p0.x, y0: self.p0.y, x1: self.p1.x, y1: self.p1.y }).spec_abs()
    }
}

impl Shape for Line {
    open spec fn wf(&self) -> bool {
        Line::wf(*self)
    }

    open spec fn elements_spec(&self, tolerance: int) -> Seq<PathEl> {
        self.spec_elements()
    }

    open spec fn is_closed(&self) -> bool {
        false
    }

    /// A line is open; its area is unreliable and fixed at zero here.
    open spec fn area_spec(&self) -> int {
        0
    }

    /// The exact Euclidean length, rounded down.
    open spec fn perimeter_spec(&self, accuracy: int) -> int {
        self.spec_perimeter()
    }

    /// A line is open; its winding is unreliable and fixed at zero here.
    open spec fn winding_spec(&self, pt: Point) -> int {
        0
    }

    open spec fn bounding_box_spec(&self) -> Rect {
        self.spec_bbox()
    }

    open spec fn as_line_spec(&self) -> Option<Line> {
        Some(*self)
    }

    open spec fn as_rect_spec(&self) -> Option<Rect> {
        None
    }

    open spec fn as_rounded_rect_spec(&self) -> Option<RoundedRect> {
        None
    }

    open spec fn as_circle_spec(&self) -> Option<Circle> {
        None
    }

    open spec fn as_path_slice_spec(&self) -> Option<Seq<PathEl>> {
        None
    }

    proof fn lemma_elements_wf(&self, tolerance: int) {
        assert(!self.is_closed());
        assert(self.as_path_slice_spec() is None);
        assert(self.bounding_box_spec().wf());
        assert(self.bounding_box_spec().sorted());
        let els = self.elements_spec(tolerance);
        assert(els[0] == PathEl::MoveTo(self.p0));
        assert(els[1] == PathEl::LineTo(self.p1));
        assert(forall|i: int|
            0 <= i < els.len() ==> el_in_rect(#[trigger] els[i], self.bounding_box_spec()));
    }

    proof fn lemma_winding_outside_box(&self, pt: Point) {
        assert(!self.is_closed());
    }

    proof fn lemma_probes_exclusive(&self) {
    }

    proof fn lemma_probes_sound(&self, tolerance: int, accuracy: int, pt: Point) {
        assert(self.as_line_spec() == Some(*self));
    }

    fn path_elements(&self, tolerance: i64) -> (els: Vec<PathEl>) {
        let mut els: Vec<PathEl> = Vec::new();
        els.push(PathEl::MoveTo(self.p0));
        els.push(PathEl::LineTo(self.p1));
        proof {
            assert(els@ =~= self.elements_spec(tolerance as int));
        }
        els
    }

    fn area(&self) -> (a: i64) {
        0
    }

    fn perimeter(&self, accuracy: i64) -> (p: i64) {
        let dx = self.p1.x - self.p0.x;
        let dy = self.p1.y - self.p0.y;
        proof {
            lemma_mul_bound(dx as int, dx as int, 2 * COORD_LIMIT as int);
            lemma_mul_bound(dy as int, dy as int, 2 * COORD_LIMIT as int);
            assert(dx as int * dx as int >= 0) by (nonlinear_arith);
            assert(dy as int * dy as int >= 0) by (nonlinear_arith);
        }
        let n = (dx * dx + dy * dy) as u64;
        let r = isqrt(n);
        proof {
            assert(r as int <= 0x800000) by (nonlinear_arith)
                requires
                    0 <= r as int,
                    r as int * r as int <= n as int,
                    n as int <= 0x80000000000,
            ;
        }
        r as i64
    }

    fn winding(&self, pt: Point) -> (w: i32) {
        0
    }

    fn bounding_box(&self) -> (r: Rect) {
        let b = Rect { x0: self.p0.x, y0: self.p0.y, x1: self.p1.x, y1: self.p1.y };
        b.abs()
    }

    fn as_line(&self) -> (r: Option<Line>) {
        Some(*self)
    }

    fn as_rect(&self) -> (r: Option<Rect>) {
        None
    }

    fn as_rounded_rect(&self) -> (r: Option<RoundedRect>) {
        None
    }

    fn as_circle(&self) -> (r: Option<Circle>) {
        None
    }

    fn as_path_slice(&self) -> (r: Option<&[PathEl]>) {
        None
    }
}

} // verus!
