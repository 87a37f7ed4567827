//! A retained Bézier outline: an owned sequence of path elements.

use vstd::prelude::*;
use crate::arith::{isqrt, lemma_mul_bound, sqrt_floor};
use crate::circle::Circle;
use crate::geom::{half_trunc, COORD_LIMIT, MAX_ELS, PathEl, Point};
use crate::line::Line;
use crate::rect::{el_in_rect, pt_in_rect, Rect};
use crate::rounded_rect::RoundedRect;
use crate::shape::Shape;

verus! {

/// The cross product of two points taken as vectors from the origin.
pub open spec fn cross(a: Point, b: Point) -> int {
    a.x * b.y - b.x * a.y
}

/// The Euclidean distance between two points, rounded down.
pub open spec fn spec_dist(a: Point, b: Point) -> int {
    sqrt_floor((b.x - a.x) * (b.x - a.x) + (b.y - a.y) * (b.y - a.y))
}

/// The winding contribution of the directed edge `a -> b` at `pt`: one
/// for an upward crossing with `pt` left of the edge, minus one for a
/// downward crossing with `pt` right of it.
pub open spec fn edge_wind(a: Point, b: Point, pt: Point) -> int {
    let is_left = (b.x - a.x) * (pt.y - a.y) - (pt.x - a.x) * (b.y - a.y);
    if a.y <= pt.y < b.y && is_left > 0 {
        1int
    } else if b.y <= pt.y < a.y && is_left < 0 {
        -1int
    } else {
        0int
    }
}

/// Twice the signed area contributed by the edges still to be read, by
/// the shoelace rule over on-curve points (curves count by their chords),
/// given the current subpath's start and the current point. A subpath
/// left open — by a following move or by the end of the sequence — is
/// closed implicitly: the chord back to its start contributes as if a
/// close were written, and contributes nothing when the subpath already
/// ends where it began.
pub open spec fn cross_from(els: Seq<PathEl>, start: Point, cur: Point) -> int
    decreases els.len(),
{
    if els.len() == 0 {
        cross(cur, start)
    } else {
        let rest = els.drop_first();
        match els[0] {
            PathEl::MoveTo(p) => cross(cur, start) + cross_from(rest, p, p),
            PathEl::LineTo(p) => cross(cur, p) + cross_from(rest, start, p),
            PathEl::QuadTo(p1, p2) => cross(cur, p2) + cross_from(rest, start, p2),
            PathEl::CurveTo(p1, p2, p3) => cross(cur, p3) + cross_from(rest, start, p3),
            PathEl::ClosePath => cross(cur, start) + cross_from(rest, start, start),
        }
    }
}

/// The winding number contributed by the edges still to be read. As in
/// [`cross_from`], a subpath left open is closed implicitly, so every
/// subpath counts as a closed chain of edges.
pub open spec fn wind_from(els: Seq<PathEl>, start: Point, cur: Point, pt: Point) -> int
    decreases els.len(),
{
    if els.len() == 0 {
        edge_wind(cur, start, pt)
    } else {
        let rest = els.drop_first();
        match els[0] {
            PathEl::MoveTo(p) => edge_wind(cur, start, pt) + wind_from(rest, p, p, pt),
            PathEl::LineTo(p) => edge_wind(cur, p, pt) + wind_from(rest, start, p, pt),
            PathEl::QuadTo(p1, p2) => edge_wind(cur, p2, pt) + wind_from(rest, start, p2, pt),
            PathEl::CurveTo(p1, p2, p3) => edge_wind(cur, p3, pt) + wind_from(
                rest,
                start,
                p3,
                pt,
            ),
            PathEl::ClosePath => edge_wind(cur, start, pt) + wind_from(rest, start, start, pt),
        }
    }
}

/// The length contributed by the edges still to be read: the polyline
/// over on-curve points, curves counting by their chords.
pub open spec fn perim_from(els: Seq<PathEl>, start: Point, cur: Point) -> int
    decreases els.len(),
{
    if els.len() == 0 {
        0
    } else {
        let rest = els.drop_first();
        match els[0] {
            PathEl::MoveTo(p) => perim_from(rest, p, p),
            PathEl::LineTo(p) => spec_dist(cur, p) + perim_from(rest, start, p),
            PathEl::QuadTo(p1, p2) => spec_dist(cur, p2) + perim_from(rest, start, p2),
            PathEl::CurveTo(p1, p2, p3) => spec_dist(cur, p3) + perim_from(rest, start, p3),
            PathEl::ClosePath => spec_dist(cur, start) + perim_from(rest, start, start),
        }
    }
}

/// The rectangle grown to hold one more point.
pub open spec fn rect_expand(acc: Rect, p: Point) -> Rect {
    Rect {
        x0: if p.x < acc.x0 { p.x } else { acc.x0 },
        y0: if p.y < acc.y0 { p.y } else { acc.y0 },
        x1: if p.x > acc.x1 { p.x } else { acc.x1 },
        y1: if p.y > acc.y1 { p.y } else { acc.y1 },
    }
}

/// The rectangle grown to hold every point of one element.
pub open spec fn el_expand(acc: Rect, el: PathEl) -> Rect {
    match el {
        PathEl::MoveTo(p) => rect_expand(acc, p),
        PathEl::LineTo(p) => rect_expand(acc, p),
        PathEl::QuadTo(p1, p2) => rect_expand(rect_expand(acc, p1), p2),
        PathEl::CurveTo(p1, p2, p3) => rect_expand(rect_expand(rect_expand(acc, p1), p2), p3),
        PathEl::ClosePath => acc,
    }
}

/// The rectangle grown to hold every point of a sequence of elements.
pub open spec fn bbox_els(els: Seq<PathEl>, acc: Rect) -> Rect
    decreases els.len(),
{
    if els.len() == 0 {
        acc
    } else {
        bbox_els(els.drop_first(), el_expand(acc, els[0]))
    }
}

/// The first point an element carries, or the origin for a close.
pub open spec fn el_first_pt(el: PathEl) -> Point {
    match el {
        PathEl::MoveTo(p) => p,
        PathEl::LineTo(p) => p,
        PathEl::QuadTo(p1, p2) => p1,
        PathEl::CurveTo(p1, p2, p3) => p1,
        PathEl::ClosePath => Point { x: 0, y: 0 },
    }
}

/// The bounding box of an element sequence: the degenerate rectangle at
/// the sequence's first point, grown to hold every point.
pub open spec fn bbox_of(els: Seq<PathEl>) -> Rect {
    if els.len() == 0 {
        Rect { x0: 0, y0: 0, x1: 0, y1: 0 }
    } else {
        let p = el_first_pt(els[0]);
        bbox_els(els, Rect { x0: p.x, y0: p.y, x1: p.x, y1: p.y })
    }
}

/// One rectangle holds another.
pub open spec fn rect_covers(outer: Rect, inner: Rect) -> bool {
    outer.x0 <= inner.x0 && outer.y0 <= inner.y0 && inner.x1 <= outer.x1 && inner.y1 <= outer.y1
}

/// Growing a rectangle over a sequence only widens it, and keeps it
/// ordered and within the coordinate domain when the points are.
proof fn lemma_bbox_els_covers(els: Seq<PathEl>, acc: Rect)
    requires
        acc.wf(),
        acc.sorted(),
        forall|i: int| 0 <= i < els.len() ==> (#[trigger] els[i]).wf(),
    ensures
        rect_covers(bbox_els(els, acc), acc),
        bbox_els(els, acc).wf(),
        bbox_els(els, acc).sorted(),
    decreases els.len(),
{
    if els.len() > 0 {
        let acc2 = el_expand(acc, els[0]);
        assert(els[0].wf());
        assert(forall|i: int|
            0 <= i < els.drop_first().len() ==> (#[trigger] els.drop_first()[i]).wf());
        lemma_bbox_els_covers(els.drop_first(), acc2);
    }
}

/// Every point of every element lies in the grown rectangle.
proof fn lemma_bbox_els_contain(els: Seq<PathEl>, acc: Rect)
    requires
        acc.wf(),
        acc.sorted(),
        forall|i: int| 0 <= i < els.len() ==> (#[trigger] els[i]).wf(),
    ensures
        forall|i: int|
            0 <= i < els.len() ==> el_in_rect(#[trigger] els[i], bbox_els(els, acc)),
    decreases els.len(),
{
    if els.len() > 0 {
        let acc2 = el_expand(acc, els[0]);
        let rest = els.drop_first();
        assert(els[0].wf());
        assert(forall|i: int| 0 <= i < rest.len() ==> (#[trigger] rest[i]).wf());
        lemma_bbox_els_covers(rest, acc2);
        lemma_bbox_els_contain(rest, acc2);
        assert(el_in_rect(els[0], acc2));
        assert(rect_covers(bbox_els(rest, acc2), acc2));
        assert(el_in_rect(els[0], bbox_els(els, acc)));
        assert(forall|i: int|
            1 <= i < els.len() ==> els[i] == rest[i - 1] && el_in_rect(
                #[trigger] els[i],
                bbox_els(els, acc),
            ));
    }
}

/// Is a sequence of elements a well-formed outline? All points lie in the
/// coordinate domain, the sequence is not longer than [`MAX_ELS`], and if
/// it is non-empty it begins with a move.
pub open spec fn els_wf(els: Seq<PathEl>) -> bool {
    &&& els.len() <= MAX_ELS
    &&& forall|i: int| 0 <= i < els.len() ==> (#[trigger] els[i]).wf()
    &&& els.len() > 0 ==> els[0] is MoveTo
}

/// One if the point lies above the probe's level, zero otherwise. For a
/// probe point left of a closed chain of edges, each edge's winding
/// contribution is the step difference of its endpoints, so the chain
/// telescopes to zero.
pub open spec fn y_step(v: Point, pt: Point) -> int {
    if v.y > pt.y {
        1int
    } else {
        0int
    }
}

/// For a probe point strictly left of both endpoints, an edge's winding
/// contribution is the step difference of its endpoints.
proof fn lemma_edge_wind_left(a: Point, b: Point, pt: Point)
    requires
        pt.x < a.x,
        pt.x < b.x,
    ensures
        edge_wind(a, b, pt) == y_step(b, pt) - y_step(a, pt),
{
    if a.y <= pt.y && pt.y < b.y {
        assert((b.x - a.x) * (pt.y - a.y) - (pt.x - a.x) * (b.y - a.y) > 0) by (nonlinear_arith)
            requires
                pt.x < a.x,
                pt.x < b.x,
                a.y <= pt.y,
                pt.y < b.y,
        ;
    } else if b.y <= pt.y && pt.y < a.y {
        assert((b.x - a.x) * (pt.y - a.y) - (pt.x - a.x) * (b.y - a.y) < 0) by (nonlinear_arith)
            requires
                pt.x < a.x,
                pt.x < b.x,
                b.y <= pt.y,
                pt.y < a.y,
        ;
    }
}

/// For a probe point strictly right of both endpoints, or strictly
/// below both, or at or above both, an edge contributes nothing.
proof fn lemma_edge_wind_zero(a: Point, b: Point, pt: Point)
    requires
        (pt.x > a.x && pt.x > b.x) || (pt.y < a.y && pt.y < b.y) || (pt.y >= a.y && pt.y
            >= b.y),
    ensures
        edge_wind(a, b, pt) == 0,
{
    if pt.x > a.x && pt.x > b.x {
        if a.y <= pt.y && pt.y < b.y {
            assert((b.x - a.x) * (pt.y - a.y) - (pt.x - a.x) * (b.y - a.y) < 0)
                by (nonlinear_arith)
                requires
                    pt.x > a.x,
                    pt.x > b.x,
                    a.y <= pt.y,
                    pt.y < b.y,
            ;
        }
        if b.y <= pt.y && pt.y < a.y {
            assert((b.x - a.x) * (pt.y - a.y) - (pt.x - a.x) * (b.y - a.y) > 0)
                by (nonlinear_arith)
                requires
                    pt.x > a.x,
                    pt.x > b.x,
                    b.y <= pt.y,
                    pt.y < a.y,
            ;
        }
    }
}

/// For a probe point left of a rectangle holding every edge point, the
/// winding contributions telescope to the step difference of the
/// current subpath's start and current points.
proof fn lemma_wind_from_left(els: Seq<PathEl>, start: Point, cur: Point, pt: Point, bb: Rect)
    requires
        forall|i: int| 0 <= i < els.len() ==> el_in_rect(#[trigger] els[i], bb),
        pt_in_rect(start, bb),
        pt_in_rect(cur, bb),
        pt.x < bb.x0,
    ensures
        wind_from(els, start, cur, pt) == y_step(start, pt) - y_step(cur, pt),
    decreases els.len(),
{
    if els.len() == 0 {
        lemma_edge_wind_left(cur, start, pt);
    } else {
        let rest = els.drop_first();
        assert(forall|i: int| 0 <= i < rest.len() ==> el_in_rect(#[trigger] rest[i], bb));
        assert(el_in_rect(els[0], bb));
        match els[0] {
            PathEl::MoveTo(p) => {
                lemma_edge_wind_left(cur, start, pt);
                lemma_wind_from_left(rest, p, p, pt, bb);
            },
            PathEl::LineTo(p) => {
                lemma_edge_wind_left(cur, p, pt);
                lemma_wind_from_left(rest, start, p, pt, bb);
            },
            PathEl::QuadTo(p1, p2) => {
                lemma_edge_wind_left(cur, p2, pt);
                lemma_wind_from_left(rest, start, p2, pt, bb);
            },
            PathEl::CurveTo(p1, p2, p3) => {
                lemma_edge_wind_left(cur, p3, pt);
                lemma_wind_from_left(rest, start, p3, pt, bb);
            },
            PathEl::ClosePath => {
                lemma_edge_wind_left(cur, start, pt);
                lemma_wind_from_left(rest, start, start, pt, bb);
            },
        }
    }
}

/// For a probe point right of, below, or above a rectangle holding
/// every edge point, no edge contributes and the winding is zero.
proof fn lemma_wind_from_away(els: Seq<PathEl>, start: Point, cur: Point, pt: Point, bb: Rect)
    requires
        forall|i: int| 0 <= i < els.len() ==> el_in_rect(#[trigger] els[i], bb),
        pt_in_rect(start, bb),
        pt_in_rect(cur, bb),
        pt.x > bb.x1 || pt.y < bb.y0 || pt.y > bb.y1,
    ensures
        wind_from(els, start, cur, pt) == 0,
    decreases els.len(),
{
    if els.len() == 0 {
        lemma_edge_wind_zero(cur, start, pt);
    } else {
        let rest = els.drop_first();
        assert(forall|i: int| 0 <= i < rest.len() ==> el_in_rect(#[trigger] rest[i], bb));
        assert(el_in_rect(els[0], bb));
        match els[0] {
            PathEl::MoveTo(p) => {
                lemma_edge_wind_zero(cur, start, pt);
                lemma_wind_from_away(rest, p, p, pt, bb);
            },
            PathEl::LineTo(p) => {
                lemma_edge_wind_zero(cur, p, pt);
                lemma_wind_from_away(rest, start, p, pt, bb);
            },
            PathEl::QuadTo(p1, p2) => {
                lemma_edge_wind_zero(cur, p2, pt);
                lemma_wind_from_away(rest, start, p2, pt, bb);
            },
            PathEl::CurveTo(p1, p2, p3) => {
                lemma_edge_wind_zero(cur, p3, pt);
                lemma_wind_from_away(rest, start, p3, pt, bb);
            },
            PathEl::ClosePath => {
                lemma_edge_wind_zero(cur, start, pt);
                lemma_wind_from_away(rest, start, start, pt, bb);
            },
        }
    }
}

/// Law: a retained path cannot wind around a point outside its bounding
/// box. Every subpath counts as a closed chain of edges whose points
/// lie in the box: left of the box the contributions telescope to zero,
/// and on the other three sides no edge contributes at all.
pub proof fn lemma_path_winding_outside_box(els: Seq<PathEl>, pt: Point)
    requires
        els_wf(els),
        !pt_in_rect(pt, bbox_of(els)),
    ensures
        wind_from(els, Point { x: 0, y: 0 }, Point { x: 0, y: 0 }, pt) == 0,
{
    let o = Point { x: 0, y: 0 };
    if els.len() == 0 {
        assert(wind_from(els, o, o, pt) == edge_wind(o, o, pt));
    } else {
        let bb = bbox_of(els);
        let p = el_first_pt(els[0]);
        let acc0 = Rect { x0: p.x, y0: p.y, x1: p.x, y1: p.y };
        assert(els[0] is MoveTo);
        assert(els[0].wf());
        lemma_bbox_els_covers(els, acc0);
        lemma_bbox_els_contain(els, acc0);
        let rest = els.drop_first();
        assert(forall|i: int| 0 <= i < rest.len() ==> el_in_rect(#[trigger] rest[i], bb));
        assert(el_in_rect(els[0], bb));
        assert(pt_in_rect(p, bb));
        assert(wind_from(els, o, o, pt) == edge_wind(o, o, pt) + wind_from(rest, p, p, pt));
        assert(edge_wind(o, o, pt) == 0);
        if pt.x < bb.x0 {
            lemma_wind_from_left(rest, p, p, pt, bb);
        } else {
            assert(pt.x > bb.x1 || pt.y < bb.y0 || pt.y > bb.y1);
            lemma_wind_from_away(rest, p, p, pt, bb);
        }
    }
}

/// A retained Bézier outline. Its one invariant is [`els_wf`] of the
/// stored elements; every constructor establishes it and every method
/// preserves it.
#[derive(Clone, Debug, PartialEq, Eq)]
pub struct BezPath {
    els: Vec<PathEl>,
}

impl View for BezPath {
    type V = Seq<PathEl>;

    closed spec fn view(&self) -> Seq<PathEl> {
        self.els@
    }
}

impl BezPath {
    /// The stored elements form a well-formed outline.
    pub open spec fn wf(&self) -> bool {
        els_wf(self@)
    }

    /// An empty path.
    pub fn new() -> (p: BezPath)
        ensures
            p@ == Seq::<PathEl>::empty(),
            p.wf(),
    {
        BezPath { els: Vec::new() }
    }

    /// Wrap an element vector as a path. The vector must already be a
    /// well-formed outline.
    pub fn from_elements(els: Vec<PathEl>) -> (p: BezPath)
        requires
            els_wf(els@),
        ensures
            p@ == els@,
            p.wf(),
    {
        BezPath { els }
    }

    /// Append one element. The first element of a path must be a move,
    /// and every point must lie in the coordinate domain.
    pub fn push(&mut self, el: PathEl)
        requires
            old(self).wf(),
            old(self)@.len() < MAX_ELS,
            el.wf(),
            old(self)@.len() == 0 ==> el is MoveTo,
        ensures
            final(self)@ == old(self)@.push(el),
            final(self).wf(),
    {
        self.els.push(el);
    }

    /// How many elements the path holds.
    pub fn len(&self) -> (n: usize)
        ensures
            n == self@.len(),
    {
        self.els.len()
    }

    /// The stored elements, as a slice.
    pub fn elements(&self) -> (els: &[PathEl])
        ensures
            els@ == self@,
    {
        self.els.as_slice()
    }
}

/// The cross product of two points in the coordinate domain.
fn cross_val(a: Point, b: Point) -> (c: i64)
    requires
        a.wf(),
        b.wf(),
    ensures
        c as int == cross(a, b),
        -0x20000000000 <= c <= 0x20000000000,
{
    proof {
        lemma_mul_bound(a.x as int, b.y as int, COORD_LIMIT as int);
        lemma_mul_bound(b.x as int, a.y as int, COORD_LIMIT as int);
    }
    a.x * b.y - b.x * a.y
}

/// The Euclidean distance of two points in the coordinate domain,
/// rounded down.
fn dist_val(a: Point, b: Point) -> (d: i64)
    requires
        a.wf(),
        b.wf(),
    ensures
        d as int == spec_dist(a, b),
        0 <= d <= 0x800000,
{
    let dx = b.x - a.x;
    let dy = b.y - a.y;
    proof {
        lemma_mul_bound(dx as int, dx as int, 2 * COORD_LIMIT as int);
        lemma_mul_bound(dy as int, dy as int, 2 * COORD_LIMIT as int);
        assert(dx as int * dx as int >= 0) by (nonlinear_arith);
        assert(dy as int * dy as int >= 0) by (nonlinear_arith);
    }
    let n = (dx * dx + dy * dy) as u64;
    let r = isqrt(n);
    proof {
        assert(r as int <= 0x800000) by (nonlinear_arith)
            requires
                0 <= r as int,
                r as int * r as int <= n as int,
                n as int <= 0x80000000000,
        ;
    }
    r as i64
}

/// The winding contribution of one directed edge at a point.
fn edge_wind_val(a: Point, b: Point, pt: Point) -> (w: i32)
    requires
        a.wf(),
        b.wf(),
        pt.wf(),
    ensures
        w as int == edge_wind(a, b, pt),
        -1 <= w <= 1,
{
    let bax = b.x - a.x;
    let pay = pt.y - a.y;
    let pax = pt.x - a.x;
    let bay = b.y - a.y;
    proof {
        lemma_mul_bound(bax as int, pay as int, 2 * COORD_LIMIT as int);
        lemma_mul_bound(pax as int, bay as int, 2 * COORD_LIMIT as int);
    }
    let is_left = bax * pay - pax * bay;
    if a.y <= pt.y && pt.y < b.y && is_left > 0 {
        1
    } else if b.y <= pt.y && pt.y < a.y && is_left < 0 {
        -1
    } else {
        0
    }
}

/// The rectangle grown to hold one more point.
fn expand_pt(acc: Rect, p: Point) -> (r: Rect)
    ensures
        r == rect_expand(acc, p),
{
    Rect {
        x0: if p.x < acc.x0 { p.x } else { acc.x0 },
        y0: if p.y < acc.y0 { p.y } else { acc.y0 },
        x1: if p.x > acc.x1 { p.x } else { acc.x1 },
        y1: if p.y > acc.y1 { p.y } else { acc.y1 },
    }
}

impl Shape for BezPath {
    open spec fn wf(&self) -> bool {
        els_wf(self@)
    }

    /// A retained path already is its own outline: the tolerance is
    /// ignored and the stored elements are produced exactly.
    open spec fn elements_spec(&self, tolerance: int) -> Seq<PathEl> {
        self@
    }

    open spec fn is_closed(&self) -> bool {
        self@.len() > 0 && self@.last() is ClosePath
    }

    /// Half the shoelace sum over the path's edges, with curves counting
    /// by their chords and every subpath implicitly closed. Meaningful
    /// for closed paths.
    open spec fn area_spec(&self) -> int {
        half_trunc(cross_from(self@, Point { x: 0, y: 0 }, Point { x: 0, y: 0 }))
    }

    /// The polyline length over on-curve points, curves counting by
    /// their chords.
    open spec fn perimeter_spec(&self, accuracy: int) -> int {
        perim_from(self@, Point { x: 0, y: 0 }, Point { x: 0, y: 0 })
    }

    /// The crossing-rule winding number over the path's edges, with
    /// curves counting by their chords and every subpath implicitly
    /// closed. Meaningful for closed paths.
    open spec fn winding_spec(&self, pt: Point) -> int {
        wind_from(self@, Point { x: 0, y: 0 }, Point { x: 0, y: 0 }, pt)
    }

    open spec fn bounding_box_spec(&self) -> Rect {
        bbox_of(self@)
    }

    open spec fn as_line_spec(&self) -> Option<Line> {
        None
    }

    open spec fn as_rect_spec(&self) -> Option<Rect> {
        None
    }

    open spec fn as_rounded_rect_spec(&self) -> Option<RoundedRect> {
        None
    }

    open spec fn as_circle_spec(&self) -> Option<Circle> {
        None
    }

    /// The outline is stored contiguously, so the probe answers.
    open spec fn as_path_slice_spec(&self) -> Option<Seq<PathEl>> {
        Some(self@)
    }

    proof fn lemma_elements_wf(&self, tolerance: int) {
        let els = self.elements_spec(tolerance);
        assert(els == self@);
        assert(self.is_closed() == (self@.len() > 0 && self@.last() is ClosePath));
        assert(self.is_closed() ==> els.len() > 0 && els.last() is ClosePath);
        assert(self.as_path_slice_spec() == Some(self@));
        if els.len() == 0 {
            assert(self.bounding_box_spec() == (Rect { x0: 0i64, y0: 0i64, x1: 0i64, y1: 0i64 }));
        } else {
            let p = el_first_pt(els[0]);
            let acc0 = Rect { x0: p.x, y0: p.y, x1: p.x, y1: p.y };
            assert(els[0] is MoveTo);
            assert(els[0].wf());
            assert(p.wf());
            lemma_bbox_els_covers(els, acc0);
            lemma_bbox_els_contain(els, acc0);
        }
    }

    proof fn lemma_winding_outside_box(&self, pt: Point) {
        if !pt_in_rect(pt, self.bounding_box_spec()) {
            lemma_path_winding_outside_box(self@, pt);
        }
    }

    proof fn lemma_probes_exclusive(&self) {
    }

    proof fn lemma_probes_sound(&self, tolerance: int, accuracy: int, pt: Point) {
    }

    fn path_elements(&self, tolerance: i64) -> (els: Vec<PathEl>) {
        let mut out: Vec<PathEl> = Vec::new();
        let mut i: usize = 0;
        while i < self.els.len()
            invariant
                0 <= i <= self.els@.len(),
                out@ == self.els@.take(i as int),
            decreases self.els@.len() - i,
        {
            out.push(self.els[i]);
            i = i + 1;
            proof {
                assert(out@ =~= self.els@.take(i as int));
            }
        }
        proof {
            assert(self.els@.take(self.els@.len() as int) =~= self.els@);
        }
        out
    }

    fn into_path(self, tolerance: i64) -> (p: BezPath) {
        self
    }

    fn area(&self) -> (a: i64) {
        let origin = Point { x: 0, y: 0 };
        let mut acc: i64 = 0;
        let mut start = origin;
        let mut cur = origin;
        let mut i: usize = 0;
        proof {
            assert(self@.skip(0) =~= self@);
        }
        while i < self.els.len()
            invariant
                els_wf(self@),
                0 <= i <= self@.len(),
                self@.len() <= MAX_ELS,
                start.wf(),
                cur.wf(),
                cross_from(self@, Point { x: 0, y: 0 }, Point { x: 0, y: 0 }) == acc as int
                    + cross_from(self@.skip(i as int), start, cur),
                -0x20000000000 * (i as int) <= acc as int <= 0x20000000000 * (i as int),
            decreases self@.len() - i,
        {
            let ghost pending = self@.skip(i as int);
            proof {
                assert(pending[0] == self@[i as int]);
                assert(self@[i as int].wf());
                assert(pending.drop_first() =~= self@.skip(i as int + 1));
            }
            match self.els[i] {
                PathEl::MoveTo(p) => {
                    acc = acc + cross_val(cur, start);
                    start = p;
                    cur = p;
                },
                PathEl::LineTo(p) => {
                    acc = acc + cross_val(cur, p);
                    cur = p;
                },
                PathEl::QuadTo(p1, p2) => {
                    acc = acc + cross_val(cur, p2);
                    cur = p2;
                },
                PathEl::CurveTo(p1, p2, p3) => {
                    acc = acc + cross_val(cur, p3);
                    cur = p3;
                },
                PathEl::ClosePath => {
                    acc = acc + cross_val(cur, start);
                    cur = start;
                },
            }
            i = i + 1;
        }
        proof {
            assert(self@.skip(self@.len() as int) =~= Seq::<PathEl>::empty());
        }
        acc = acc + cross_val(cur, start);
        if acc >= 0 {
            acc / 2
        } else {
            -((-acc) / 2)
        }
    }

    fn perimeter(&self, accuracy: i64) -> (p: i64) {
        let origin = Point { x: 0, y: 0 };
        let mut acc: i64 = 0;
        let mut start = origin;
        let mut cur = origin;
        let mut i: usize = 0;
        proof {
            assert(self@.skip(0) =~= self@);
        }
        while i < self.els.len()
            invariant
                els_wf(self@),
                0 <= i <= self@.len(),
                self@.len() <= MAX_ELS,
                start.wf(),
                cur.wf(),
                perim_from(self@, Point { x: 0, y: 0 }, Point { x: 0, y: 0 }) == acc as int
                    + perim_from(self@.skip(i as int), start, cur),
                0 <= acc as int <= 0x800000 * (i as int),
            decreases self@.len() - i,
        {
            let ghost pending = self@.skip(i as int);
            proof {
                assert(pending[0] == self@[i as int]);
                assert(self@[i as int].wf());
                assert(pending.drop_first() =~= self@.skip(i as int + 1));
            }
            match self.els[i] {
                PathEl::MoveTo(p) => {
                    start = p;
                    cur = p;
                },
                PathEl::LineTo(p) => {
                    acc = acc + dist_val(cur, p);
                    cur = p;
                },
                PathEl::QuadTo(p1, p2) => {
                    acc = acc + dist_val(cur, p2);
                    cur = p2;
                },
                PathEl::CurveTo(p1, p2, p3) => {
                    acc = acc + dist_val(cur, p3);
                    cur = p3;
                },
                PathEl::ClosePath => {
                    acc = acc + dist_val(cur, start);
                    cur = start;
                },
            }
            i = i + 1;
        }
        proof {
            assert(self@.skip(self@.len() as int) =~= Seq::<PathEl>::empty());
        }
        acc
    }

    fn winding(&self, pt: Point) -> (w: i32) {
        let origin = Point { x: 0, y: 0 };
        let mut acc: i32 = 0;
        let mut start = origin;
        let mut cur = origin;
        let mut i: usize = 0;
        proof {
            assert(self@.skip(0) =~= self@);
        }
        while i < self.els.len()
            invariant
                els_wf(self@),
                0 <= i <= self@.len(),
                self@.len() <= MAX_ELS,
                start.wf(),
                cur.wf(),
                pt.wf(),
                wind_from(self@, Point { x: 0, y: 0 }, Point { x: 0, y: 0 }, pt) == acc as int
                    + wind_from(self@.skip(i as int), start, cur, pt),
                -(i as int) <= acc as int <= i as int,
            decreases self@.len() - i,
        {
            let ghost pending = self@.skip(i as int);
            proof {
                assert(pending[0] == self@[i as int]);
                assert(self@[i as int].wf());
                assert(pending.drop_first() =~= self@.skip(i as int + 1));
            }
            match self.els[i] {
                PathEl::MoveTo(p) => {
                    acc = acc + edge_wind_val(cur, start, pt);
                    start = p;
                    cur = p;
                },
                PathEl::LineTo(p) => {
                    acc = acc + edge_wind_val(cur, p, pt);
                    cur = p;
                },
                PathEl::QuadTo(p1, p2) => {
                    acc = acc + edge_wind_val(cur, p2, pt);
                    cur = p2;
                },
                PathEl::CurveTo(p1, p2, p3) => {
                    acc = acc + edge_wind_val(cur, p3, pt);
                    cur = p3;
                },
                PathEl::ClosePath => {
                    acc = acc + edge_wind_val(cur, start, pt);
                    cur = start;
                },
            }
            i = i + 1;
        }
        proof {
            assert(self@.skip(self@.len() as int) =~= Seq::<PathEl>::empty());
        }
        acc + edge_wind_val(cur, start, pt)
    }

    fn bounding_box(&self) -> (r: Rect) {
        if self.els.len() == 0 {
            Rect { x0: 0, y0: 0, x1: 0, y1: 0 }
        } else {
            let p = match self.els[0] {
                PathEl::MoveTo(q) => q,
                PathEl::LineTo(q) => q,
                PathEl::QuadTo(q1, q2) => q1,
                PathEl::CurveTo(q1, q2, q3) => q1,
                PathEl::ClosePath => Point { x: 0, y: 0 },
            };
            let ghost acc0 = Rect { x0: p.x, y0: p.y, x1: p.x, y1: p.y };
            let mut acc = Rect { x0: p.x, y0: p.y, x1: p.x, y1: p.y };
            let mut i: usize = 0;
            proof {
                assert(p == el_first_pt(self@[0]));
                assert(self@.skip(0) =~= self@);
                assert(self@[0].wf());
                lemma_bbox_els_covers(self@, acc0);
                lemma_bbox_els_contain(self@, acc0);
            }
            while i < self.els.len()
                invariant
                    els_wf(self@),
                    0 <= i <= self@.len(),
                    acc.wf(),
                    acc.sorted(),
                    bbox_els(self@, acc0) == bbox_els(self@.skip(i as int), acc),
                decreases self@.len() - i,
            {
                let ghost pending = self@.skip(i as int);
                proof {
                    assert(pending[0] == self@[i as int]);
                    assert(self@[i as int].wf());
                    assert(pending.drop_first() =~= self@.skip(i as int + 1));
                }
                match self.els[i] {
                    PathEl::MoveTo(q) => {
                        acc = expand_pt(acc, q);
                    },
                    PathEl::LineTo(q) => {
                        acc = expand_pt(acc, q);
                    },
                    PathEl::QuadTo(q1, q2) => {
                        acc = expand_pt(acc, q1);
                        acc = expand_pt(acc, q2);
                    },
                    PathEl::CurveTo(q1, q2, q3) => {
                        acc = expand_pt(acc, q1);
                        acc = expand_pt(acc, q2);
                        acc = expand_pt(acc, q3);
                    },
                    PathEl::ClosePath => {},
                }
                i = i + 1;
            }
            proof {
                assert(self@.skip(self@.len() as int) =~= Seq::<PathEl>::empty());
            }
            acc
        }
    }

    fn as_line(&self) -> (r: Option<Line>) {
        None
    }

    fn as_rect(&self) -> (r: Option<Rect>) {
        None
    }

    fn as_rounded_rect(&self) -> (r: Option<RoundedRect>) {
        None
    }

    fn as_circle(&self) -> (r: Option<Circle>) {
        None
    }

    fn as_path_slice(&self) -> (r: Option<&[PathEl]>) {
        Some(self.els.as_slice())
    }
}

} // verus!
