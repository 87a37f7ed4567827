//! A rectangle with circular-arc corners of one shared radius.

use vstd::prelude::*;
use crate::arc::{
    curve_els, lemma_pow2_monotone, lemma_split_levels, levels_of, pow2, push_curves, split_cubic,
    split_levels, subdiv_levels, Cubic, ARC_MAGIC_DEN, ARC_MAGIC_NUM, MAX_LEVELS,
};
use crate::arith::{lemma_concat_all, lemma_mul_bound};
use crate::bez_path::els_wf;
use crate::circle::Circle;
use crate::geom::{COORD_LIMIT, PathEl, Point};
use crate::line::Line;
use crate::rect::{el_in_rect, Rect};
use crate::shape::Shape;

verus! {

/// A rectangle whose four corners are rounded by quarter circles of the
/// given radius.
#[derive(Clone, Copy, Debug, PartialEq, Eq, Structural)]
pub struct RoundedRect {
    pub rect: Rect,
    pub radius: i64,
}

impl RoundedRect {
    /// The rectangle is well formed with ordered corners, and the corner
    /// radius is non-negative and fits twice into both extents.
    pub open spec fn wf(self) -> bool {
        &&& self.rect.wf()
        &&& self.rect.sorted()
        &&& self.radius >= 0
        &&& 2 * self.radius <= self.rect.spec_width()
        &&& 2 * self.radius <= self.rect.spec_height()
    }

    pub fn new(rect: Rect, radius: i64) -> (r: RoundedRect)
        ensures
            r == (RoundedRect { rect, radius }),
    {
        RoundedRect { rect, radius }
    }

    /// The tangent length of the corner cubics' control points.
    pub open spec fn spec_kk(self) -> int {
        self.radius as int * (ARC_MAGIC_NUM as int) / (ARC_MAGIC_DEN as int)
    }

    /// The `j`-th corner quarter arc, in outline order: lower-right,
    /// upper-right, upper-left, lower-left (y-up orientation).
    pub open spec fn spec_corner(self, j: int) -> Cubic {
        let x0 = self.rect.x0 as int;
        let y0 = self.rect.y0 as int;
        let x1 = self.rect.x1 as int;
        let y1 = self.rect.y1 as int;
        let r = self.radius as int;
        let kk = self.spec_kk();
        if j == 0 {
            Cubic {
                p0: Point { x: (x1 - r) as i64, y: y0 as i64 },
                p1: Point { x: (x1 - r + kk) as i64, y: y0 as i64 },
                p2: Point { x: x1 as i64, y: (y0 + r - kk) as i64 },
                p3: Point { x: x1 as i64, y: (y0 + r) as i64 },
            }
        } else if j == 1 {
            Cubic {
                p0: Point { x: x1 as i64, y: (y1 - r) as i64 },
                p1: Point { x: x1 as i64, y: (y1 - r + kk) as i64 },
                p2: Point { x: (x1 - r + kk) as i64, y: y1 as i64 },
                p3: Point { x: (x1 - r) as i64, y: y1 as i64 },
            }
        } else if j == 2 {
            Cubic {
                p0: Point { x: (x0 + r) as i64, y: y1 as i64 },
                p1: Point { x: (x0 + r - kk) as i64, y: y1 as i64 },
                p2: Point { x: x0 as i64, y: (y1 - r + kk) as i64 },
                p3: Point { x: x0 as i64, y: (y1 - r) as i64 },
            }
        } else {
            Cubic {
                p0: Point { x: x0 as i64, y: (y0 + r) as i64 },
                p1: Point { x: x0 as i64, y: (y0 + r - kk) as i64 },
                p2: Point { x: (x0 + r - kk) as i64, y: y0 as i64 },
                p3: Point { x: (x0 + r) as i64, y: y0 as i64 },
            }
        }
    }

    /// Is the point strictly inside the rounded rectangle? Inside the
    /// rectangle, and inside the quarter disc at each corner region.
    pub open spec fn spec_inside(self, pt: Point) -> bool {
        let x0 = self.rect.x0 as int;
        let y0 = self.rect.y0 as int;
        let x1 = self.rect.x1 as int;
        let y1 = self.rect.y1 as int;
        let r = self.radius as int;
        &&& x0 < pt.x < x1
        &&& y0 < pt.y < y1
        &&& (pt.x < x0 + r && pt.y < y0 + r ==> (pt.x - (x0 + r)) * (pt.x - (x0 + r)) + (pt.y - (y0
            + r)) * (pt.y - (y0 + r)) < r * r)
        &&& (pt.x > x1 - r && pt.y < y0 + r ==> (pt.x - (x1 - r)) * (pt.x - (x1 - r)) + (pt.y - (y0
            + r)) * (pt.y - (y0 + r)) < r * r)
        &&& (pt.x < x0 + r && pt.y > y1 - r ==> (pt.x - (x0 + r)) * (pt.x - (x0 + r)) + (pt.y - (y1
            - r)) * (pt.y - (y1 - r)) < r * r)
        &&& (pt.x > x1 - r && pt.y > y1 - r ==> (pt.x - (x1 - r)) * (pt.x - (x1 - r)) + (pt.y - (y1
            - r)) * (pt.y - (y1 - r)) < r * r)
    }

    /// The rounded rectangle's outline at a tolerance: a move, four
    /// straight runs, the four corner arcs refined to the tolerance's
    /// level, and a close.
    pub open spec fn spec_elements(self, tolerance: int) -> Seq<PathEl> {
        let x0 = self.rect.x0 as int;
        let y0 = self.rect.y0 as int;
        let x1 = self.rect.x1 as int;
        let y1 = self.rect.y1 as int;
        let r = self.radius as int;
        let k = levels_of(self.radius as int, tolerance);
        seq![PathEl::MoveTo(Point { x: (x0 + r) as i64, y: y0 as i64 })] + seq![
            PathEl::LineTo(Point { x: (x1 - r) as i64, y: y0 as i64 }),
        ] + curve_els(split_levels(self.spec_corner(0), k)) + seq![
            PathEl::LineTo(Point { x: x1 as i64, y: (y1 - r) as i64 }),
        ] + curve_els(split_levels(self.spec_corner(1), k)) + seq![
            PathEl::LineTo(Point { x: (x0 + r) as i64, y: y1 as i64 }),
        ] + curve_els(split_levels(self.spec_corner(2), k)) + seq![
            PathEl::LineTo(Point { x: x0 as i64, y: (y0 + r) as i64 }),
        ] + curve_els(split_levels(self.spec_corner(3), k)) + seq![PathEl::ClosePath]
    }

    /// The rectangle's area, less the four square corners, plus the
    /// four quarter discs, with `pi` taken as `355 / 113`.
    pub open spec fn spec_area(self) -> int {
        self.rect.spec_width() * self.rect.spec_height() - 4 * (self.radius as int) * (
        self.radius as int) + 355 * (self.radius as int) * (self.radius as int) / 113
    }

    /// The four straight runs plus the full circle the corners form,
    /// with `pi` taken as `355 / 113`.
    pub open spec fn spec_perimeter(self) -> int {
        2 * (self.rect.spec_width() + self.rect.spec_height()) - 8 * (self.radius as int) + 710 * (
        self.radius as int) / 113
    }

    /// One for points strictly inside, zero otherwise.
    pub open spec fn spec_winding(self, pt: Point) -> int {
        if self.spec_inside(pt) {
            1int
        } else {
            0int
        }
    }
}

impl Shape for RoundedRect {
    open spec fn wf(&self) -> bool {
        RoundedRect::wf(*self)
    }

    open spec fn elements_spec(&self, tolerance: int) -> Seq<PathEl> {
        self.spec_elements(tolerance)
    }

    open spec fn is_closed(&self) -> bool {
        true
    }

    /// The rectangle's area, less the four square corners, plus the four
    /// quarter discs: `w * h - 4 * r * r + pi * r * r`, with `pi` taken
    /// as `355 / 113`.
    open spec fn area_spec(&self) -> int {
        self.spec_area()
    }

    /// The four straight runs plus the full circle the corners form:
    /// `2 * (w + h) - 8 * r + 2 * pi * r`, with `pi` taken as `355/113`.
    open spec fn perimeter_spec(&self, accuracy: int) -> int {
        self.spec_perimeter()
    }

    /// One for points strictly inside, zero otherwise.
    open spec fn winding_spec(&self, pt: Point) -> int {
        self.spec_winding(pt)
    }

    open spec fn bounding_box_spec(&self) -> Rect {
        self.rect
    }

    open spec fn as_line_spec(&self) -> Option<Line> {
        None
    }

    open spec fn as_rect_spec(&self) -> Option<Rect> {
        None
    }

    open spec fn as_rounded_rect_spec(&self) -> Option<RoundedRect> {
        Some(*self)
    }

    open spec fn as_circle_spec(&self) -> Option<Circle> {
        None
    }

    open spec fn as_path_slice_spec(&self) -> Option<Seq<PathEl>> {
        None
    }

    #[verifier::rlimit(90)]
    proof fn lemma_elements_wf(&self, tolerance: int) {
        assert(self.is_closed());
        assert(self.as_path_slice_spec() is None);
        let bb = self.bounding_box_spec();
        let k = levels_of(self.radius as int, tolerance);
        let e = self.elements_spec(tolerance);
        let r = self.radius as int;
        assert(0 <= r * 5523 / 10000 <= r) by (nonlinear_arith)
            requires r >= 0;
        crate::arc::lemma_levels_rec_le_fuel(r * 27 / 100000, tolerance, MAX_LEVELS as nat);
        lemma_pow2_monotone(k, MAX_LEVELS as nat);
        reveal_with_fuel(pow2, 9);
        assert(pow2(MAX_LEVELS as nat) == 256);
        let p = |el: PathEl| el.wf() && el_in_rect(el, bb);
        let m = seq![
            PathEl::MoveTo(
                Point { x: (self.rect.x0 as int + r) as i64, y: self.rect.y0 as i64 },
            ),
        ];
        let l0 = seq![
            PathEl::LineTo(
                Point { x: (self.rect.x1 as int - r) as i64, y: self.rect.y0 as i64 },
            ),
        ];
        let l1 = seq![
            PathEl::LineTo(
                Point { x: self.rect.x1 as i64, y: (self.rect.y1 as int - r) as i64 },
            ),
        ];
        let l2 = seq![
            PathEl::LineTo(
                Point { x: (self.rect.x0 as int + r) as i64, y: self.rect.y1 as i64 },
            ),
        ];
        let l3 = seq![
            PathEl::LineTo(
                Point { x: self.rect.x0 as i64, y: (self.rect.y0 as int + r) as i64 },
            ),
        ];
        let z = seq![PathEl::ClosePath];
        let c0 = curve_els(split_levels(self.spec_corner(0), k));
        let c1 = curve_els(split_levels(self.spec_corner(1), k));
        let c2 = curve_els(split_levels(self.spec_corner(2), k));
        let c3 = curve_els(split_levels(self.spec_corner(3), k));
        lemma_split_levels(self.spec_corner(0), k, bb);
        lemma_split_levels(self.spec_corner(1), k, bb);
        lemma_split_levels(self.spec_corner(2), k, bb);
        lemma_split_levels(self.spec_corner(3), k, bb);
        assert(forall|i: int| 0 <= i < c0.len() ==> p(#[trigger] c0[i]));
        assert(forall|i: int| 0 <= i < c1.len() ==> p(#[trigger] c1[i]));
        assert(forall|i: int| 0 <= i < c2.len() ==> p(#[trigger] c2[i]));
        assert(forall|i: int| 0 <= i < c3.len() ==> p(#[trigger] c3[i]));
        lemma_concat_all(m, l0, p);
        lemma_concat_all(m + l0, c0, p);
        lemma_concat_all(m + l0 + c0, l1, p);
        lemma_concat_all(m + l0 + c0 + l1, c1, p);
        lemma_concat_all(m + l0 + c0 + l1 + c1, l2, p);
        lemma_concat_all(m + l0 + c0 + l1 + c1 + l2, c2, p);
        lemma_concat_all(m + l0 + c0 + l1 + c1 + l2 + c2, l3, p);
        lemma_concat_all(m + l0 + c0 + l1 + c1 + l2 + c2 + l3, c3, p);
        lemma_concat_all(m + l0 + c0 + l1 + c1 + l2 + c2 + l3 + c3, z, p);
        assert(e == m + l0 + c0 + l1 + c1 + l2 + c2 + l3 + c3 + z);
        assert(forall|i: int| 0 <= i < e.len() ==> p(#[trigger] e[i]));
        assert(e[0] is MoveTo);
        assert(e.last() == PathEl::ClosePath);
        assert(e.len() == 6 + 4 * pow2(k));
        assert(forall|i: int| 0 <= i < e.len() ==> (#[trigger] e[i]).wf());
        assert(forall|i: int| 0 <= i < e.len() ==> el_in_rect(#[trigger] e[i], bb));
        assert(els_wf(e));
    }

    proof fn lemma_winding_outside_box(&self, pt: Point) {
        assert(self.spec_inside(pt) ==> crate::rect::pt_in_rect(pt, self.rect));
    }

    proof fn lemma_probes_exclusive(&self) {
    }

    proof fn lemma_probes_sound(&self, tolerance: int, accuracy: int, pt: Point) {
        assert(self.as_rounded_rect_spec() == Some(*self));
    }

    fn path_elements(&self, tolerance: i64) -> (els: Vec<PathEl>) {
        let x0 = self.rect.x0;
        let y0 = self.rect.y0;
        let x1 = self.rect.x1;
        let y1 = self.rect.y1;
        let r = self.radius;
        let kk = r * ARC_MAGIC_NUM / ARC_MAGIC_DEN;
        proof {
            assert(0 <= r as int * 5523 / 10000 <= r as int) by (nonlinear_arith)
                requires r as int >= 0;
        }
        let q0 = Cubic {
            p0: Point { x: x1 - r, y: y0 },
            p1: Point { x: x1 - r + kk, y: y0 },
            p2: Point { x: x1, y: y0 + r - kk },
            p3: Point { x: x1, y: y0 + r },
        };
        let q1 = Cubic {
            p0: Point { x: x1, y: y1 - r },
            p1: Point { x: x1, y: y1 - r + kk },
            p2: Point { x: x1 - r + kk, y: y1 },
            p3: Point { x: x1 - r, y: y1 },
        };
        let q2 = Cubic {
            p0: Point { x: x0 + r, y: y1 },
            p1: Point { x: x0 + r - kk, y: y1 },
            p2: Point { x: x0, y: y1 - r + kk },
            p3: Point { x: x0, y: y1 - r },
        };
        let q3 = Cubic {
            p0: Point { x: x0, y: y0 + r },
            p1: Point { x: x0, y: y0 + r - kk },
            p2: Point { x: x0 + r - kk, y: y0 },
            p3: Point { x: x0 + r, y: y0 },
        };
        proof {
            assert(q0 == self.spec_corner(0));
            assert(q1 == self.spec_corner(1));
            assert(q2 == self.spec_corner(2));
            assert(q3 == self.spec_corner(3));
        }
        let lev = subdiv_levels(r, tolerance);
        let mut els: Vec<PathEl> = Vec::new();
        els.push(PathEl::MoveTo(Point { x: x0 + r, y: y0 }));
        els.push(PathEl::LineTo(Point { x: x1 - r, y: y0 }));
        let v0 = split_cubic(q0, lev);
        push_curves(&mut els, &v0);
        els.push(PathEl::LineTo(Point { x: x1, y: y1 - r }));
        let v1 = split_cubic(q1, lev);
        push_curves(&mut els, &v1);
        els.push(PathEl::LineTo(Point { x: x0 + r, y: y1 }));
        let v2 = split_cubic(q2, lev);
        push_curves(&mut els, &v2);
        els.push(PathEl::LineTo(Point { x: x0, y: y0 + r }));
        let v3 = split_cubic(q3, lev);
        push_curves(&mut els, &v3);
        els.push(PathEl::ClosePath);
        proof {
            assert(els@ =~= self.elements_spec(tolerance as int));
        }
        els
    }

    fn area(&self) -> (a: i64) {
        let w = self.rect.x1 - self.rect.x0;
        let h = self.rect.y1 - self.rect.y0;
        let r = self.radius;
        proof {
            lemma_mul_bound(w as int, h as int, 2 * COORD_LIMIT as int);
            assert(0 <= 4 * (r as int) * (r as int) <= 0x40000000000) by (nonlinear_arith)
                requires 0 <= r as int <= COORD_LIMIT as int;
            assert(0 <= (355 * r as int) * (r as int) <= 0x2000000000000) by (nonlinear_arith)
                requires 0 <= r as int <= COORD_LIMIT as int;
        }
        w * h - 4 * r * r + 355 * r * r / 113
    }

    fn perimeter(&self, accuracy: i64) -> (p: i64) {
        let w = self.rect.x1 - self.rect.x0;
        let h = self.rect.y1 - self.rect.y0;
        let r = self.radius;
        2 * (w + h) - 8 * r + 710 * r / 113
    }

    fn winding(&self, pt: Point) -> (w: i32) {
        let x0 = self.rect.x0;
        let y0 = self.rect.y0;
        let x1 = self.rect.x1;
        let y1 = self.rect.y1;
        let r = self.radius;
        if !(x0 < pt.x && pt.x < x1 && y0 < pt.y && pt.y < y1) {
            return 0;
        }
        proof {
            lemma_mul_bound(r as int, r as int, COORD_LIMIT as int);
        }
        let rr = r * r;
        if pt.x < x0 + r && pt.y < y0 + r {
            if !Self::in_quarter(pt, x0 + r, y0 + r, rr) {
                return 0;
            }
        }
        if pt.x > x1 - r && pt.y < y0 + r {
            if !Self::in_quarter(pt, x1 - r, y0 + r, rr) {
                return 0;
            }
        }
        if pt.x < x0 + r && pt.y > y1 - r {
            if !Self::in_quarter(pt, x0 + r, y1 - r, rr) {
                return 0;
            }
        }
        if pt.x > x1 - r && pt.y > y1 - r {
            if !Self::in_quarter(pt, x1 - r, y1 - r, rr) {
                return 0;
            }
        }
        1
    }

    fn bounding_box(&self) -> (r: Rect) {
        Rect { x0: self.rect.x0, y0: self.rect.y0, x1: self.rect.x1, y1: self.rect.y1 }
    }

    fn as_line(&self) -> (r: Option<Line>) {
        None
    }

    fn as_rect(&self) -> (r: Option<Rect>) {
        None
    }

    fn as_rounded_rect(&self) -> (r: Option<RoundedRect>) {
        Some(*self)
    }

    fn as_circle(&self) -> (r: Option<Circle>) {
        None
    }

    fn as_path_slice(&self) -> (r: Option<&[PathEl]>) {
        None
    }
}

impl RoundedRect {
    /// Is the point strictly within the circle of squared radius `rr`
    /// centered at `(cx, cy)`?
    fn in_quarter(pt: Point, cx: i64, cy: i64, rr: i64) -> (b: bool)
        requires
            pt.wf(),
            crate::geom::coord_ok(cx as int),
            crate::geom::coord_ok(cy as int),
        ensures
            b == ((pt.x - cx) * (pt.x - cx) + (pt.y - cy) * (pt.y - cy) < rr),
    {
        let dx = pt.x - cx;
        let dy = pt.y - cy;
        proof {
            lemma_mul_bound(dx as int, dx as int, 2 * COORD_LIMIT as int);
            lemma_mul_bound(dy as int, dy as int, 2 * COORD_LIMIT as int);
            assert(dx as int * dx as int >= 0) by (nonlinear_arith);
            assert(dy as int * dy as int >= 0) by (nonlinear_arith);
        }
        dx * dx + dy * dy < rr
    }
}

/// Law: tightening the tolerance never produces fewer elements. A
/// rounded rectangle's outline at a smaller tolerance has at least as
/// many elements as at a larger one; its topology — one move, four
/// straight runs, four refined corner arcs, one close — is the same at
/// every tolerance.
pub proof fn lemma_rounded_rect_elements_monotone(s: RoundedRect, t1: int, t2: int)
    requires
        t1 <= t2,
    ensures
        Shape::elements_spec(&s, t1).len() >= Shape::elements_spec(&s, t2).len(),
{
    let k1 = levels_of(s.radius as int, t1);
    let k2 = levels_of(s.radius as int, t2);
    crate::arc::lemma_levels_of_antitone(s.radius as int, t1, t2);
    lemma_pow2_monotone(k2, k1);
    crate::arc::lemma_split_levels_len(s.spec_corner(0), k1);
    crate::arc::lemma_split_levels_len(s.spec_corner(1), k1);
    crate::arc::lemma_split_levels_len(s.spec_corner(2), k1);
    crate::arc::lemma_split_levels_len(s.spec_corner(3), k1);
    crate::arc::lemma_split_levels_len(s.spec_corner(0), k2);
    crate::arc::lemma_split_levels_len(s.spec_corner(1), k2);
    crate::arc::lemma_split_levels_len(s.spec_corner(2), k2);
    crate::arc::lemma_split_levels_len(s.spec_corner(3), k2);
    assert(Shape::elements_spec(&s, t1).len() == 6 + 4 * pow2(k1));
    assert(Shape::elements_spec(&s, t2).len() == 6 + 4 * pow2(k2));
}

/// Law: a rounded rectangle's winding sign agrees with its area sign.
/// The area is never negative, the winding of no point is negative, and
/// every point strictly inside has winding one.
pub proof fn lemma_rounded_rect_winding_matches_area(s: RoundedRect, pt: Point)
    requires
        s.wf(),
    ensures
        Shape::area_spec(&s) >= 0,
        Shape::winding_spec(&s, pt) >= 0,
        s.spec_inside(pt) ==> Shape::winding_spec(&s, pt) == 1,
{
    let w = s.rect.spec_width();
    let h = s.rect.spec_height();
    let r = s.radius as int;
    assert(w * h >= 4 * r * r) by (nonlinear_arith)
        requires 0 <= r && 2 * r <= w && 2 * r <= h;
    assert(355 * r * r / 113 >= 0) by (nonlinear_arith)
        requires r >= 0;
}

} // verus!
