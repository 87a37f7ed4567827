//! A circle, given by center and radius.

use vstd::prelude::*;
use crate::arc::{
    curve_els, lemma_pow2_monotone, lemma_split_levels, levels_of, pow2, push_curves, split_cubic,
    split_levels,
    subdiv_levels, Cubic, ARC_MAGIC_DEN, ARC_MAGIC_NUM,
};
use crate::arith::{lemma_concat_all, lemma_mul_bound};
use crate::bez_path::els_wf;
use crate::geom::{coord_ok, COORD_LIMIT, PathEl, Point};
use crate::line::Line;
use crate::rect::{el_in_rect, Rect};
use crate::rounded_rect::RoundedRect;
use crate::shape::Shape;

verus! {

/// A circle of the given center and radius.
#[derive(Clone, Copy, Debug, PartialEq, Eq, Structural)]
pub struct Circle {
    pub center: Point,
    pub radius: i64,
}

impl Circle {
    /// The radius is non-negative and the whole disc lies within the
    /// coordinate domain.
    pub open spec fn wf(self) -> bool {
        &&& self.radius >= 0
        &&& coord_ok(self.center.x - self.radius)
        &&& coord_ok(self.center.x + self.radius)
        &&& coord_ok(self.center.y - self.radius)
        &&& coord_ok(self.center.y + self.radius)
    }

    pub fn new(center: Point, radius: i64) -> (c: Circle)
        ensures
            c == (Circle { center, radius }),
    {
        Circle { center, radius }
    }

    /// Where the outline starts: the point of largest x on the circle.
    pub open spec fn spec_start(self) -> Point {
        Point { x: (self.center.x + self.radius) as i64, y: self.center.y }
    }

    /// The tangent length of the quarter-arc cubics' control points.
    pub open spec fn spec_kk(self) -> int {
        self.radius as int * (ARC_MAGIC_NUM as int) / (ARC_MAGIC_DEN as int)
    }

    /// The `j`-th of the four quarter-arc cubics, running anticlockwise
    /// (in y-up orientation) from the start point.
    pub open spec fn spec_quarter(self, j: int) -> Cubic {
        let cx = self.center.x as int;
        let cy = self.center.y as int;
        let r = self.radius as int;
        let kk = self.spec_kk();
        if j == 0 {
            Cubic {
                p0: Point { x: (cx + r) as i64, y: cy as i64 },
                p1: Point { x: (cx + r) as i64, y: (cy + kk) as i64 },
                p2: Point { x: (cx + kk) as i64, y: (cy + r) as i64 },
                p3: Point { x: cx as i64, y: (cy + r) as i64 },
            }
        } else if j == 1 {
            Cubic {
                p0: Point { x: cx as i64, y: (cy + r) as i64 },
                p1: Point { x: (cx - kk) as i64, y: (cy + r) as i64 },
                p2: Point { x: (cx - r) as i64, y: (cy + kk) as i64 },
                p3: Point { x: (cx - r) as i64, y: cy as i64 },
            }
        } else if j == 2 {
            Cubic {
                p0: Point { x: (cx - r) as i64, y: cy as i64 },
                p1: Point { x: (cx - r) as i64, y: (cy - kk) as i64 },
                p2: Point { x: (cx - kk) as i64, y: (cy - r) as i64 },
                p3: Point { x: cx as i64, y: (cy - r) as i64 },
            }
        } else {
            Cubic {
                p0: Point { x: cx as i64, y: (cy - r) as i64 },
                p1: Point { x: (cx + kk) as i64, y: (cy - r) as i64 },
                p2: Point { x: (cx + r) as i64, y: (cy - kk) as i64 },
                p3: Point { x: (cx + r) as i64, y: cy as i64 },
            }
        }
    }

    /// Is the point strictly inside the circle?
    pub open spec fn spec_inside(self, pt: Point) -> bool {
        let dx = pt.x - self.center.x;
        let dy = pt.y - self.center.y;
        dx * dx + dy * dy < self.radius * self.radius
    }

    /// The circle's outline at a tolerance: a move, the four quarter
    /// arcs refined to the tolerance's level, and a close.
    pub open spec fn spec_elements(self, tolerance: int) -> Seq<PathEl> {
        let k = levels_of(self.radius as int, tolerance);
        seq![PathEl::MoveTo(self.spec_start())] + curve_els(split_levels(self.spec_quarter(0), k))
            + curve_els(split_levels(self.spec_quarter(1), k)) + curve_els(
            split_levels(self.spec_quarter(2), k),
        ) + curve_els(split_levels(self.spec_quarter(3), k)) + seq![PathEl::ClosePath]
    }

    /// The disc area `pi * r * r`, with `pi` taken as `355 / 113`.
    pub open spec fn spec_area(self) -> int {
        355 * (self.radius as int) * (self.radius as int) / 113
    }

    /// The circumference `2 * pi * r`, with `pi` taken as `355 / 113`.
    pub open spec fn spec_perimeter(self) -> int {
        710 * (self.radius as int) / 113
    }

    /// One for points strictly inside the disc, zero otherwise.
    pub open spec fn spec_winding(self, pt: Point) -> int {
        if self.spec_inside(pt) {
            1int
        } else {
            0int
        }
    }

    /// The square around the disc.
    pub open spec fn spec_bbox(self) -> Rect {
        Rect {
            x0: (self.center.x - self.radius) as i64,
            y0: (self.center.y - self.radius) as i64,
            x1: (self.center.x + self.radius) as i64,
            y1: (self.center.y + self.radius) as i64,
        }
    }

    /// The tangent length lies between zero and the radius.
    proof fn lemma_kk_bounds(self)
        requires
            self.radius >= 0,
        ensures
            0 <= self.spec_kk() <= self.radius,
    {
        let r = self.radius as int;
        assert(0 <= r * 5523 / 10000 <= r) by (nonlinear_arith)
            requires r >= 0;
    }
}

impl Shape for Circle {
    open spec fn wf(&self) -> bool {
        Circle::wf(*self)
    }

    open spec fn elements_spec(&self, tolerance: int) -> Seq<PathEl> {
        self.spec_elements(tolerance)
    }

    open spec fn is_closed(&self) -> bool {
        true
    }

    /// The disc area `pi * r * r`, with `pi` taken as `355 / 113`.
    open spec fn area_spec(&self) -> int {
        self.spec_area()
    }

    /// The circumference `2 * pi * r`, with `pi` taken as `355 / 113`.
    open spec fn perimeter_spec(&self, accuracy: int) -> int {
        self.spec_perimeter()
    }

    /// One for points strictly inside the disc, zero otherwise.
    open spec fn winding_spec(&self, pt: Point) -> int {
        self.spec_winding(pt)
    }

    open spec fn bounding_box_spec(&self) -> Rect {
        self.spec_bbox()
    }

    open spec fn as_line_spec(&self) -> Option<Line> {
        None
    }

    open spec fn as_rect_spec(&self) -> Option<Rect> {
        None
    }

    open spec fn as_rounded_rect_spec(&self) -> Option<RoundedRect> {
        None
    }

    open spec fn as_circle_spec(&self) -> Option<Circle> {
        Some(*self)
    }

    open spec fn as_path_slice_spec(&self) -> Option<Seq<PathEl>> {
        None
    }

    #[verifier::rlimit(60)]
    proof fn lemma_elements_wf(&self, tolerance: int) {
        assert(self.is_closed());
        assert(self.as_path_slice_spec() is None);
        let bb = self.bounding_box_spec();
        let k = levels_of(self.radius as int, tolerance);
        let e = self.elements_spec(tolerance);
        self.lemma_kk_bounds();
        crate::arc::lemma_levels_rec_le_fuel(
            self.radius as int * 27 / 100000,
            tolerance,
            crate::arc::MAX_LEVELS as nat,
        );
        assert(self.radius as int * 27 / 100000 >= 0) by (nonlinear_arith)
            requires self.radius >= 0;
        lemma_pow2_monotone(k, crate::arc::MAX_LEVELS as nat);
        let p = |el: PathEl| el.wf() && el_in_rect(el, bb);
        let m = seq![PathEl::MoveTo(self.spec_start())];
        let z = seq![PathEl::ClosePath];
        let c0 = curve_els(split_levels(self.spec_quarter(0), k));
        let c1 = curve_els(split_levels(self.spec_quarter(1), k));
        let c2 = curve_els(split_levels(self.spec_quarter(2), k));
        let c3 = curve_els(split_levels(self.spec_quarter(3), k));
        lemma_split_levels(self.spec_quarter(0), k, bb);
        lemma_split_levels(self.spec_quarter(1), k, bb);
        lemma_split_levels(self.spec_quarter(2), k, bb);
        lemma_split_levels(self.spec_quarter(3), k, bb);
        assert(forall|i: int| 0 <= i < m.len() ==> p(#[trigger] m[i]));
        assert(forall|i: int| 0 <= i < c0.len() ==> p(#[trigger] c0[i]));
        assert(forall|i: int| 0 <= i < c1.len() ==> p(#[trigger] c1[i]));
        assert(forall|i: int| 0 <= i < c2.len() ==> p(#[trigger] c2[i]));
        assert(forall|i: int| 0 <= i < c3.len() ==> p(#[trigger] c3[i]));
        assert(forall|i: int| 0 <= i < z.len() ==> p(#[trigger] z[i]));
        lemma_concat_all(m, c0, p);
        lemma_concat_all(m + c0, c1, p);
        lemma_concat_all(m + c0 + c1, c2, p);
        lemma_concat_all(m + c0 + c1 + c2, c3, p);
        lemma_concat_all(m + c0 + c1 + c2 + c3, z, p);
        assert(e == m + c0 + c1 + c2 + c3 + z);
        assert(forall|i: int| 0 <= i < e.len() ==> p(#[trigger] e[i]));
        assert(e.len() == 2 + 4 * pow2(k));
        reveal_with_fuel(pow2, 9);
        assert(pow2(crate::arc::MAX_LEVELS as nat) == 256);
        assert(e[0] == PathEl::MoveTo(self.spec_start()));
        assert(e.last() == PathEl::ClosePath);
        assert(forall|i: int| 0 <= i < e.len() ==> (#[trigger] e[i]).wf());
        assert(forall|i: int| 0 <= i < e.len() ==> el_in_rect(#[trigger] e[i], bb));
        assert(els_wf(e));
    }

    proof fn lemma_winding_outside_box(&self, pt: Point) {
        let bb = self.bounding_box_spec();
        if !crate::rect::pt_in_rect(pt, bb) {
            let dx = pt.x - self.center.x;
            let dy = pt.y - self.center.y;
            let r = self.radius as int;
            assert(dx > r || dx < -r || dy > r || dy < -r);
            assert(dx * dx + dy * dy >= r * r) by (nonlinear_arith)
                requires
                    r >= 0,
                    dx > r || dx < -r || dy > r || dy < -r,
            ;
            assert(!self.spec_inside(pt));
        }
    }

    proof fn lemma_probes_exclusive(&self) {
    }

    proof fn lemma_probes_sound(&self, tolerance: int, accuracy: int, pt: Point) {
        assert(self.as_circle_spec() == Some(*self));
    }

    fn path_elements(&self, tolerance: i64) -> (els: Vec<PathEl>) {
        let cx = self.center.x;
        let cy = self.center.y;
        let r = self.radius;
        let kk = r * ARC_MAGIC_NUM / ARC_MAGIC_DEN;
        proof {
            self.lemma_kk_bounds();
        }
        let q0 = Cubic {
            p0: Point { x: cx + r, y: cy },
            p1: Point { x: cx + r, y: cy + kk },
            p2: Point { x: cx + kk, y: cy + r },
            p3: Point { x: cx, y: cy + r },
        };
        let q1 = Cubic {
            p0: Point { x: cx, y: cy + r },
            p1: Point { x: cx - kk, y: cy + r },
            p2: Point { x: cx - r, y: cy + kk },
            p3: Point { x: cx - r, y: cy },
        };
        let q2 = Cubic {
            p0: Point { x: cx - r, y: cy },
            p1: Point { x: cx - r, y: cy - kk },
            p2: Point { x: cx - kk, y: cy - r },
            p3: Point { x: cx, y: cy - r },
        };
        let q3 = Cubic {
            p0: Point { x: cx, y: cy - r },
            p1: Point { x: cx + kk, y: cy - r },
            p2: Point { x: cx + r, y: cy - kk },
            p3: Point { x: cx + r, y: cy },
        };
        proof {
            assert(q0 == self.spec_quarter(0));
            assert(q1 == self.spec_quarter(1));
            assert(q2 == self.spec_quarter(2));
            assert(q3 == self.spec_quarter(3));
        }
        let lev = subdiv_levels(r, tolerance);
        let mut els: Vec<PathEl> = Vec::new();
        els.push(PathEl::MoveTo(Point { x: cx + r, y: cy }));
        let v0 = split_cubic(q0, lev);
        push_curves(&mut els, &v0);
        let v1 = split_cubic(q1, lev);
        push_curves(&mut els, &v1);
        let v2 = split_cubic(q2, lev);
        push_curves(&mut els, &v2);
        let v3 = split_cubic(q3, lev);
        push_curves(&mut els, &v3);
        els.push(PathEl::ClosePath);
        proof {
            assert(els@ =~= self.elements_spec(tolerance as int));
        }
        els
    }

    fn area(&self) -> (a: i64) {
        let r = self.radius;
        proof {
            assert(0 <= (355 * r as int) * (r as int) <= 0x2000000000000) by (nonlinear_arith)
                requires 0 <= r as int <= COORD_LIMIT as int;
        }
        355 * r * r / 113
    }

    fn perimeter(&self, accuracy: i64) -> (p: i64) {
        710 * self.radius / 113
    }

    fn winding(&self, pt: Point) -> (w: i32) {
        let dx = pt.x - self.center.x;
        let dy = pt.y - self.center.y;
        proof {
            lemma_mul_bound(dx as int, dx as int, 2 * COORD_LIMIT as int);
            lemma_mul_bound(dy as int, dy as int, 2 * COORD_LIMIT as int);
            lemma_mul_bound(self.radius as int, self.radius as int, COORD_LIMIT as int);
            assert(dx as int * dx as int >= 0) by (nonlinear_arith);
            assert(dy as int * dy as int >= 0) by (nonlinear_arith);
        }
        if dx * dx + dy * dy < self.radius * self.radius {
            1
        } else {
            0
        }
    }

    fn bounding_box(&self) -> (r: Rect) {
        Rect {
            x0: self.center.x - self.radius,
            y0: self.center.y - self.radius,
            x1: self.center.x + self.radius,
            y1: self.center.y + self.radius,
        }
    }

    fn as_line(&self) -> (r: Option<Line>) {
        None
    }

    fn as_rect(&self) -> (r: Option<Rect>) {
        None
    }

    fn as_rounded_rect(&self) -> (r: Option<RoundedRect>) {
        None
    }

    fn as_circle(&self) -> (r: Option<Circle>) {
        Some(*self)
    }

    fn as_path_slice(&self) -> (r: Option<&[PathEl]>) {
        None
    }
}

/// Law: tightening the tolerance never produces fewer elements. A
/// circle's outline at a smaller tolerance has at least as many elements
/// as at a larger one; its topology — one move, four refined arcs, one
/// close — is the same at every tolerance.
pub proof fn lemma_circle_elements_monotone(c: Circle, t1: int, t2: int)
    requires
        t1 <= t2,
    ensures
        Shape::elements_spec(&c, t1).len() >= Shape::elements_spec(&c, t2).len(),
{
    let k1 = levels_of(c.radius as int, t1);
    let k2 = levels_of(c.radius as int, t2);
    crate::arc::lemma_levels_of_antitone(c.radius as int, t1, t2);
    lemma_pow2_monotone(k2, k1);
    crate::arc::lemma_split_levels_len(c.spec_quarter(0), k1);
    crate::arc::lemma_split_levels_len(c.spec_quarter(1), k1);
    crate::arc::lemma_split_levels_len(c.spec_quarter(2), k1);
    crate::arc::lemma_split_levels_len(c.spec_quarter(3), k1);
    crate::arc::lemma_split_levels_len(c.spec_quarter(0), k2);
    crate::arc::lemma_split_levels_len(c.spec_quarter(1), k2);
    crate::arc::lemma_split_levels_len(c.spec_quarter(2), k2);
    crate::arc::lemma_split_levels_len(c.spec_quarter(3), k2);
    assert(Shape::elements_spec(&c, t1).len() == 2 + 4 * pow2(k1));
    assert(Shape::elements_spec(&c, t2).len() == 2 + 4 * pow2(k2));
}

/// Law: a circle's winding sign agrees with its area sign. The area is
/// never negative, the winding of no point is negative, and every point
/// strictly inside the disc has winding one.
pub proof fn lemma_circle_winding_matches_area(c: Circle, pt: Point)
    requires
        c.wf(),
    ensures
        Shape::area_spec(&c) >= 0,
        Shape::winding_spec(&c, pt) >= 0,
        c.spec_inside(pt) ==> Shape::winding_spec(&c, pt) == 1,
{
    let r = c.radius as int;
    assert(355 * r * r / 113 >= 0) by (nonlinear_arith)
        requires r >= 0;
}

} // verus!
