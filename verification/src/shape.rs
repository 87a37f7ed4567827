//! The capability set every shape satisfies: tolerance-controlled
//! conversion to a Bézier outline, measurement, and constant-time
//! identity-recovery probes. A borrowed view of a shape satisfies the
//! same set by forwarding.

use vstd::prelude::*;
use crate::geom::{PathEl, PathSeg, Point};
use crate::rect::{el_in_rect, pt_in_rect, Rect};
use crate::line::Line;
use crate::circle::Circle;
use crate::rounded_rect::RoundedRect;
use crate::bez_path::{els_wf, BezPath};
use crate::path::{segments, segments_of};

verus! {

/// The capability set of an open or closed shape.
///
/// Conversion: [`Shape::path_elements`] yields the shape as Bézier path
/// elements at a caller-chosen tolerance; `to_path` and `into_path`
/// materialize that sequence into a retained [`BezPath`], and
/// `path_segments` groups it into resolved segments. Measurement: signed
/// `area`, `perimeter`, `winding` and `bounding_box`. Identity recovery:
/// the `as_` probes answer in constant time with the exact concrete
/// primitive the shape is, or decline.
///
/// The sign convention for `area` is positive when y increases while x is
/// positive: clockwise when y grows downward (the usual graphics
/// convention), anticlockwise when y grows upward (the usual mathematical
/// one). The sign of `winding` agrees with the sign of `area`: a point
/// inside a positive-area shape has positive winding. `area` and
/// `winding` are meaningful only for closed shapes; open shapes may
/// return anything there and callers must not rely on it.
pub trait Shape: Sized {
    /// The shape lies within the library's coordinate domain.
    spec fn wf(&self) -> bool;

    /// The element sequence the shape produces at the given tolerance.
    spec fn elements_spec(&self, tolerance: int) -> Seq<PathEl>;

    /// Is the shape closed? Area and winding are meaningful only then.
    spec fn is_closed(&self) -> bool;

    /// The signed area the shape's `area` method returns.
    spec fn area_spec(&self) -> int;

    /// The perimeter the shape's `perimeter` method returns.
    spec fn perimeter_spec(&self, accuracy: int) -> int;

    /// The winding number the shape's `winding` method returns.
    spec fn winding_spec(&self, pt: Point) -> int;

    /// The bounding box the shape's `bounding_box` method returns.
    spec fn bounding_box_spec(&self) -> Rect;

    /// What the `as_line` probe answers.
    spec fn as_line_spec(&self) -> Option<Line>;

    /// What the `as_rect` probe answers.
    spec fn as_rect_spec(&self) -> Option<Rect>;

    /// What the `as_rounded_rect` probe answers.
    spec fn as_rounded_rect_spec(&self) -> Option<RoundedRect>;

    /// What the `as_circle` probe answers.
    spec fn as_circle_spec(&self) -> Option<Circle>;

    /// What the `as_path_slice` probe answers.
    spec fn as_path_slice_spec(&self) -> Option<Seq<PathEl>>;

    /// Law: at any tolerance the element sequence is a well-formed
    /// outline — it begins with a move, and it ends with a close exactly
    /// when the shape is closed, so the tolerance can change only the
    /// number of elements, never the topology — every point it carries
    /// lies in the shape's bounding box, which is a well-formed ordered
    /// rectangle, and when the element-slice probe answers, its payload
    /// is that same element sequence.
    proof fn lemma_elements_wf(&self, tolerance: int)
        requires
            self.wf(),
            tolerance >= 0,
        ensures
            els_wf(self.elements_spec(tolerance)),
            self.is_closed() <==> (self.elements_spec(tolerance).len() > 0 && self.elements_spec(
                tolerance,
            ).last() is ClosePath),
            self.bounding_box_spec().wf(),
            self.bounding_box_spec().sorted(),
            forall|i: int|
                0 <= i < self.elements_spec(tolerance).len() ==> el_in_rect(
                    #[trigger] self.elements_spec(tolerance)[i],
                    self.bounding_box_spec(),
                ),
            self.as_path_slice_spec() matches Some(sl) ==> sl == self.elements_spec(tolerance),
    ;

    /// Law: a closed shape cannot wind around a point outside its
    /// bounding box. The box encloses every point the outline can
    /// produce, so any point strictly outside it has winding zero.
    proof fn lemma_winding_outside_box(&self, pt: Point)
        requires
            self.wf(),
        ensures
            self.is_closed() && !pt_in_rect(pt, self.bounding_box_spec())
                ==> self.winding_spec(pt) == 0,
    ;

    /// Law: an identity-recovery probe that answers returns the exact
    /// shape. The recovered primitive produces the same element
    /// sequence and measures the same as the probed value in every
    /// operation, so a generic algorithm that special-cases a probe
    /// result changes no outcome, only cost.
    proof fn lemma_probes_sound(&self, tolerance: int, accuracy: int, pt: Point)
        ensures
            self.as_line_spec() matches Some(l) ==> l.wf() == self.wf()
                && self.elements_spec(tolerance) == l.spec_elements() && !self.is_closed()
                && self.area_spec() == 0 && self.perimeter_spec(accuracy) == l.spec_perimeter()
                && self.winding_spec(pt) == 0 && self.bounding_box_spec() == l.spec_bbox(),
            self.as_rect_spec() matches Some(r) ==> Rect::wf(r) == self.wf()
                && self.elements_spec(tolerance) == r.spec_elements() && self.is_closed()
                && self.area_spec() == r.spec_area() && self.perimeter_spec(accuracy)
                == r.spec_perimeter() && self.winding_spec(pt) == r.spec_winding(pt)
                && self.bounding_box_spec() == r.spec_abs(),
            self.as_rounded_rect_spec() matches Some(rr) ==> rr.wf() == self.wf()
                && self.elements_spec(tolerance) == rr.spec_elements(tolerance)
                && self.is_closed() && self.area_spec() == rr.spec_area()
                && self.perimeter_spec(accuracy) == rr.spec_perimeter() && self.winding_spec(pt)
                == rr.spec_winding(pt) && self.bounding_box_spec() == rr.rect,
            self.as_circle_spec() matches Some(c) ==> c.wf() == self.wf()
                && self.elements_spec(tolerance) == c.spec_elements(tolerance)
                && self.is_closed() && self.area_spec() == c.spec_area()
                && self.perimeter_spec(accuracy) == c.spec_perimeter() && self.winding_spec(pt)
                == c.spec_winding(pt) && self.bounding_box_spec() == c.spec_bbox(),
    ;

    /// Law: the identity-recovery probes are mutually exclusive. A shape
    /// that answers one of the four primitive probes declines the other
    /// three.
    proof fn lemma_probes_exclusive(&self)
        ensures
            self.as_line_spec() is Some ==> self.as_rect_spec() is None
                && self.as_rounded_rect_spec() is None && self.as_circle_spec() is None,
            self.as_rect_spec() is Some ==> self.as_line_spec() is None
                && self.as_rounded_rect_spec() is None && self.as_circle_spec() is None,
            self.as_rounded_rect_spec() is Some ==> self.as_line_spec() is None
                && self.as_rect_spec() is None && self.as_circle_spec() is None,
            self.as_circle_spec() is Some ==> self.as_line_spec() is None
                && self.as_rect_spec() is None && self.as_rounded_rect_spec() is None,
    ;

    /// The shape as a fresh, finite sequence of Bézier path elements.
    ///
    /// The tolerance controls how finely curved shapes are approximated
    /// by cubic segments; it affects only the number of segments, never
    /// whether the outline is closed. A tolerance of zero asks for the
    /// finest approximation the shape offers and still yields a finite
    /// sequence.
    fn path_elements(&self, tolerance: i64) -> (els: Vec<PathEl>)
        requires
            self.wf(),
            tolerance >= 0,
        ensures
            els@ == self.elements_spec(tolerance as int),
    ;

    /// Materialize the shape into a retained path. This always copies,
    /// even when the shape already is a retained path; callers holding
    /// one should pass it on instead.
    fn to_path(&self, tolerance: i64) -> (p: BezPath)
        requires
            self.wf(),
            tolerance >= 0,
        ensures
            p@ == self.elements_spec(tolerance as int),
            p.wf(),
    {
        let els = self.path_elements(tolerance);
        proof {
            self.lemma_elements_wf(tolerance as int);
        }
        BezPath::from_elements(els)
    }

    /// Consume the shape into a retained path. Produces element for
    /// element what `to_path` produces; a shape that already is a
    /// retained path is moved, not copied.
    fn into_path(self, tolerance: i64) -> (p: BezPath)
        requires
            self.wf(),
            tolerance >= 0,
        ensures
            p@ == self.elements_spec(tolerance as int),
            p.wf(),
    {
        self.to_path(tolerance)
    }

    /// The shape as resolved path segments: the element sequence grouped
    /// into maximal runs between moves and closes.
    fn path_segments(&self, tolerance: i64) -> (segs: Vec<PathSeg>)
        requires
            self.wf(),
            tolerance >= 0,
        ensures
            segs@ == segments_of(self.elements_spec(tolerance as int)),
    {
        let els = self.path_elements(tolerance);
        segments(&els)
    }

    /// Signed area, meaningful only for closed shapes.
    fn area(&self) -> (a: i64)
        requires
            self.wf(),
        ensures
            a as int == self.area_spec(),
    ;

    /// Total boundary length, never negative. The accuracy parameter is
    /// advisory; every shape here computes its perimeter exactly.
    fn perimeter(&self, accuracy: i64) -> (p: i64)
        requires
            self.wf(),
            accuracy >= 0,
        ensures
            p as int == self.perimeter_spec(accuracy as int),
            p >= 0,
    ;

    /// Winding number of a point, meaningful only for closed shapes. Its
    /// sign agrees with the sign of `area`.
    fn winding(&self, pt: Point) -> (w: i32)
        requires
            self.wf(),
            pt.wf(),
        ensures
            w as int == self.winding_spec(pt),
    ;

    /// The smallest axis-aligned rectangle enclosing the shape, with
    /// ordered corners.
    fn bounding_box(&self) -> (r: Rect)
        requires
            self.wf(),
        ensures
            r == self.bounding_box_spec(),
            r.wf(),
            r.sorted(),
    ;

    /// If the shape is exactly a line, its description; no computation,
    /// no approximation.
    fn as_line(&self) -> (r: Option<Line>)
        ensures
            r == self.as_line_spec(),
    ;

    /// If the shape is exactly a rectangle, its description. A retained
    /// path that merely traces a rectangle declines.
    fn as_rect(&self) -> (r: Option<Rect>)
        ensures
            r == self.as_rect_spec(),
    ;

    /// If the shape is exactly a rounded rectangle, its description.
    fn as_rounded_rect(&self) -> (r: Option<RoundedRect>)
        ensures
            r == self.as_rounded_rect_spec(),
    ;

    /// If the shape is exactly a circle, its description.
    fn as_circle(&self) -> (r: Option<Circle>)
        ensures
            r == self.as_circle_spec(),
    ;

    /// If the shape stores its outline contiguously, that storage, with
    /// no allocation and no re-derivation.
    fn as_path_slice(&self) -> (r: Option<&[PathEl]>)
        ensures
            match (r, self.as_path_slice_spec()) {
                (Some(s), Some(q)) => s@ == q,
                (None, None) => true,
                _ => false,
            },
    ;
}

/// A non-owning view of a shape. The view satisfies the full capability
/// set by forwarding every operation to the referenced shape, adding no
/// tolerance loss, no allocation and no failure mode of its own.
pub struct ShapeRef<'a, T: Shape> {
    pub inner: &'a T,
}

impl<'a, T: Shape> ShapeRef<'a, T> {
    /// View an existing shape.
    pub fn new(inner: &'a T) -> (v: ShapeRef<'a, T>)
        ensures
            v.inner == inner,
    {
        ShapeRef { inner }
    }
}

impl<'a, T: Shape> Shape for ShapeRef<'a, T> {
    open spec fn wf(&self) -> bool {
        self.inner.wf()
    }

    open spec fn elements_spec(&self, tolerance: int) -> Seq<PathEl> {
        self.inner.elements_spec(tolerance)
    }

    open spec fn is_closed(&self) -> bool {
        self.inner.is_closed()
    }

    open spec fn area_spec(&self) -> int {
        self.inner.area_spec()
    }

    open spec fn perimeter_spec(&self, accuracy: int) -> int {
        self.inner.perimeter_spec(accuracy)
    }

    open spec fn winding_spec(&self, pt: Point) -> int {
        self.inner.winding_spec(pt)
    }

    open spec fn bounding_box_spec(&self) -> Rect {
        self.inner.bounding_box_spec()
    }

    open spec fn as_line_spec(&self) -> Option<Line> {
        self.inner.as_line_spec()
    }

    open spec fn as_rect_spec(&self) -> Option<Rect> {
        self.inner.as_rect_spec()
    }

    open spec fn as_rounded_rect_spec(&self) -> Option<RoundedRect> {
        self.inner.as_rounded_rect_spec()
    }

    open spec fn as_circle_spec(&self) -> Option<Circle> {
        self.inner.as_circle_spec()
    }

    open spec fn as_path_slice_spec(&self) -> Option<Seq<PathEl>> {
        self.inner.as_path_slice_spec()
    }

    proof fn lemma_elements_wf(&self, tolerance: int) {
        self.inner.lemma_elements_wf(tolerance);
        assert(self.elements_spec(tolerance) == self.inner.elements_spec(tolerance));
        assert(self.bounding_box_spec() == self.inner.bounding_box_spec());
        assert(self.is_closed() == self.inner.is_closed());
        assert(self.as_path_slice_spec() == self.inner.as_path_slice_spec());
    }

    proof fn lemma_winding_outside_box(&self, pt: Point) {
        self.inner.lemma_winding_outside_box(pt);
        assert(self.bounding_box_spec() == self.inner.bounding_box_spec());
        assert(self.is_closed() == self.inner.is_closed());
        assert(self.winding_spec(pt) == self.inner.winding_spec(pt));
    }

    proof fn lemma_probes_exclusive(&self) {
        self.inner.lemma_probes_exclusive();
    }

    proof fn lemma_probes_sound(&self, tolerance: int, accuracy: int, pt: Point) {
        self.inner.lemma_probes_sound(tolerance, accuracy, pt);
        assert(self.as_line_spec() == self.inner.as_line_spec());
        assert(self.as_rect_spec() == self.inner.as_rect_spec());
        assert(self.as_rounded_rect_spec() == self.inner.as_rounded_rect_spec());
        assert(self.as_circle_spec() == self.inner.as_circle_spec());
        assert(self.wf() == self.inner.wf());
        assert(self.elements_spec(tolerance) == self.inner.elements_spec(tolerance));
        assert(self.is_closed() == self.inner.is_closed());
        assert(self.area_spec() == self.inner.area_spec());
        assert(self.perimeter_spec(accuracy) == self.inner.perimeter_spec(accuracy));
        assert(self.winding_spec(pt) == self.inner.winding_spec(pt));
        assert(self.bounding_box_spec() == self.inner.bounding_box_spec());
    }

    fn path_elements(&self, tolerance: i64) -> (els: Vec<PathEl>) {
        self.inner.path_elements(tolerance)
    }

    fn area(&self) -> (a: i64) {
        self.inner.area()
    }

    fn perimeter(&self, accuracy: i64) -> (p: i64) {
        self.inner.perimeter(accuracy)
    }

    fn winding(&self, pt: Point) -> (w: i32) {
        self.inner.winding(pt)
    }

    fn bounding_box(&self) -> (r: Rect) {
        self.inner.bounding_box()
    }

    fn as_line(&self) -> (r: Option<Line>) {
        self.inner.as_line()
    }

    fn as_rect(&self) -> (r: Option<Rect>) {
        self.inner.as_rect()
    }

    fn as_rounded_rect(&self) -> (r: Option<RoundedRect>) {
        self.inner.as_rounded_rect()
    }

    fn as_circle(&self) -> (r: Option<Circle>) {
        self.inner.as_circle()
    }

    fn as_path_slice(&self) -> (r: Option<&[PathEl]>) {
        self.inner.as_path_slice()
    }
}

/// Law: winding sign matches area sign, generically, for any shape that
/// answers the rectangle probe — a rectangle or a view of one. For a
/// point strictly inside, positive area forces winding one and negative
/// area winding minus one, stated over the generic shape's own
/// specifications.
pub proof fn lemma_probed_rect_winding_sign<T: Shape>(s: &T, pt: Point)
    requires
        s.as_rect_spec() is Some,
        s.as_rect_spec()->Some_0.spec_strictly_inside(pt),
    ensures
        s.area_spec() != 0,
        s.area_spec() > 0 ==> s.winding_spec(pt) == 1,
        s.area_spec() < 0 ==> s.winding_spec(pt) == -1,
{
    s.lemma_probes_sound(0, 0, pt);
    let r = s.as_rect_spec()->Some_0;
    crate::rect::lemma_rect_winding_matches_area(r, pt);
}

/// Law: consuming conversion matches materializing conversion. The
/// contracts of `to_path` and `into_path` pin both results to the one
/// sequence `elements_spec` gives for the shape and tolerance, so any
/// two paths satisfying them agree element for element.
pub proof fn lemma_owned_matches_materialized<T: Shape>(
    s: &T,
    tolerance: int,
    materialized: Seq<PathEl>,
    owned: Seq<PathEl>,
)
    requires
        materialized == s.elements_spec(tolerance),
        owned == s.elements_spec(tolerance),
    ensures
        materialized.len() == owned.len(),
        forall|i: int| 0 <= i < materialized.len() ==> materialized[i] == owned[i],
{
}

/// Law: a borrowed view is observationally the shape it references.
/// Every specification the view's operations are pinned to is the
/// referenced shape's own, so every operation returns the same value on
/// the view as on the shape.
pub proof fn lemma_view_equivalence<T: Shape>(s: &T, tolerance: int, accuracy: int, pt: Point)
    ensures
        (ShapeRef { inner: s }).wf() == s.wf(),
        (ShapeRef { inner: s }).is_closed() == s.is_closed(),
        (ShapeRef { inner: s }).elements_spec(tolerance) == s.elements_spec(tolerance),
        (ShapeRef { inner: s }).area_spec() == s.area_spec(),
        (ShapeRef { inner: s }).perimeter_spec(accuracy) == s.perimeter_spec(accuracy),
        (ShapeRef { inner: s }).winding_spec(pt) == s.winding_spec(pt),
        (ShapeRef { inner: s }).bounding_box_spec() == s.bounding_box_spec(),
        (ShapeRef { inner: s }).as_line_spec() == s.as_line_spec(),
        (ShapeRef { inner: s }).as_rect_spec() == s.as_rect_spec(),
        (ShapeRef { inner: s }).as_rounded_rect_spec() == s.as_rounded_rect_spec(),
        (ShapeRef { inner: s }).as_circle_spec() == s.as_circle_spec(),
        (ShapeRef { inner: s }).as_path_slice_spec() == s.as_path_slice_spec(),
{
}

} // verus!
