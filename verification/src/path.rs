//! Grouping a sequence of path elements into resolved path segments:
//! each run of drawing elements between moves and closes becomes a run of
//! segments that carry their start points explicitly.

use vstd::prelude::*;
use crate::geom::{Point, PathEl, PathSeg};

verus! {

/// The segments of the elements still to be read, given the start point
/// of the current subpath and the current point. A close emits the line
/// back to the subpath's start only when the current point is not already
/// there.
pub open spec fn segs_from(els: Seq<PathEl>, start: Point, cur: Point) -> Seq<PathSeg>
    decreases els.len(),
{
    if els.len() == 0 {
        Seq::empty()
    } else {
        let rest = els.drop_first();
        match els[0] {
            PathEl::MoveTo(p) => segs_from(rest, p, p),
            PathEl::LineTo(p) => seq![PathSeg::Line(cur, p)] + segs_from(rest, start, p),
            PathEl::QuadTo(p1, p2) => seq![PathSeg::Quad(cur, p1, p2)] + segs_from(
                rest,
                start,
                p2,
            ),
            PathEl::CurveTo(p1, p2, p3) => seq![PathSeg::Cubic(cur, p1, p2, p3)] + segs_from(
                rest,
                start,
                p3,
            ),
            PathEl::ClosePath => if cur == start {
                segs_from(rest, start, cur)
            } else {
                seq![PathSeg::Line(cur, start)] + segs_from(rest, start, start)
            },
        }
    }
}

/// The segments of an element sequence. Before the first move the start
/// and current points are the origin.
pub open spec fn segments_of(els: Seq<PathEl>) -> Seq<PathSeg> {
    segs_from(els, Point { x: 0, y: 0 }, Point { x: 0, y: 0 })
}

/// Group an element sequence into resolved segments.
pub fn segments(els: &Vec<PathEl>) -> (segs: Vec<PathSeg>)
    ensures
        segs@ == segments_of(els@),
{
    let mut out: Vec<PathSeg> = Vec::new();
    let mut start = Point { x: 0, y: 0 };
    let mut cur = Point { x: 0, y: 0 };
    let mut i: usize = 0;
    assert(els@.skip(0) =~= els@);
    assert(out@ + segs_from(els@, start, cur) =~= segs_from(els@, start, cur));
    while i < els.len()
        invariant
            0 <= i <= els@.len(),
            segments_of(els@) == out@ + segs_from(els@.skip(i as int), start, cur),
        decreases els@.len() - i,
    {
        let ghost pending = els@.skip(i as int);
        assert(pending[0] == els@[i as int]);
        assert(pending.drop_first() =~= els@.skip(i as int + 1));
        match els[i] {
            PathEl::MoveTo(p) => {
                start = p;
                cur = p;
            },
            PathEl::LineTo(p) => {
                out.push(PathSeg::Line(cur, p));
                cur = p;
            },
            PathEl::QuadTo(p1, p2) => {
                out.push(PathSeg::Quad(cur, p1, p2));
                cur = p2;
            },
            PathEl::CurveTo(p1, p2, p3) => {
                out.push(PathSeg::Cubic(cur, p1, p2, p3));
                cur = p3;
            },
            PathEl::ClosePath => {
                if !(cur.x == start.x && cur.y == start.y) {
                    out.push(PathSeg::Line(cur, start));
                    cur = start;
                }
            },
        }
        i = i + 1;
        assert(segments_of(els@) == out@ + segs_from(els@.skip(i as int), start, cur));
    }
    assert(els@.skip(els@.len() as int) =~= Seq::<PathEl>::empty());
    assert(out@ + Seq::<PathSeg>::empty() =~= out@);
    out
}

} // verus!
