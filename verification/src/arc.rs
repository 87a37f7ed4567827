//! Cubic Bézier quarter arcs and their tolerance-controlled refinement.
//!
//! A quarter circle has no exact cubic representation; the classic
//! approximation places the two control points a fixed fraction of the
//! radius along the tangents. Refinement splits each cubic at its
//! midpoint — integer arithmetic only — doubling the segment count per
//! level; the level count grows as the tolerance shrinks and is capped,
//! so a tolerance of zero still yields a finite sequence.

use vstd::prelude::*;
use crate::geom::{midpoint, spec_midpoint, Point};
use crate::rect::{pt_in_rect, Rect};

verus! {

/// Numerator of the tangent-length fraction for a quarter-circle cubic
/// (the denominator is 10000): `0.5523` of the radius.
pub const ARC_MAGIC_NUM: i64 = 5523;

/// Denominator of the tangent-length fraction.
pub const ARC_MAGIC_DEN: i64 = 10000;

/// Numerator of the per-level error divisor: splitting a cubic at its
/// midpoint shrinks its distance to the true arc by about this factor.
pub const SPLIT_GAIN: i64 = 64;

/// Most refinement levels a conversion will use.
pub const MAX_LEVELS: u32 = 8;

/// One cubic Bézier curve.
#[derive(Clone, Copy, Debug, PartialEq, Eq, Structural)]
pub struct Cubic {
    pub p0: Point,
    pub p1: Point,
    pub p2: Point,
    pub p3: Point,
}

impl Cubic {
    /// All four points lie within the coordinate domain.
    pub open spec fn wf(self) -> bool {
        self.p0.wf() && self.p1.wf() && self.p2.wf() && self.p3.wf()
    }
}

/// Do all four points of the cubic lie in the rectangle?
pub open spec fn cubic_in_rect(c: Cubic, r: Rect) -> bool {
    pt_in_rect(c.p0, r) && pt_in_rect(c.p1, r) && pt_in_rect(c.p2, r) && pt_in_rect(c.p3, r)
}

/// The left half of a cubic split at its midpoint.
pub open spec fn spec_split_left(c: Cubic) -> Cubic {
    let m01 = spec_midpoint(c.p0, c.p1);
    let m12 = spec_midpoint(c.p1, c.p2);
    let m012 = spec_midpoint(m01, m12);
    let m23 = spec_midpoint(c.p2, c.p3);
    let m123 = spec_midpoint(m12, m23);
    let m = spec_midpoint(m012, m123);
    Cubic { p0: c.p0, p1: m01, p2: m012, p3: m }
}

/// The right half of a cubic split at its midpoint.
pub open spec fn spec_split_right(c: Cubic) -> Cubic {
    let m01 = spec_midpoint(c.p0, c.p1);
    let m12 = spec_midpoint(c.p1, c.p2);
    let m012 = spec_midpoint(m01, m12);
    let m23 = spec_midpoint(c.p2, c.p3);
    let m123 = spec_midpoint(m12, m23);
    let m = spec_midpoint(m012, m123);
    Cubic { p0: m, p1: m123, p2: m23, p3: c.p3 }
}

/// Two to the `k`.
pub open spec fn pow2(k: nat) -> nat
    decreases k,
{
    if k == 0 {
        1
    } else {
        2 * pow2((k - 1) as nat)
    }
}

/// Powers of two grow with the exponent.
pub proof fn lemma_pow2_monotone(a: nat, b: nat)
    requires
        a <= b,
    ensures
        pow2(a) <= pow2(b),
    decreases b,
{
    if a < b {
        lemma_pow2_monotone(a, (b - 1) as nat);
        assert(pow2(b) == 2 * pow2((b - 1) as nat));
    }
}

/// The cubic refined `k` levels: each level splits every cubic in two.
pub open spec fn split_levels(c: Cubic, k: nat) -> Seq<Cubic>
    decreases k,
{
    if k == 0 {
        seq![c]
    } else {
        split_levels(spec_split_left(c), (k - 1) as nat) + split_levels(
            spec_split_right(c),
            (k - 1) as nat,
        )
    }
}

/// Refinement at `k` levels yields exactly `2^k` cubics.
pub proof fn lemma_split_levels_len(c: Cubic, k: nat)
    ensures
        split_levels(c, k).len() == pow2(k),
    decreases k,
{
    if k > 0 {
        lemma_split_levels_len(spec_split_left(c), (k - 1) as nat);
        lemma_split_levels_len(spec_split_right(c), (k - 1) as nat);
    }
}

/// Refinement keeps the curve chain intact: the pieces stay within any
/// rectangle holding the original control points (midpoints never leave
/// a box), stay within the coordinate domain, number exactly `2^k`, and
/// run from the original start point to the original end point.
#[verifier::rlimit(60)]
pub proof fn lemma_split_levels(c: Cubic, k: nat, r: Rect)
    requires
        c.wf(),
        cubic_in_rect(c, r),
    ensures
        split_levels(c, k).len() == pow2(k),
        forall|i: int|
            0 <= i < split_levels(c, k).len() ==> (#[trigger] split_levels(c, k)[i]).wf(),
        forall|i: int|
            0 <= i < split_levels(c, k).len() ==> cubic_in_rect(
                #[trigger] split_levels(c, k)[i],
                r,
            ),
        split_levels(c, k).first().p0 == c.p0,
        split_levels(c, k).last().p3 == c.p3,
    decreases k,
{
    crate::geom::lemma_mid_between(-crate::geom::COORD_LIMIT as int, crate::geom::COORD_LIMIT as int, 0, 0);
    if k > 0 {
        let l = spec_split_left(c);
        let rr = spec_split_right(c);
        lemma_split_halves_wf(c, r);
        lemma_split_levels(l, (k - 1) as nat, r);
        lemma_split_levels(rr, (k - 1) as nat, r);
    }
}

/// Both halves of a split keep well-formedness and stay in any rectangle
/// holding the original control points.
proof fn lemma_split_halves_wf(c: Cubic, r: Rect)
    requires
        c.wf(),
        cubic_in_rect(c, r),
    ensures
        spec_split_left(c).wf(),
        spec_split_right(c).wf(),
        cubic_in_rect(spec_split_left(c), r),
        cubic_in_rect(spec_split_right(c), r),
{
    let cl = crate::geom::COORD_LIMIT as int;
    let pts = [c.p0, c.p1, c.p2, c.p3];
    let m01 = spec_midpoint(c.p0, c.p1);
    let m12 = spec_midpoint(c.p1, c.p2);
    let m23 = spec_midpoint(c.p2, c.p3);
    crate::geom::lemma_mid_between(-cl, cl, c.p0.x as int, c.p1.x as int);
    crate::geom::lemma_mid_between(-cl, cl, c.p0.y as int, c.p1.y as int);
    crate::geom::lemma_mid_between(-cl, cl, c.p1.x as int, c.p2.x as int);
    crate::geom::lemma_mid_between(-cl, cl, c.p1.y as int, c.p2.y as int);
    crate::geom::lemma_mid_between(-cl, cl, c.p2.x as int, c.p3.x as int);
    crate::geom::lemma_mid_between(-cl, cl, c.p2.y as int, c.p3.y as int);
    crate::geom::lemma_mid_between(r.x0 as int, r.x1 as int, c.p0.x as int, c.p1.x as int);
    crate::geom::lemma_mid_between(r.y0 as int, r.y1 as int, c.p0.y as int, c.p1.y as int);
    crate::geom::lemma_mid_between(r.x0 as int, r.x1 as int, c.p1.x as int, c.p2.x as int);
    crate::geom::lemma_mid_between(r.y0 as int, r.y1 as int, c.p1.y as int, c.p2.y as int);
    crate::geom::lemma_mid_between(r.x0 as int, r.x1 as int, c.p2.x as int, c.p3.x as int);
    crate::geom::lemma_mid_between(r.y0 as int, r.y1 as int, c.p2.y as int, c.p3.y as int);
    let m012 = spec_midpoint(m01, m12);
    let m123 = spec_midpoint(m12, m23);
    crate::geom::lemma_mid_between(-cl, cl, m01.x as int, m12.x as int);
    crate::geom::lemma_mid_between(-cl, cl, m01.y as int, m12.y as int);
    crate::geom::lemma_mid_between(-cl, cl, m12.x as int, m23.x as int);
    crate::geom::lemma_mid_between(-cl, cl, m12.y as int, m23.y as int);
    crate::geom::lemma_mid_between(r.x0 as int, r.x1 as int, m01.x as int, m12.x as int);
    crate::geom::lemma_mid_between(r.y0 as int, r.y1 as int, m01.y as int, m12.y as int);
    crate::geom::lemma_mid_between(r.x0 as int, r.x1 as int, m12.x as int, m23.x as int);
    crate::geom::lemma_mid_between(r.y0 as int, r.y1 as int, m12.y as int, m23.y as int);
    crate::geom::lemma_mid_between(-cl, cl, m012.x as int, m123.x as int);
    crate::geom::lemma_mid_between(-cl, cl, m012.y as int, m123.y as int);
    crate::geom::lemma_mid_between(r.x0 as int, r.x1 as int, m012.x as int, m123.x as int);
    crate::geom::lemma_mid_between(r.y0 as int, r.y1 as int, m012.y as int, m123.y as int);
}

/// Split a cubic at its midpoint.
pub fn split_halves(c: Cubic) -> (halves: (Cubic, Cubic))
    requires
        c.wf(),
    ensures
        halves.0 == spec_split_left(c),
        halves.1 == spec_split_right(c),
        halves.0.wf(),
        halves.1.wf(),
{
    let m01 = midpoint(c.p0, c.p1);
    let m12 = midpoint(c.p1, c.p2);
    let m23 = midpoint(c.p2, c.p3);
    let m012 = midpoint(m01, m12);
    let m123 = midpoint(m12, m23);
    let m = midpoint(m012, m123);
    (
        Cubic { p0: c.p0, p1: m01, p2: m012, p3: m },
        Cubic { p0: m, p1: m123, p2: m23, p3: c.p3 },
    )
}

/// Refine a cubic `k` levels, yielding `2^k` cubics.
pub fn split_cubic(c: Cubic, k: u32) -> (out: Vec<Cubic>)
    requires
        c.wf(),
        k <= MAX_LEVELS,
    ensures
        out@ == split_levels(c, k as nat),
    decreases k,
{
    if k == 0 {
        let mut v: Vec<Cubic> = Vec::new();
        v.push(c);
        proof {
            assert(v@ =~= split_levels(c, 0));
        }
        v
    } else {
        let (l, r) = split_halves(c);
        let mut lv = split_cubic(l, k - 1);
        let mut rv = split_cubic(r, k - 1);
        lv.append(&mut rv);
        proof {
            assert(lv@ =~= split_levels(c, k as nat));
        }
        lv
    }
}

/// How many refinement levels remain after one: mirror of the level
/// search, counting down an error estimate by [`SPLIT_GAIN`] per level.
pub open spec fn levels_rec(err: int, tol: int, fuel: nat) -> nat
    decreases fuel,
{
    if fuel == 0 || err <= tol {
        0
    } else {
        1 + levels_rec(err / SPLIT_GAIN as int, tol, (fuel - 1) as nat)
    }
}

/// The refinement level for a radius and tolerance: the error of the
/// unrefined quarter-arc cubic is about `27 / 100000` of the radius, and
/// each level divides it by [`SPLIT_GAIN`]; levels are added until the
/// error drops to the tolerance, up to [`MAX_LEVELS`].
pub open spec fn levels_of(radius: int, tol: int) -> nat {
    levels_rec(radius * 27 / 100000, tol, MAX_LEVELS as nat)
}

/// The level count never exceeds the fuel.
pub proof fn lemma_levels_rec_le_fuel(err: int, tol: int, fuel: nat)
    ensures
        levels_rec(err, tol, fuel) <= fuel,
    decreases fuel,
{
    if !(fuel == 0 || err <= tol) {
        lemma_levels_rec_le_fuel(err / SPLIT_GAIN as int, tol, (fuel - 1) as nat);
    }
}

/// A tighter tolerance never asks for fewer levels.
pub proof fn lemma_levels_rec_antitone(err: int, t1: int, t2: int, fuel: nat)
    requires
        t1 <= t2,
    ensures
        levels_rec(err, t1, fuel) >= levels_rec(err, t2, fuel),
    decreases fuel,
{
    if fuel > 0 && err > t1 && err > t2 {
        lemma_levels_rec_antitone(err / SPLIT_GAIN as int, t1, t2, (fuel - 1) as nat);
    }
}

/// A tighter tolerance never asks for fewer levels.
pub proof fn lemma_levels_of_antitone(radius: int, t1: int, t2: int)
    requires
        t1 <= t2,
    ensures
        levels_of(radius, t1) >= levels_of(radius, t2),
{
    lemma_levels_rec_antitone(radius * 27 / 100000, t1, t2, MAX_LEVELS as nat);
}

/// The refinement level for a corner radius at a tolerance.
pub fn subdiv_levels(radius: i64, tol: i64) -> (k: u32)
    requires
        0 <= radius <= crate::geom::COORD_LIMIT,
        tol >= 0,
    ensures
        k as nat == levels_of(radius as int, tol as int),
        k <= MAX_LEVELS,
{
    let mut err: i64 = radius * 27 / 100000;
    let mut k: u32 = 0;
    proof {
        lemma_levels_rec_le_fuel(err as int, tol as int, MAX_LEVELS as nat);
    }
    while k < MAX_LEVELS && err > tol
        invariant
            0 <= k <= MAX_LEVELS,
            0 <= err <= crate::geom::COORD_LIMIT,
            tol >= 0,
            levels_of(radius as int, tol as int) == k as nat + levels_rec(
                err as int,
                tol as int,
                (MAX_LEVELS - k) as nat,
            ),
        decreases MAX_LEVELS - k,
    {
        err = err / SPLIT_GAIN;
        k = k + 1;
        proof {
            lemma_levels_rec_le_fuel(err as int, tol as int, (MAX_LEVELS - k) as nat);
        }
    }
    k
}

/// The elements a sequence of cubics contributes to an outline.
pub open spec fn curve_els(cs: Seq<Cubic>) -> Seq<crate::geom::PathEl> {
    cs.map(|i: int, c: Cubic| crate::geom::PathEl::CurveTo(c.p1, c.p2, c.p3))
}

/// Append one curve element per cubic.
pub fn push_curves(els: &mut Vec<crate::geom::PathEl>, cs: &Vec<Cubic>)
    ensures
        final(els)@ == old(els)@ + curve_els(cs@),
{
    let mut j: usize = 0;
    proof {
        assert(els@ =~= old(els)@ + curve_els(cs@.take(0)));
    }
    while j < cs.len()
        invariant
            0 <= j <= cs@.len(),
            els@ == old(els)@ + curve_els(cs@.take(j as int)),
        decreases cs@.len() - j,
    {
        let c = cs[j];
        els.push(crate::geom::PathEl::CurveTo(c.p1, c.p2, c.p3));
        j = j + 1;
        proof {
            assert(els@ =~= old(els)@ + curve_els(cs@.take(j as int)));
        }
    }
    proof {
        assert(cs@.take(cs@.len() as int) =~= cs@);
    }
}

} // verus!
