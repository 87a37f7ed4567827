//! Integer arithmetic the measurements rest on: the integer square root
//! (used for exact lengths) and bounds on products of bounded values.

use vstd::prelude::*;

verus! {

/// `r` is the square root of `n`, rounded down.
pub open spec fn is_sqrt_floor(n: int, r: int) -> bool {
    0 <= r && #[trigger] (r * r) <= n && n < (r + 1) * (r + 1)
}

/// The square root of a non-negative integer, rounded down.
pub open spec fn sqrt_floor(n: int) -> int {
    choose|r: int| #[trigger] is_sqrt_floor(n, r)
}

/// Every non-negative integer has a rounded-down square root.
pub proof fn lemma_sqrt_exists(n: int)
    requires
        n >= 0,
    ensures
        exists|r: int| #[trigger] is_sqrt_floor(n, r),
    decreases n,
{
    if n == 0 {
        assert(is_sqrt_floor(0, 0));
    } else {
        lemma_sqrt_exists(n - 1);
        let r = choose|r: int| #[trigger] is_sqrt_floor(n - 1, r);
        if (r + 1) * (r + 1) == n {
            assert(is_sqrt_floor(n, r + 1)) by (nonlinear_arith)
                requires is_sqrt_floor(n - 1, r) && (r + 1) * (r + 1) == n;
        } else {
            assert(is_sqrt_floor(n, r));
        }
    }
}

/// The rounded-down square root is unique.
pub proof fn lemma_sqrt_unique(n: int, r1: int, r2: int)
    requires
        is_sqrt_floor(n, r1),
        is_sqrt_floor(n, r2),
    ensures
        r1 == r2,
{
    if r1 < r2 {
        assert((r1 + 1) * (r1 + 1) <= r2 * r2) by (nonlinear_arith)
            requires 0 <= r1 && r1 < r2;
    }
    if r2 < r1 {
        assert((r2 + 1) * (r2 + 1) <= r1 * r1) by (nonlinear_arith)
            requires 0 <= r2 && r2 < r1;
    }
}

/// A witness pins `sqrt_floor` down.
pub proof fn lemma_sqrt_is(n: int, r: int)
    requires
        is_sqrt_floor(n, r),
    ensures
        sqrt_floor(n) == r,
{
    lemma_sqrt_exists(n);
    let w = choose|w: int| #[trigger] is_sqrt_floor(n, w);
    lemma_sqrt_unique(n, w, r);
}

/// The square root of a bounded value, rounded down, by bisection.
pub fn isqrt(n: u64) -> (r: u64)
    requires
        n < 0x4000000000000000,
    ensures
        is_sqrt_floor(n as int, r as int),
        r as int == sqrt_floor(n as int),
{
    let mut lo: u64 = 0;
    let mut hi: u64 = 0x80000000;
    proof {
        assert((0x80000000u64 as int + 1) * (0x80000000u64 as int + 1) > 0x4000000000000000)
            by (nonlinear_arith);
    }
    while lo < hi
        invariant
            lo <= hi <= 0x80000000,
            lo * lo <= n,
            n < (hi + 1) * (hi + 1),
        decreases hi - lo,
    {
        let mid: u64 = lo + (hi - lo + 1) / 2;
        proof {
            assert((mid as int) * (mid as int) <= 0x4000000000000000) by (nonlinear_arith)
                requires 0 <= mid as int <= 0x80000000;
        }
        if mid * mid <= n {
            lo = mid;
        } else {
            hi = mid - 1;
        }
    }
    proof {
        lemma_sqrt_is(n as int, lo as int);
    }
    lo
}

/// A property holding of every element of two sequences holds of every
/// element of their concatenation.
pub proof fn lemma_concat_all<A>(a: Seq<A>, b: Seq<A>, p: spec_fn(A) -> bool)
    requires
        forall|i: int| 0 <= i < a.len() ==> p(#[trigger] a[i]),
        forall|i: int| 0 <= i < b.len() ==> p(#[trigger] b[i]),
    ensures
        forall|i: int| 0 <= i < (a + b).len() ==> p(#[trigger] (a + b)[i]),
{
    assert forall|i: int| 0 <= i < (a + b).len() implies p((a + b)[i]) by {
        if i < a.len() {
            assert((a + b)[i] == a[i]);
        } else {
            assert((a + b)[i] == b[i - a.len()]);
        }
    }
}

/// The product of two values bounded in magnitude by `m` is bounded in
/// magnitude by `m * m`.
pub proof fn lemma_mul_bound(a: int, b: int, m: int)
    requires
        -m <= a <= m,
        -m <= b <= m,
    ensures
        -(m * m) <= a * b <= m * m,
{
    assert(-(m * m) <= a * b <= m * m) by (nonlinear_arith)
        requires -m <= a <= m && -m <= b <= m;
}

} // verus!
