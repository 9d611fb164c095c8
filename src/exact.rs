//! The lane order of summation, stated over exact integers.
//!
//! A vectorised pass keeps one running sum per lane, adds the lanes up from
//! lane 0 to the last, then adds the tail elements one at a time. Over exact
//! values that equals the plain left-to-right sum; in single precision the
//! two orders round differently, which is the only source of difference
//! between the scalar and the vectorised result.

use vstd::prelude::*;
use crate::plan::{LanePlan, LANES};

verus! {

/// Sum of `a[i] * b[i]` for `lo <= i < hi`, added from `lo` upwards.
pub open spec fn range_dot(a: Seq<int>, b: Seq<int>, lo: int, hi: int) -> int
    decreases hi - lo,
{
    if hi <= lo {
        0
    } else {
        range_dot(a, b, lo, hi - 1) + a[hi - 1] * b[hi - 1]
    }
}

/// The plain dot product of the first `n` elements, index 0 first.
pub open spec fn sequential_dot(a: Seq<int>, b: Seq<int>, n: nat) -> int {
    range_dot(a, b, 0, n as int)
}

/// What lane `lane` holds after the first `g` lane groups.
pub open spec fn lane_sum(a: Seq<int>, b: Seq<int>, lane: nat, g: nat) -> int
    decreases g,
{
    if g == 0 {
        0
    } else {
        let i = (g - 1) * LANES + lane;
        lane_sum(a, b, lane, (g - 1) as nat) + a[i] * b[i]
    }
}

/// Horizontal reduction of lanes `0 .. k` after the first `g` lane groups.
pub open spec fn horizontal_sum(a: Seq<int>, b: Seq<int>, k: nat, g: nat) -> int
    decreases k,
{
    if k == 0 {
        0
    } else {
        horizontal_sum(a, b, (k - 1) as nat, g) + lane_sum(a, b, (k - 1) as nat, g)
    }
}

/// The dot product summed the way a vectorised pass following `p` sums it:
/// all lanes reduced horizontally, then the tail elements in order.
pub open spec fn lane_order_dot(a: Seq<int>, b: Seq<int>, p: LanePlan) -> int {
    horizontal_sum(a, b, LANES as nat, p.groups as nat)
        + range_dot(a, b, p.tail_start as int, p.len as int)
}

proof fn lemma_range_split(a: Seq<int>, b: Seq<int>, lo: int, mid: int, hi: int)
    requires
        lo <= mid <= hi,
    ensures
        range_dot(a, b, lo, hi) == range_dot(a, b, lo, mid) + range_dot(a, b, mid, hi),
    decreases hi - mid,
{
    if mid < hi {
        lemma_range_split(a, b, lo, mid, hi - 1);
    }
}

/// Adding one more group to every lane of `0 .. k` adds that group's first
/// `k` products to the horizontal sum.
proof fn lemma_horizontal_step(a: Seq<int>, b: Seq<int>, k: nat, g: nat)
    ensures
        horizontal_sum(a, b, k, g + 1) == horizontal_sum(a, b, k, g) + range_dot(
            a,
            b,
            g * LANES,
            g * LANES + k,
        ),
    decreases k,
{
    if k > 0 {
        lemma_horizontal_step(a, b, (k - 1) as nat, g);
    }
}

proof fn lemma_horizontal_empty(a: Seq<int>, b: Seq<int>, k: nat)
    ensures
        horizontal_sum(a, b, k, 0) == 0,
    decreases k,
{
    if k > 0 {
        lemma_horizontal_empty(a, b, (k - 1) as nat);
    }
}

proof fn lemma_horizontal_is_prefix(a: Seq<int>, b: Seq<int>, g: nat)
    ensures
        horizontal_sum(a, b, LANES as nat, g) == range_dot(a, b, 0, g * LANES),
    decreases g,
{
    if g == 0 {
        lemma_horizontal_empty(a, b, LANES as nat);
    } else {
        let h = (g - 1) as nat;
        lemma_horizontal_is_prefix(a, b, h);
        lemma_horizontal_step(a, b, LANES as nat, h);
        lemma_range_split(a, b, 0, h * LANES, g * LANES);
    }
}

/// Over exact values, lane-wise accumulation, horizontal reduction and the
/// scalar tail together give the sequential dot product: every element is
/// counted once, and only the order of the additions differs.
pub proof fn lemma_lane_order_is_sequential(a: Seq<int>, b: Seq<int>, p: LanePlan)
    requires
        p.wf(),
        a.len() == p.len,
        b.len() == p.len,
    ensures
        lane_order_dot(a, b, p) == sequential_dot(a, b, p.len as nat),
{
    lemma_horizontal_is_prefix(a, b, p.groups as nat);
    lemma_range_split(a, b, 0, p.tail_start as int, p.len as int);
}

/// Swapping the two inputs leaves the lane-order sum unchanged.
pub proof fn lemma_lane_order_commutes(a: Seq<int>, b: Seq<int>, p: LanePlan)
    requires
        p.wf(),
        a.len() == p.len,
        b.len() == p.len,
    ensures
        lane_order_dot(a, b, p) == lane_order_dot(b, a, p),
{
    lemma_lane_order_is_sequential(a, b, p);
    lemma_lane_order_is_sequential(b, a, p);
    lemma_range_commutes(a, b, 0, p.len as int);
}

proof fn lemma_range_commutes(a: Seq<int>, b: Seq<int>, lo: int, hi: int)
    ensures
        range_dot(a, b, lo, hi) == range_dot(b, a, lo, hi),
    decreases hi - lo,
{
    if lo < hi {
        lemma_range_commutes(a, b, lo, hi - 1);
        assert(a[hi - 1] * b[hi - 1] == b[hi - 1] * a[hi - 1]) by (nonlinear_arith);
    }
}

/// `a` with every element multiplied by `k`.
pub open spec fn scaled(k: int, a: Seq<int>) -> Seq<int> {
    a.map_values(|x: int| k * x)
}

proof fn lemma_range_scales(k: int, a: Seq<int>, b: Seq<int>, lo: int, hi: int)
    requires
        0 <= lo,
        hi <= a.len(),
    ensures
        range_dot(scaled(k, a), b, lo, hi) == k * range_dot(a, b, lo, hi),
    decreases hi - lo,
{
    if lo < hi {
        lemma_range_scales(k, a, b, lo, hi - 1);
        let rest = range_dot(a, b, lo, hi - 1);
        let x = a[hi - 1];
        let y = b[hi - 1];
        assert(k * rest + (k * x) * y == k * (rest + x * y)) by (nonlinear_arith);
    }
}

/// Scaling one input by `k` scales the lane-order sum by `k`.
pub proof fn lemma_lane_order_scales(k: int, a: Seq<int>, b: Seq<int>, p: LanePlan)
    requires
        p.wf(),
        a.len() == p.len,
        b.len() == p.len,
    ensures
        lane_order_dot(scaled(k, a), b, p) == k * lane_order_dot(a, b, p),
{
    lemma_lane_order_is_sequential(a, b, p);
    lemma_lane_order_is_sequential(scaled(k, a), b, p);
    lemma_range_scales(k, a, b, 0, p.len as int);
}

} // verus!
