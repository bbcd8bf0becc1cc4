//! Boundary tables and the one algorithm that works on them.
//!
//! A boundary table lists, for each epoch, the first coordinate (height or
//! ordinal) that belongs to it. Entry zero is zero and entries strictly
//! increase. The last epoch is open-ended: every coordinate at or past its
//! boundary belongs to it.

use vstd::prelude::*;

verus! {

/// A table of epoch boundaries: it starts at zero and strictly increases.
pub open spec fn is_boundary_table(t: Seq<u64>) -> bool {
    &&& t.len() >= 1
    &&& t[0] == 0
    &&& forall|i: int, j: int| 0 <= i < j < t.len() ==> t[i] < t[j]
}

/// The epoch of coordinate `x`: the greatest index whose boundary is at or
/// below `x`.
pub open spec fn epoch_at(t: Seq<u64>, x: int) -> int
    decreases t.len(),
{
    if t.len() <= 1 {
        0
    } else if t.last() <= x {
        t.len() - 1
    } else {
        epoch_at(t.drop_last(), x)
    }
}

/// `e` is an index whose range `[t[e], t[e + 1])` holds `x`, the range of the
/// last index having no upper end.
pub open spec fn holds_coordinate(t: Seq<u64>, x: int, e: int) -> bool {
    &&& 0 <= e < t.len()
    &&& t[e] <= x
    &&& e + 1 < t.len() ==> x < t[e + 1]
}

/// Entry `e` of `t`, or its last entry where `e` lies past the end.
pub open spec fn clamped(t: Seq<u64>, e: int) -> u64 {
    if e < t.len() {
        t[e]
    } else {
        t.last()
    }
}

/// The entries never increase.
pub open spec fn is_non_increasing(t: Seq<u64>) -> bool {
    forall|i: int, j: int| 0 <= i <= j < t.len() ==> t[i] >= t[j]
}

/// The epoch of a coordinate lies in the table, and its range holds the
/// coordinate.
pub proof fn lemma_epoch_at_holds(t: Seq<u64>, x: int)
    requires
        is_boundary_table(t),
        x >= 0,
    ensures
        holds_coordinate(t, x, epoch_at(t, x)),
    decreases t.len(),
{
    if t.len() > 1 && t.last() > x {
        let s = t.drop_last();
        assert forall|i: int, j: int| 0 <= i < j < s.len() implies s[i] < s[j] by {
            assert(s[i] == t[i] && s[j] == t[j]);
        }
        lemma_epoch_at_holds(s, x);
    }
}

/// Only one index's range holds a given coordinate.
pub proof fn lemma_holds_unique(t: Seq<u64>, x: int, e: int, f: int)
    requires
        is_boundary_table(t),
        holds_coordinate(t, x, e),
        holds_coordinate(t, x, f),
    ensures
        e == f,
{
    if e < f {
        assert(t[e + 1] <= t[f]);
    } else if f < e {
        assert(t[f + 1] <= t[e]);
    }
}

/// The epoch of `x` is the index whose range holds `x`.
pub proof fn lemma_epoch_at_is(t: Seq<u64>, x: int, e: int)
    requires
        is_boundary_table(t),
        holds_coordinate(t, x, e),
    ensures
        epoch_at(t, x) == e,
{
    lemma_epoch_at_holds(t, x);
    lemma_holds_unique(t, x, e, epoch_at(t, x));
}

/// Classification is total and never decreases as the coordinate grows.
pub proof fn lemma_epoch_at_monotonic(t: Seq<u64>, x: int, y: int)
    requires
        is_boundary_table(t),
        0 <= x <= y,
    ensures
        0 <= epoch_at(t, x) <= epoch_at(t, y) < t.len(),
{
    lemma_epoch_at_holds(t, x);
    lemma_epoch_at_holds(t, y);
    let a = epoch_at(t, x);
    let b = epoch_at(t, y);
    if b < a {
        assert(t[b + 1] <= t[a]);
    }
}

/// A boundary belongs to the epoch it starts, and the coordinate just below it
/// to the epoch before.
pub proof fn lemma_boundary_exact(t: Seq<u64>, e: int)
    requires
        is_boundary_table(t),
        0 <= e < t.len(),
    ensures
        epoch_at(t, t[e] as int) == e,
        e > 0 ==> epoch_at(t, t[e] - 1) == e - 1,
{
    lemma_epoch_at_is(t, t[e] as int, e);
    if e > 0 {
        lemma_epoch_at_is(t, t[e] - 1, e - 1);
    }
}

/// The boundaries of consecutive epochs strictly increase.
pub proof fn lemma_boundaries_increase(t: Seq<u64>, e: int)
    requires
        is_boundary_table(t),
        0 <= e,
        e + 1 < t.len(),
    ensures
        clamped(t, e) < clamped(t, e + 1),
{
}

/// In a non-increasing table, a clamped lookup never grows with the index,
/// and from the last entry on it stays at that entry.
pub proof fn lemma_clamped_non_increasing(t: Seq<u64>, e: int)
    requires
        t.len() >= 1,
        is_non_increasing(t),
        0 <= e,
    ensures
        clamped(t, e) >= clamped(t, e + 1),
        e >= t.len() - 1 ==> clamped(t, e) == t.last(),
{
}

/// The units created at the heights below `h`, where each height adds the
/// rate (from `rates`) of its epoch (by `heights`).
pub open spec fn supply_before(heights: Seq<u64>, rates: Seq<u64>, h: int) -> int
    decreases h,
{
    if h <= 0 {
        0
    } else {
        supply_before(heights, rates, h - 1) + clamped(rates, epoch_at(heights, h - 1))
    }
}

/// The ordinal table holds, for each epoch, the supply created before its
/// first height.
pub open spec fn ordinals_follow(heights: Seq<u64>, ordinals: Seq<u64>, rates: Seq<u64>) -> bool {
    &&& heights.len() == ordinals.len()
    &&& forall|e: int|
        0 <= e < ordinals.len() ==> #[trigger] ordinals[e] == supply_before(
            heights,
            rates,
            heights[e] as int,
        )
}

/// Inside one epoch the supply grows by the epoch's rate at each height.
pub proof fn lemma_supply_in_epoch(heights: Seq<u64>, rates: Seq<u64>, e: int, k: int)
    requires
        is_boundary_table(heights),
        0 <= e < heights.len(),
        heights[e] <= k,
        e + 1 < heights.len() ==> k <= heights[e + 1],
    ensures
        supply_before(heights, rates, k) == supply_before(heights, rates, heights[e] as int) + (k
            - heights[e]) * clamped(rates, e),
    decreases k - heights[e],
{
    if k > heights[e] {
        let r = clamped(rates, e) as int;
        let d = k - heights[e];
        lemma_supply_in_epoch(heights, rates, e, k - 1);
        lemma_epoch_at_is(heights, k - 1, e);
        assert(supply_before(heights, rates, k) == supply_before(heights, rates, k - 1) + r);
        assert((d - 1) * r + r == d * r) by (nonlinear_arith);
    } else {
        let z = k - heights[e];
        let c = clamped(rates, e) as int;
        assert(z * c == 0) by (nonlinear_arith)
            requires
                z == 0,
        ;
    }
}

/// Where the ordinal table is the supply created before each epoch, the
/// ordinal of the first unit created at height `h` (the supply created before
/// it) falls in the same epoch as `h`.
pub proof fn lemma_height_ordinal_agree(
    heights: Seq<u64>,
    ordinals: Seq<u64>,
    rates: Seq<u64>,
    h: int,
)
    requires
        is_boundary_table(heights),
        is_boundary_table(ordinals),
        ordinals_follow(heights, ordinals, rates),
        h >= 0,
    ensures
        epoch_at(ordinals, supply_before(heights, rates, h)) == epoch_at(heights, h),
{
    lemma_epoch_at_holds(heights, h);
    let e = epoch_at(heights, h);
    let r = clamped(rates, e) as int;
    let o = supply_before(heights, rates, h);
    let d = h - heights[e];
    lemma_supply_in_epoch(heights, rates, e, h);
    assert(ordinals[e] == supply_before(heights, rates, heights[e] as int));
    assert(d * r >= 0) by (nonlinear_arith)
        requires
            d >= 0,
            r >= 0,
    ;
    if e + 1 < heights.len() {
        let n = heights[e + 1] - heights[e];
        lemma_supply_in_epoch(heights, rates, e, heights[e + 1] as int);
        assert(ordinals[e + 1] == supply_before(heights, rates, heights[e + 1] as int));
        assert(ordinals[e] < ordinals[e + 1]);
        assert(d * r < n * r) by (nonlinear_arith)
            requires
                0 <= d < n,
                n * r > 0,
                r >= 0,
        ;
    }
    lemma_epoch_at_is(ordinals, o, e);
}

/// The epoch of coordinate `x` in the boundary table `t`.
pub fn classify(t: &[u64], x: u64) -> (e: usize)
    requires
        is_boundary_table(t@),
    ensures
        e == epoch_at(t@, x as int),
        holds_coordinate(t@, x as int, e as int),
{
    let mut e: usize = 0;
    while e < t.len() - 1 && t[e + 1] <= x
        invariant
            is_boundary_table(t@),
            e < t@.len(),
            t@[e as int] <= x,
        decreases t@.len() - e,
    {
        e = e + 1;
    }
    proof {
        lemma_epoch_at_is(t@, x as int, e as int);
    }
    e
}

/// Entry `e` of `t`, or its last entry where `e` lies past the end: the last
/// epoch goes on forever.
pub fn clamped_entry(t: &[u64], e: usize) -> (v: u64)
    requires
        t@.len() >= 1,
    ensures
        v == clamped(t@, e as int),
{
    if e < t.len() {
        t[e]
    } else {
        t[t.len() - 1]
    }
}

} // verus!
