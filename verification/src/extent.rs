use vstd::prelude::*;

verus! {

/// The samples of a queue, read as mathematical integers.
pub open spec fn ints(s: Seq<i64>) -> Seq<int> {
    s.map_values(|x: i64| x as int)
}

/// The last `n` entries of `s`, or all of `s` where it holds fewer.
pub open spec fn tail(s: Seq<int>, n: nat) -> Seq<int> {
    if s.len() <= n {
        s
    } else {
        s.subrange(s.len() - n, s.len() as int)
    }
}

/// A value of `s` that no value of `s` is below is its minimum, and one that
/// none is above is its maximum.
pub proof fn lemma_bounds_are_extent(s: Seq<int>, lo: int, hi: int)
    requires
        s.contains(lo),
        s.contains(hi),
        forall|i: int| 0 <= i < s.len() ==> lo <= #[trigger] s[i] <= hi,
    ensures
        s.min() == lo,
        s.max() == hi,
{
    s.min_ensures();
    s.max_ensures();
}

/// The extent of a sequence bounds each of its values and is reached by one.
pub proof fn lemma_extent_bounds(s: Seq<int>)
    requires
        s.len() > 0,
    ensures
        s.contains(s.min()),
        s.contains(s.max()),
        forall|i: int| 0 <= i < s.len() ==> s.min() <= #[trigger] s[i] <= s.max(),
{
    s.min_ensures();
    s.max_ensures();
}

/// Appending a value can only widen the extent, and widens it to that value.
pub proof fn lemma_extent_push(s: Seq<int>, v: int)
    requires
        s.len() > 0,
    ensures
        s.push(v).min() == (if v < s.min() { v } else { s.min() }),
        s.push(v).max() == (if v > s.max() { v } else { s.max() }),
{
    lemma_extent_bounds(s);
    let p = s.push(v);
    let lo = if v < s.min() { v } else { s.min() };
    let hi = if v > s.max() { v } else { s.max() };
    let i_lo = choose|i: int| 0 <= i < s.len() && s[i] == s.min();
    let i_hi = choose|i: int| 0 <= i < s.len() && s[i] == s.max();
    assert(p[i_lo] == s.min());
    assert(p[i_hi] == s.max());
    assert(p[s.len() as int] == v);
    lemma_bounds_are_extent(p, lo, hi);
}

/// The extent of a single value is that value.
pub proof fn lemma_extent_single(v: int)
    ensures
        seq![v].min() == v,
        seq![v].max() == v,
{
    let s = seq![v];
    lemma_bounds_are_extent(s, v, v);
}

/// Dropping an oldest value that lies strictly inside the extent leaves the
/// extent as it was.
pub proof fn lemma_extent_drop_inner(s: Seq<int>)
    requires
        s.len() > 0,
        s.min() < s[0] < s.max(),
    ensures
        s.drop_first().len() > 0,
        s.drop_first().min() == s.min(),
        s.drop_first().max() == s.max(),
{
    lemma_extent_bounds(s);
    let d = s.drop_first();
    let i_lo = choose|i: int| 0 <= i < s.len() && s[i] == s.min();
    let i_hi = choose|i: int| 0 <= i < s.len() && s[i] == s.max();
    assert(d[i_lo - 1] == s.min());
    assert(d[i_hi - 1] == s.max());
    lemma_bounds_are_extent(d, s.min(), s.max());
}

/// The window after one more value: the old window, without its oldest value
/// where it was full, and with the new value at its end.
pub proof fn lemma_tail_push(s: Seq<int>, v: int, n: nat)
    requires
        n >= 1,
    ensures
        tail(s.push(v), n) == (if tail(s, n).len() >= n {
            tail(s, n).drop_first().push(v)
        } else {
            tail(s, n).push(v)
        }),
{
    let w = tail(s, n);
    let next = if w.len() >= n { w.drop_first().push(v) } else { w.push(v) };
    assert(tail(s.push(v), n) =~= next);
}

} // verus!
