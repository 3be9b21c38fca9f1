//! Half-edge index arithmetic and the walk around a site.
//!
//! A triangulation's `halfedges` table pairs each directed edge with its twin
//! in the adjacent triangle, or with [`EMPTY`] on the outer hull.  The cell
//! of a site is recovered by repeatedly moving from an incoming edge to the
//! twin of the next edge of its triangle, until the walk either returns to
//! its starting edge (a closed interior cell) or falls off the hull (an open
//! boundary cell).  This module defines that walk as a specification and
//! proves it is bounded: because the twin pairing is symmetric, one step of
//! the walk is injective, so the walk never repeats an edge other than its
//! start and always terminates within `halfedges.len()` steps.

use vstd::prelude::*;

use vstd::arithmetic::div_mod::lemma_fundamental_div_mod_converse;
use vstd::relations::injective;
use vstd::set_lib::{lemma_int_range, lemma_len_subset, set_int_range};

verus! {

/// The sentinel pairing of a half-edge on the outer hull: no twin exists.
pub const EMPTY: usize = usize::MAX;

/// The edge after `e` in its triangle, following the winding order.
pub open spec fn next_he(e: int) -> int {
    if e % 3 == 2 {
        e - 2
    } else {
        e + 1
    }
}

/// The edge before `e` in its triangle.
pub open spec fn prev_he(e: int) -> int {
    if e % 3 == 0 {
        e + 2
    } else {
        e - 1
    }
}

/// A `halfedges` table whose length is a whole number of triangles, leaves
/// room for the sentinel, and pairs edges symmetrically.
pub open spec fn sym_tables(h: Seq<usize>) -> bool {
    &&& h.len() % 3 == 0
    &&& h.len() < EMPTY
    &&& forall|e: int|
        0 <= e < h.len() ==> (#[trigger] h[e] == EMPTY || (h[e] < h.len() && h[h[e] as int]
            == e))
}

/// One step of the walk around a site: the twin of the edge after `e`.
pub open spec fn walk_next(h: Seq<usize>, e: int) -> usize {
    h[next_he(e)]
}

/// Cycling forward within a triangle and then back is the identity.
pub proof fn lemma_prev_next(e: int)
    requires
        e >= 0,
    ensures
        prev_he(next_he(e)) == e,
{
    let q = e / 3;
    let r = e % 3;
    vstd::arithmetic::div_mod::lemma_fundamental_div_mod(e, 3);
    if r == 2 {
        lemma_fundamental_div_mod_converse(3 * q, 3, q, 0);
    } else {
        lemma_fundamental_div_mod_converse(3 * q + r + 1, 3, q, r + 1);
    }
}

/// Within a table of whole triangles, the next edge stays in range.
pub proof fn lemma_next_in_range(e: int, len: int)
    requires
        0 <= e < len,
        len % 3 == 0,
    ensures
        0 <= next_he(e) < len,
{
    let q = e / 3;
    let r = e % 3;
    vstd::arithmetic::div_mod::lemma_fundamental_div_mod(e, 3);
    if r != 2 {
        if e + 1 == len {
            lemma_fundamental_div_mod_converse(3 * q + r + 1, 3, q, r + 1);
        }
    }
}

/// With a symmetric table, one walk step is injective: distinct edges step
/// to distinct edges.
pub proof fn lemma_step_injective(h: Seq<usize>, a: int, b: int)
    requires
        sym_tables(h),
        0 <= a < h.len(),
        0 <= b < h.len(),
        walk_next(h, a) != EMPTY,
        walk_next(h, b) != EMPTY,
        walk_next(h, a) == walk_next(h, b),
    ensures
        a == b,
{
    lemma_next_in_range(a, h.len() as int);
    lemma_next_in_range(b, h.len() as int);
    let x = next_he(a);
    let y = next_he(b);
    assert(h[h[x] as int] == x);
    assert(h[h[y] as int] == y);
    lemma_prev_next(a);
    lemma_prev_next(b);
}

/// `r` walks the table from `start` without yet having stopped: each entry
/// steps to the next, never onto the sentinel and never back to `start`.
pub open spec fn is_walk_prefix(h: Seq<usize>, start: usize, r: Seq<usize>) -> bool {
    &&& r.len() >= 1
    &&& r[0] == start
    &&& forall|i: int| 0 <= i < r.len() ==> (#[trigger] r[i]) < h.len()
    &&& forall|i: int|
        0 <= i < r.len() - 1 ==> {
            &&& #[trigger] walk_next(h, r[i] as int) != EMPTY
            &&& walk_next(h, r[i] as int) != start
            &&& r[i + 1] == walk_next(h, r[i] as int)
        }
}

/// `r` is the complete walk from `start`: a walk prefix whose last entry
/// steps onto the sentinel (an open boundary cell) or back to `start`
/// (a closed interior cell).
pub open spec fn is_edge_walk(h: Seq<usize>, start: usize, r: Seq<usize>) -> bool {
    &&& is_walk_prefix(h, start, r)
    &&& (walk_next(h, r.last() as int) == EMPTY || walk_next(h, r.last() as int) == start)
}

/// The walk from `start`, as a function of the table; [`lemma_walk_unique`]
/// shows any sequence satisfying [`is_edge_walk`] equals it.
pub open spec fn the_walk(h: Seq<usize>, start: usize) -> Seq<usize> {
    choose|r: Seq<usize>| is_edge_walk(h, start, r)
}

/// A complete walk is closed when its last entry steps back to its start.
pub open spec fn walk_is_closed(h: Seq<usize>, r: Seq<usize>) -> bool {
    walk_next(h, r.last() as int) == r[0]
}

/// Extending a duplicate-free walk prefix by its next step keeps it a
/// duplicate-free walk prefix.
pub proof fn lemma_walk_prefix_extend(h: Seq<usize>, start: usize, p: Seq<usize>, nxt: usize)
    requires
        sym_tables(h),
        is_walk_prefix(h, start, p),
        p.no_duplicates(),
        nxt == walk_next(h, p.last() as int),
        nxt != EMPTY,
        nxt != start,
    ensures
        is_walk_prefix(h, start, p.push(nxt)),
        p.push(nxt).no_duplicates(),
{
    let n = p.len() as int;
    lemma_next_in_range(p.last() as int, h.len() as int);
    assert(nxt < h.len());
    let q = p.push(nxt);
    assert forall|i: int| 0 <= i < q.len() - 1 implies {
        &&& #[trigger] walk_next(h, q[i] as int) != EMPTY
        &&& walk_next(h, q[i] as int) != start
        &&& q[i + 1] == walk_next(h, q[i] as int)
    } by {
        if i < n - 1 {
            assert(q[i] == p[i]);
            assert(q[i + 1] == p[i + 1]);
        } else {
            assert(q[i] == p.last());
            assert(q[i + 1] == nxt);
        }
    }
    if p.contains(nxt) {
        let i = choose|i: int| 0 <= i < n && p[i] == nxt;
        assert(i != 0);
        assert(p[i] == walk_next(h, p[i - 1] as int));
        lemma_step_injective(h, p[i - 1] as int, p.last() as int);
        assert(p[i - 1] == p[n - 1]);
        assert(i - 1 < n - 1 ==> !p.no_duplicates());
    }
    assert(q.no_duplicates());
}

/// A duplicate-free sequence of indices below `n` has at most `n` entries.
pub proof fn lemma_distinct_bounded_len(s: Seq<usize>, n: int)
    requires
        s.no_duplicates(),
        n >= 0,
        forall|i: int| 0 <= i < s.len() ==> (#[trigger] s[i] as int) < n,
    ensures
        s.len() <= n,
{
    let f = |x: usize| x as int;
    assert(injective(f));
    s.lemma_no_duplicates_injective(f);
    let si = s.map_values(f);
    si.unique_seq_to_set();
    assert forall|x: int| si.to_set().contains(x) implies set_int_range(0, n).contains(x) by {
        let i = choose|i: int| 0 <= i < si.len() && si[i] == x;
        assert(s[i] as int == x);
    }
    assert(si.to_set().subset_of(set_int_range(0, n)));
    lemma_int_range(0, n);
    lemma_len_subset(si.to_set(), set_int_range(0, n));
}

/// Two entries of a walk prefix at the same position agree.
proof fn lemma_walk_agree(h: Seq<usize>, start: usize, r1: Seq<usize>, r2: Seq<usize>, i: int)
    requires
        is_walk_prefix(h, start, r1),
        is_walk_prefix(h, start, r2),
        0 <= i < r1.len(),
        i < r2.len(),
    ensures
        r1[i] == r2[i],
    decreases i,
{
    if i > 0 {
        lemma_walk_agree(h, start, r1, r2, i - 1);
        assert(r1[i] == walk_next(h, r1[i - 1] as int));
        assert(r2[i] == walk_next(h, r2[i - 1] as int));
    }
}

/// The walk from a starting edge is unique: the table fixes it entirely.
pub proof fn lemma_walk_unique(h: Seq<usize>, start: usize, r1: Seq<usize>, r2: Seq<usize>)
    requires
        is_edge_walk(h, start, r1),
        is_edge_walk(h, start, r2),
    ensures
        r1 == r2,
{
    if r1.len() < r2.len() {
        let i = r1.len() - 1;
        lemma_walk_agree(h, start, r1, r2, i);
        assert(walk_next(h, r2[i] as int) != EMPTY && walk_next(h, r2[i] as int) != start);
        assert(false);
    }
    if r2.len() < r1.len() {
        let i = r2.len() - 1;
        lemma_walk_agree(h, start, r2, r1, i);
        assert(walk_next(h, r1[i] as int) != EMPTY && walk_next(h, r1[i] as int) != start);
        assert(false);
    }
    assert forall|i: int| 0 <= i < r1.len() implies r1[i] == r2[i] by {
        lemma_walk_agree(h, start, r1, r2, i);
    }
    assert(r1 =~= r2);
}

/// Every prefix of a walk prefix is a walk prefix, free of duplicates.
proof fn lemma_walk_prefix_restrict(h: Seq<usize>, start: usize, r: Seq<usize>, m: int)
    requires
        sym_tables(h),
        is_walk_prefix(h, start, r),
        1 <= m <= r.len(),
    ensures
        is_walk_prefix(h, start, r.subrange(0, m)),
        r.subrange(0, m).no_duplicates(),
    decreases m,
{
    if m == 1 {
        let p = r.subrange(0, 1);
        assert(p[0] == start);
    } else {
        lemma_walk_prefix_restrict(h, start, r, m - 1);
        let p = r.subrange(0, m - 1);
        assert(p.last() == r[m - 2]);
        assert(walk_next(h, r[m - 2] as int) != EMPTY && walk_next(h, r[m - 2] as int) != start
            && r[m - 1] == walk_next(h, r[m - 2] as int));
        lemma_walk_prefix_extend(h, start, p, r[m - 1]);
        assert(p.push(r[m - 1]) =~= r.subrange(0, m));
    }
}

/// A complete walk over a symmetric table never repeats an edge and is no
/// longer than the table itself: the walk around any site terminates.
pub proof fn lemma_walk_bounded(h: Seq<usize>, start: usize, r: Seq<usize>)
    requires
        sym_tables(h),
        is_edge_walk(h, start, r),
    ensures
        r.no_duplicates(),
        r.len() <= h.len(),
{
    lemma_walk_prefix_restrict(h, start, r, r.len() as int);
    assert(r.subrange(0, r.len() as int) =~= r);
    lemma_distinct_bounded_len(r, h.len() as int);
}

} // verus!
