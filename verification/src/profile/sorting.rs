//! Ordering samples by depth: a stable sort and what it guarantees.

use vstd::prelude::*;
use vstd::seq_lib::to_multiset_build;
use vstd::seq_lib::to_multiset_contains;
use vstd::seq_lib::to_multiset_insert;
use vstd::seq_lib::to_multiset_len;
use crate::profile::interpolation::eval_spec;
use crate::profile::interpolation::sorted_by_x;
use crate::profile::point::Point;

verus! {

/// The samples of depth `v`, in the order in which they occur.
pub open spec fn with_x(s: Seq<Point>, v: int) -> Seq<Point>
    decreases s.len(),
{
    if s.len() == 0 {
        Seq::empty()
    } else if s.last().x == v {
        with_x(s.drop_last(), v).push(s.last())
    } else {
        with_x(s.drop_last(), v)
    }
}

/// `sorted` holds the samples of `s` in ascending depth, those of one depth
/// in the order they had in `s`.
pub open spec fn is_stable_sort_of(sorted: Seq<Point>, s: Seq<Point>) -> bool {
    &&& sorted_by_x(sorted)
    &&& sorted.to_multiset() == s.to_multiset()
    &&& forall|v: int| #[trigger] with_x(sorted, v) == with_x(s, v)
}

/// No two samples share a depth and differ in value.
pub open spec fn depth_determines_value(s: Seq<Point>) -> bool {
    forall|i: int, j: int|
        0 <= i < s.len() && 0 <= j < s.len() && s[i].x == s[j].x ==> s[i].y == s[j].y
}

proof fn lemma_with_x_concat(a: Seq<Point>, b: Seq<Point>, v: int)
    ensures
        with_x(a + b, v) == with_x(a, v) + with_x(b, v),
    decreases b.len(),
{
    if b.len() == 0 {
        assert(a + b == a);
        assert(with_x(a, v) + Seq::<Point>::empty() == with_x(a, v));
    } else {
        lemma_with_x_concat(a, b.drop_last(), v);
        assert((a + b).drop_last() == a + b.drop_last());
        assert((a + b).last() == b.last());
        if b.last().x == v {
            assert((with_x(a, v) + with_x(b.drop_last(), v)).push(b.last()) == with_x(a, v)
                + with_x(b.drop_last(), v).push(b.last()));
        }
    }
}

proof fn lemma_with_x_none(s: Seq<Point>, v: int)
    requires
        forall|j: int| 0 <= j < s.len() ==> s[j].x != v,
    ensures
        with_x(s, v) == Seq::<Point>::empty(),
    decreases s.len(),
{
    if s.len() > 0 {
        lemma_with_x_none(s.drop_last(), v);
    }
}

/// Putting a sample behind the samples that are no deeper than it, and
/// before all deeper ones, keeps a stable sort stable.
proof fn lemma_insert_keeps_stable_sort(r: Seq<Point>, s: Seq<Point>, pos: int, e: Point)
    requires
        is_stable_sort_of(r, s),
        0 <= pos <= r.len(),
        forall|j: int| 0 <= j < pos ==> r[j].x <= e.x,
        forall|j: int| pos <= j < r.len() ==> r[j].x > e.x,
    ensures
        is_stable_sort_of(r.insert(pos, e), s.push(e)),
{
    let r2 = r.insert(pos, e);
    let s2 = s.push(e);
    assert(sorted_by_x(r2)) by {
        assert forall|i: int, j: int| 0 <= i < j < r2.len() implies r2[i].x <= r2[j].x by {
            if i < pos && j > pos {
                assert(r2[i] == r[i] && r2[j] == r[j - 1]);
            } else if i < pos && j < pos {
                assert(r2[i] == r[i] && r2[j] == r[j]);
            } else if i > pos {
                assert(r2[i] == r[i - 1] && r2[j] == r[j - 1]);
            }
        }
    }
    to_multiset_insert(r, pos, e);
    to_multiset_build(s, e);
    assert forall|v: int| #[trigger] with_x(r2, v) == with_x(s2, v) by {
        let head = r.subrange(0, pos);
        let tail = r.subrange(pos, r.len() as int);
        assert(r == head + tail);
        assert(r2 == head.push(e) + tail);
        lemma_with_x_concat(head, tail, v);
        lemma_with_x_concat(head.push(e), tail, v);
        assert(head.push(e).drop_last() == head);
        assert(s2.drop_last() == s);
        assert(with_x(r, v) == with_x(s, v));
        if e.x == v {
            lemma_with_x_none(tail, v);
            assert(with_x(head, v) + Seq::<Point>::empty() == with_x(head, v));
            assert(with_x(head, v).push(e) + Seq::<Point>::empty() == with_x(head, v).push(e));
        }
    }
}

/// Sorts the samples by depth; samples of one depth keep their order.
pub fn sort_by_x(points: Vec<Point>) -> (sorted: Vec<Point>)
    ensures
        is_stable_sort_of(sorted@, points@),
{
    let mut out: Vec<Point> = Vec::new();
    let mut i: usize = 0;
    assert(points@.take(0) == Seq::<Point>::empty());
    while i < points.len()
        invariant
            i <= points.len(),
            is_stable_sort_of(out@, points@.take(i as int)),
        decreases points.len() - i,
    {
        let e = points[i];
        let mut pos: usize = out.len();
        while pos > 0 && out[pos - 1].x > e.x
            invariant
                pos <= out.len(),
                forall|j: int| pos <= j < out.len() ==> out[j].x > e.x,
            decreases pos,
        {
            pos = pos - 1;
        }
        proof {
            assert forall|j: int| 0 <= j < pos implies out[j].x <= e.x by {
                assert(out[j].x <= out[pos - 1].x);
            }
            lemma_insert_keeps_stable_sort(out@, points@.take(i as int), pos as int, e);
            assert(points@.take(i + 1) == points@.take(i as int).push(e));
        }
        out.insert(pos, e);
        i = i + 1;
    }
    assert(points@.take(points.len() as int) == points@);
    out
}

/// Two ascending sequences of the same samples are the same sequence, as
/// long as a depth determines the value there.
pub proof fn lemma_sorted_permutations_equal(a: Seq<Point>, b: Seq<Point>)
    requires
        sorted_by_x(a),
        sorted_by_x(b),
        a.to_multiset() == b.to_multiset(),
        depth_determines_value(a),
    ensures
        a == b,
    decreases a.len(),
{
    to_multiset_len(a);
    to_multiset_len(b);
    if a.len() == 0 {
        assert(a == b);
    } else {
        let la = a.last();
        let lb = b.last();
        to_multiset_contains(a, la);
        to_multiset_contains(a, lb);
        to_multiset_contains(b, la);
        to_multiset_contains(b, lb);
        assert(a.contains(la)) by {
            assert(a[a.len() - 1] == la);
        }
        assert(b.contains(lb)) by {
            assert(b[b.len() - 1] == lb);
        }
        let ka = choose|k: int| 0 <= k < a.len() && a[k] == lb;
        let kb = choose|k: int| 0 <= k < b.len() && b[k] == la;
        assert(lb.x <= la.x) by {
            if ka < a.len() - 1 {
                assert(a[ka].x <= a[a.len() - 1].x);
            }
        }
        assert(la.x <= lb.x) by {
            if kb < b.len() - 1 {
                assert(b[kb].x <= b[b.len() - 1].x);
            }
        }
        assert(a[ka].y == a[a.len() - 1].y);
        assert(la == lb);
        let a1 = a.drop_last();
        let b1 = b.drop_last();
        assert(a == a1.push(la));
        assert(b == b1.push(lb));
        to_multiset_build(a1, la);
        to_multiset_build(b1, lb);
        assert(a1.to_multiset() =~= a.to_multiset().remove(la));
        assert(b1.to_multiset() =~= b.to_multiset().remove(lb));
        assert(depth_determines_value(a1)) by {
            assert forall|i: int, j: int|
                0 <= i < a1.len() && 0 <= j < a1.len() && a1[i].x == a1[j].x implies a1[i].y
                == a1[j].y by {
                assert(a1[i] == a[i] && a1[j] == a[j]);
            }
        }
        assert(sorted_by_x(a1)) by {
            assert forall|i: int, j: int| 0 <= i < j < a1.len() implies a1[i].x <= a1[j].x by {
                assert(a1[i] == a[i] && a1[j] == a[j]);
            }
        }
        assert(sorted_by_x(b1)) by {
            assert forall|i: int, j: int| 0 <= i < j < b1.len() implies b1[i].x <= b1[j].x by {
                assert(b1[i] == b[i] && b1[j] == b[j]);
            }
        }
        lemma_sorted_permutations_equal(a1, b1);
    }
}

/// The order in which samples are given does not matter: two lists of the
/// same samples sort to the same sequence and so give the same field, as
/// long as no two samples share a depth and differ in value.
pub proof fn lemma_sort_invariance(
    a: Seq<Point>,
    b: Seq<Point>,
    sorted_a: Seq<Point>,
    sorted_b: Seq<Point>,
    x: int,
)
    requires
        is_stable_sort_of(sorted_a, a),
        is_stable_sort_of(sorted_b, b),
        a.to_multiset() == b.to_multiset(),
        depth_determines_value(a),
    ensures
        sorted_a == sorted_b,
        eval_spec(sorted_a, x) == eval_spec(sorted_b, x),
{
    assert(depth_determines_value(sorted_a)) by {
        assert forall|i: int, j: int|
            0 <= i < sorted_a.len() && 0 <= j < sorted_a.len() && sorted_a[i].x
                == sorted_a[j].x implies sorted_a[i].y == sorted_a[j].y by {
            to_multiset_contains(sorted_a, sorted_a[i]);
            to_multiset_contains(sorted_a, sorted_a[j]);
            to_multiset_contains(a, sorted_a[i]);
            to_multiset_contains(a, sorted_a[j]);
            assert(sorted_a.contains(sorted_a[i]));
            assert(sorted_a.contains(sorted_a[j]));
            let ki = choose|k: int| 0 <= k < a.len() && a[k] == sorted_a[i];
            let kj = choose|k: int| 0 <= k < a.len() && a[k] == sorted_a[j];
            assert(a[ki].y == a[kj].y);
        }
    }
    lemma_sorted_permutations_equal(sorted_a, sorted_b);
}

} // verus!
