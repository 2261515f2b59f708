//! Stable ordering of timed items by instant.
use crate::types::Timed;
use vstd::prelude::*;

verus! {

/// Every item is at or after the one before it.
pub open spec fn is_sorted<T: Timed>(s: Seq<T>) -> bool {
    forall|i: int, j: int| 0 <= i <= j < s.len() ==> s[i].instant() <= s[j].instant()
}

/// Where an item of instant `t` goes in a sorted sequence: behind every
/// item that is not later than it.
pub open spec fn insertion_point<T: Timed>(s: Seq<T>, t: int) -> int
    decreases s.len(),
{
    if s.len() == 0 || s.last().instant() <= t {
        s.len() as int
    } else {
        insertion_point(s.drop_last(), t)
    }
}

/// The items of `s` in ascending order of instant, items of one instant in
/// the order in which they stood in `s`.
pub open spec fn stable_sort<T: Timed>(s: Seq<T>) -> Seq<T>
    decreases s.len(),
{
    if s.len() == 0 {
        s
    } else {
        let head = stable_sort(s.drop_last());
        head.insert(insertion_point(head, s.last().instant()), s.last())
    }
}

/// The insertion point lies within the sequence, behind every item that is
/// not later than `t` and before every item that is.
pub proof fn lemma_insertion_point_bounds<T: Timed>(s: Seq<T>, t: int)
    ensures
        0 <= insertion_point(s, t) <= s.len(),
        forall|k: int| insertion_point(s, t) <= k < s.len() ==> s[k].instant() > t,
        insertion_point(s, t) > 0 ==> s[insertion_point(s, t) - 1].instant() <= t,
    decreases s.len(),
{
    if s.len() == 0 || s.last().instant() <= t {
    } else {
        let front = s.drop_last();
        lemma_insertion_point_bounds(front, t);
        assert forall|k: int| insertion_point(s, t) <= k < s.len() implies s[k].instant()
            > t by {
            if k < front.len() {
                assert(front[k] == s[k]);
            }
        }
        if insertion_point(s, t) > 0 {
            assert(front[insertion_point(s, t) - 1] == s[insertion_point(s, t) - 1]);
        }
    }
}

/// What comes out of the sort is in order.
pub proof fn lemma_stable_sort_sorted<T: Timed>(s: Seq<T>)
    ensures
        is_sorted(stable_sort(s)),
    decreases s.len(),
{
    if s.len() > 0 {
        let head = stable_sort(s.drop_last());
        let t = s.last().instant();
        let p = insertion_point(head, t);
        lemma_stable_sort_sorted(s.drop_last());
        lemma_insertion_point_bounds(head, t);
        let out = head.insert(p, s.last());
        assert forall|i: int, j: int| 0 <= i <= j < out.len() implies out[i].instant()
            <= out[j].instant() by {
            if j < p {
                assert(out[i] == head[i] && out[j] == head[j]);
            } else if i > p {
                assert(out[i] == head[i - 1] && out[j] == head[j - 1]);
            } else if i == p && j == p {
            } else if i == p {
                assert(out[j] == head[j - 1]);
            } else if j == p {
                assert(out[i] == head[i]);
                if p > 0 {
                    assert(head[i].instant() <= head[p - 1].instant());
                }
            } else {
                assert(out[i] == head[i] && out[j] == head[j - 1]);
            }
        }
    }
}

/// The sort neither adds nor loses an item.
pub proof fn lemma_stable_sort_permutes<T: Timed>(s: Seq<T>)
    ensures
        stable_sort(s).to_multiset() == s.to_multiset(),
    decreases s.len(),
{
    broadcast use vstd::seq_lib::group_to_multiset_ensures;

    if s.len() > 0 {
        let head = stable_sort(s.drop_last());
        let p = insertion_point(head, s.last().instant());
        lemma_stable_sort_permutes(s.drop_last());
        lemma_insertion_point_bounds(head, s.last().instant());
        assert(s == s.drop_last().push(s.last()));
        assert(head.insert(p, s.last()).to_multiset() == head.to_multiset().insert(s.last()));
        assert(s.to_multiset() == s.drop_last().to_multiset().insert(s.last()));
    } else {
        assert(stable_sort(s) == s);
    }
}

/// The test that an item is at instant `t`.
pub open spec fn at_instant<T: Timed>(t: int) -> spec_fn(T) -> bool {
    |item: T| item.instant() == t
}

/// The sort is stable: the items of any one instant come out in the order
/// in which they went in.
pub proof fn lemma_stable_sort_is_stable<T: Timed>(s: Seq<T>, t: int)
    ensures
        stable_sort(s).filter(at_instant(t)) == s.filter(at_instant(t)),
    decreases s.len(),
{
    reveal(Seq::filter);
    if s.len() > 0 {
        let front = s.drop_last();
        let item = s.last();
        let head = stable_sort(front);
        let p = insertion_point(head, item.instant());
        let pred = at_instant::<T>(t);
        lemma_stable_sort_is_stable(front, t);
        lemma_insertion_point_bounds(head, item.instant());
        let left = head.subrange(0, p);
        let right = head.subrange(p, head.len() as int);
        assert(head == left + right);
        assert(head.insert(p, item) == left.push(item) + right);
        Seq::filter_distributes_over_add(left, right, pred);
        Seq::filter_distributes_over_add(left.push(item), right, pred);
        left.lemma_filter_push(item, pred);
        if item.instant() == t {
            assert forall|k: int| 0 <= k < right.len() implies !pred(#[trigger] right[k]) by {
                assert(right[k] == head[p + k]);
            }
            right.lemma_all_neg_filter_empty(pred);
            assert(right.filter(pred) == Seq::<T>::empty());
            assert(left.filter(pred) + Seq::<T>::empty() == left.filter(pred));
            assert(left.filter(pred).push(item) + Seq::<T>::empty() == left.filter(pred).push(item));
        }
    }
}

/// Taking out an item that a test does not pass leaves what the test keeps.
proof fn lemma_remove_unkept<T>(s: Seq<T>, q: int, pred: spec_fn(T) -> bool)
    requires
        0 <= q < s.len(),
        !pred(s[q]),
    ensures
        s.remove(q).filter(pred) == s.filter(pred),
    decreases s.len(),
{
    reveal(Seq::filter);
    if q == s.len() - 1 {
        assert(s.remove(q) == s.drop_last());
    } else {
        lemma_remove_unkept(s.drop_last(), q, pred);
        assert(s.remove(q).drop_last() == s.drop_last().remove(q));
        assert(s.remove(q).last() == s.last());
    }
}

/// Where a test keeps something, the place of the last item that it keeps:
/// taking that item out takes it off the end of what is kept.
proof fn lemma_last_kept<T>(s: Seq<T>, pred: spec_fn(T) -> bool) -> (q: int)
    requires
        s.filter(pred).len() > 0,
    ensures
        0 <= q < s.len(),
        pred(s[q]),
        forall|k: int| q < k < s.len() ==> !pred(s[k]),
        s.filter(pred).last() == s[q],
        s.remove(q).filter(pred) == s.filter(pred).drop_last(),
    decreases s.len(),
{
    reveal(Seq::filter);
    if pred(s.last()) {
        let q = s.len() - 1;
        assert(s.remove(q) == s.drop_last());
        assert(s.filter(pred).drop_last() == s.drop_last().filter(pred));
        q
    } else {
        let front = s.drop_last();
        let q = lemma_last_kept(front, pred);
        assert(s.remove(q).drop_last() == front.remove(q));
        assert(s.remove(q).last() == s.last());
        assert forall|k: int| q < k < s.len() implies !pred(s[k]) by {
            if k < front.len() {
                assert(front[k] == s[k]);
            }
        }
        q
    }
}

/// The insertion point is the one place that parts the items that are not
/// later than `t` from those that are.
proof fn lemma_insertion_point_is<T: Timed>(s: Seq<T>, t: int, q: int)
    requires
        0 <= q <= s.len(),
        forall|k: int| 0 <= k < q ==> s[k].instant() <= t,
        forall|k: int| q <= k < s.len() ==> s[k].instant() > t,
    ensures
        insertion_point(s, t) == q,
    decreases s.len(),
{
    if s.len() > 0 && q < s.len() {
        let front = s.drop_last();
        assert forall|k: int| q <= k < front.len() implies front[k].instant() > t by {
            assert(front[k] == s[k]);
        }
        assert forall|k: int| 0 <= k < q implies front[k].instant() <= t by {
            assert(front[k] == s[k]);
        }
        lemma_insertion_point_is(front, t, q);
    }
}

/// There is one stable sort: a sequence that is in order and holds, for
/// every instant, the items of `s` at that instant in their order is the
/// sorted `s`.
pub proof fn lemma_stable_sort_is_unique<T: Timed>(s: Seq<T>, out: Seq<T>)
    requires
        is_sorted(out),
        forall|t: int| out.filter(at_instant(t)) == s.filter(at_instant(t)),
    ensures
        out == stable_sort(s),
    decreases s.len(),
{
    reveal(Seq::filter);
    if s.len() == 0 {
        if out.len() > 0 {
            let pred = at_instant::<T>(out[0].instant());
            out.lemma_filter_contains(pred, 0);
            assert(s.filter(pred).len() == 0);
        }
        assert(out =~= s);
    } else {
        let front = s.drop_last();
        let item = s.last();
        let t0 = item.instant();
        let pred = at_instant::<T>(t0);
        assert(s.filter(pred) == front.filter(pred).push(item));
        let q = lemma_last_kept(out, pred);
        let rest = out.remove(q);
        assert(out[q] == item);
        assert forall|i: int, j: int| 0 <= i <= j < rest.len() implies rest[i].instant()
            <= rest[j].instant() by {
            let a = if i < q { i } else { i + 1 };
            let b = if j < q { j } else { j + 1 };
            assert(rest[i] == out[a] && rest[j] == out[b]);
        }
        assert forall|t: int| rest.filter(at_instant(t)) == front.filter(at_instant(t)) by {
            if t == t0 {
                assert(at_instant::<T>(t) == pred);
                assert(front.filter(pred).push(item).drop_last() == front.filter(pred));
            } else {
                lemma_remove_unkept(out, q, at_instant::<T>(t));
            }
        }
        lemma_stable_sort_is_unique(front, rest);
        let head = stable_sort(front);
        assert forall|k: int| 0 <= k < q implies head[k].instant() <= t0 by {
            assert(head[k] == out[k]);
            assert(out[k].instant() <= out[q].instant());
        }
        assert forall|k: int| q <= k < head.len() implies head[k].instant() > t0 by {
            assert(head[k] == out[k + 1]);
            assert(out[q].instant() <= out[k + 1].instant());
            assert(!pred(out[k + 1]));
        }
        lemma_insertion_point_is(head, t0, q);
        assert(out =~= head.insert(q, item));
    }
}

/// A sequence that is already in order is left as it is.
pub proof fn lemma_stable_sort_of_sorted<T: Timed>(s: Seq<T>)
    requires
        is_sorted(s),
    ensures
        stable_sort(s) == s,
    decreases s.len(),
{
    if s.len() > 0 {
        let front = s.drop_last();
        assert(is_sorted(front)) by {
            assert forall|i: int, j: int| 0 <= i <= j < front.len() implies front[i].instant()
                <= front[j].instant() by {
                assert(front[i] == s[i] && front[j] == s[j]);
            }
        }
        lemma_stable_sort_of_sorted(front);
        if front.len() > 0 {
            assert(front.last() == s[s.len() - 2]);
            assert(front.last().instant() <= s.last().instant());
        }
        assert(insertion_point(front, s.last().instant()) == front.len());
        assert(front.insert(front.len() as int, s.last()) =~= s);
    }
}

/// Merges two sorted runs into one. Of two items at one instant, the one
/// from `left` comes first.
fn merge_runs<T: Timed>(left: &Vec<T>, right: &Vec<T>) -> (out: Vec<T>)
    requires
        is_sorted(left@),
        is_sorted(right@),
    ensures
        is_sorted(out@),
        forall|t: int| #[trigger]
            out@.filter(at_instant(t)) == left@.filter(at_instant(t)) + right@.filter(
                at_instant(t),
            ),
{
    let mut out: Vec<T> = Vec::new();
    let mut i: usize = 0;
    let mut j: usize = 0;
    proof {
        assert forall|t: int| #[trigger]
            out@.filter(at_instant(t)) == left@.take(0).filter(at_instant(t)) + right@.take(
                0,
            ).filter(at_instant(t)) by {
            reveal(Seq::filter);
            assert(left@.take(0).filter(at_instant(t)).len() == 0);
            assert(right@.take(0).filter(at_instant(t)).len() == 0);
            assert(out@.filter(at_instant(t)).len() == 0);
        }
    }
    while i < left.len() || j < right.len()
        invariant
            i <= left.len(),
            j <= right.len(),
            is_sorted(left@),
            is_sorted(right@),
            is_sorted(out@),
            forall|k: int|
                0 <= k < out@.len() && i < left@.len() ==> out@[k].instant()
                    <= left@[i as int].instant(),
            forall|k: int|
                0 <= k < out@.len() && j < right@.len() ==> out@[k].instant()
                    <= right@[j as int].instant(),
            forall|k: int|
                0 <= k < j && i < left@.len() ==> right@[k].instant() < left@[i as int].instant(),
            forall|t: int| #[trigger]
                out@.filter(at_instant(t)) == left@.take(i as int).filter(at_instant(t))
                    + right@.take(j as int).filter(at_instant(t)),
        decreases left.len() - i + right.len() - j,
    {
        let from_left = if j >= right.len() {
            true
        } else if i >= left.len() {
            false
        } else {
            left[i].time_ms() <= right[j].time_ms()
        };
        let ghost before = out@;
        if from_left {
            let item: T = left[i];
            out.push(item);
            proof {
                assert(left@.take(i + 1) == left@.take(i as int).push(item));
                assert forall|t: int| #[trigger]
                    out@.filter(at_instant(t)) == left@.take(i + 1).filter(at_instant(t))
                        + right@.take(j as int).filter(at_instant(t)) by {
                    let pred = at_instant::<T>(t);
                    let a = left@.take(i as int).filter(pred);
                    let b = right@.take(j as int).filter(pred);
                    before.lemma_filter_push(item, pred);
                    left@.take(i as int).lemma_filter_push(item, pred);
                    assert(before.filter(pred) == a + b);
                    if pred(item) {
                        assert forall|k: int| 0 <= k < j implies !pred(
                            #[trigger] right@.take(j as int)[k],
                        ) by {
                            assert(right@[k].instant() < left@[i as int].instant());
                        }
                        right@.take(j as int).lemma_all_neg_filter_empty(pred);
                        assert(b =~= Seq::<T>::empty());
                        assert((a + b).push(item) =~= a.push(item) + b);
                    }
                }
                assert forall|x: int, y: int| 0 <= x <= y < out@.len() implies out@[x].instant()
                    <= out@[y].instant() by {
                    if y < before.len() {
                        assert(out@[x] == before[x] && out@[y] == before[y]);
                    } else if x < before.len() {
                        assert(out@[x] == before[x]);
                    }
                }
                if i + 1 < left@.len() {
                    assert(left@[i as int].instant() <= left@[i + 1].instant());
                }
            }
            i = i + 1;
        } else {
            let item: T = right[j];
            out.push(item);
            proof {
                assert(right@.take(j + 1) == right@.take(j as int).push(item));
                assert forall|t: int| #[trigger]
                    out@.filter(at_instant(t)) == left@.take(i as int).filter(at_instant(t))
                        + right@.take(j + 1).filter(at_instant(t)) by {
                    let pred = at_instant::<T>(t);
                    let a = left@.take(i as int).filter(pred);
                    let b = right@.take(j as int).filter(pred);
                    before.lemma_filter_push(item, pred);
                    right@.take(j as int).lemma_filter_push(item, pred);
                    assert(before.filter(pred) == a + b);
                    if pred(item) {
                        assert((a + b).push(item) =~= a + b.push(item));
                    }
                }
                assert forall|x: int, y: int| 0 <= x <= y < out@.len() implies out@[x].instant()
                    <= out@[y].instant() by {
                    if y < before.len() {
                        assert(out@[x] == before[x] && out@[y] == before[y]);
                    } else if x < before.len() {
                        assert(out@[x] == before[x]);
                    }
                }
                if j + 1 < right@.len() {
                    assert(right@[j as int].instant() <= right@[j + 1].instant());
                }
            }
            j = j + 1;
        }
    }
    proof {
        assert(left@.take(left@.len() as int) == left@);
        assert(right@.take(right@.len() as int) == right@);
    }
    out
}

/// The items of `v` from place `lo` up to place `hi`, sorted.
fn sort_range<T: Timed>(v: &Vec<T>, lo: usize, hi: usize) -> (out: Vec<T>)
    requires
        lo <= hi <= v.len(),
    ensures
        is_sorted(out@),
        forall|t: int| #[trigger]
            out@.filter(at_instant(t)) == v@.subrange(lo as int, hi as int).filter(at_instant(t)),
    decreases hi - lo,
{
    if hi - lo <= 1 {
        let mut out: Vec<T> = Vec::new();
        if lo < hi {
            out.push(v[lo]);
        }
        proof {
            assert(out@ =~= v@.subrange(lo as int, hi as int));
        }
        out
    } else {
        let mid: usize = lo + (hi - lo) / 2;
        let left = sort_range(v, lo, mid);
        let right = sort_range(v, mid, hi);
        let out = merge_runs(&left, &right);
        proof {
            let first = v@.subrange(lo as int, mid as int);
            let second = v@.subrange(mid as int, hi as int);
            assert(v@.subrange(lo as int, hi as int) =~= first + second);
            assert forall|t: int| #[trigger]
                out@.filter(at_instant(t)) == v@.subrange(lo as int, hi as int).filter(
                    at_instant(t),
                ) by {
                Seq::filter_distributes_over_add(first, second, at_instant::<T>(t));
            }
        }
        out
    }
}

/// Sorts `v` by instant, keeping items of one instant in their order.
pub fn sort_by_time<T: Timed>(v: Vec<T>) -> (out: Vec<T>)
    ensures
        out@ == stable_sort(v@),
{
    let out = sort_range(&v, 0, v.len());
    proof {
        assert(v@.subrange(0, v@.len() as int) == v@);
        lemma_stable_sort_is_unique(v@, out@);
    }
    out
}

} // verus!
