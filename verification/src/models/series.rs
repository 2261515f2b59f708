//! What is done to the quotes of one series: merging a batch into them,
//! removing an instant, and dropping instants that occur more than once.
use crate::types::{CustomQuote, Timed};
use crate::utils::sorting::{is_sorted, lemma_stable_sort_permutes, sort_by_time, stable_sort};
use vstd::prelude::*;

verus! {

/// The test that a quote equals none of `existing`.
pub open spec fn absent_from(existing: Seq<CustomQuote>) -> spec_fn(CustomQuote) -> bool {
    |q: CustomQuote| !existing.contains(q)
}

/// The quotes of a batch that a series takes in: those that equal none of
/// the quotes it holds, in all six fields.
pub open spec fn accepted(existing: Seq<CustomQuote>, incoming: Seq<CustomQuote>) -> Seq<
    CustomQuote,
> {
    incoming.filter(absent_from(existing))
}

/// A series after a batch was merged into it. Where nothing is taken in the
/// series stays as it is; else the new quotes are put before the old ones
/// and the whole is sorted by instant.
pub open spec fn merged(existing: Seq<CustomQuote>, incoming: Seq<CustomQuote>) -> Seq<
    CustomQuote,
> {
    let fresh = accepted(existing, incoming);
    if fresh.len() == 0 {
        existing
    } else {
        stable_sort(fresh + existing)
    }
}

/// The test that a quote is not at instant `t`.
pub open spec fn not_at(t: int) -> spec_fn(CustomQuote) -> bool {
    |q: CustomQuote| q.time != t
}

/// A series without the quotes at instant `t`.
pub open spec fn removed_at(series: Seq<CustomQuote>, t: int) -> Seq<CustomQuote> {
    series.filter(not_at(t))
}

/// Whether two or more quotes of a series are at instant `t`.
pub open spec fn time_repeats(series: Seq<CustomQuote>, t: int) -> bool {
    exists|i: int, j: int|
        0 <= i < j < series.len() && (#[trigger] series[i]).time == t && (
        #[trigger] series[j]).time == t
}

/// The test that a quote is the only one of `series` at its instant.
pub open spec fn alone_at_its_time(series: Seq<CustomQuote>) -> spec_fn(CustomQuote) -> bool {
    |q: CustomQuote| !time_repeats(series, q.time as int)
}

/// A series without every quote whose instant occurs more than once: of
/// such an instant no quote is kept.
pub open spec fn unique_times(series: Seq<CustomQuote>) -> Seq<CustomQuote> {
    series.filter(alone_at_its_time(series))
}

/// Each quote is later than the one before it.
pub open spec fn strictly_increasing(series: Seq<CustomQuote>) -> bool {
    forall|i: int, j: int| 0 <= i < j < series.len() ==> series[i].time < series[j].time
}

/// The earliest instant of a series, or `fallback` where it is empty.
pub open spec fn earliest(series: Seq<CustomQuote>, fallback: int) -> int
    decreases series.len(),
{
    if series.len() == 0 {
        fallback
    } else {
        let before = earliest(series.drop_last(), fallback);
        if series.len() == 1 || series.last().time < before {
            series.last().time as int
        } else {
            before
        }
    }
}

/// Whether `series` holds a quote equal to `q`.
pub fn holds_quote(series: &Vec<CustomQuote>, q: &CustomQuote) -> (r: bool)
    ensures
        r == series@.contains(*q),
{
    let mut i: usize = 0;
    while i < series.len()
        invariant
            i <= series.len(),
            forall|k: int| 0 <= k < i ==> series@[k] != *q,
        decreases series.len() - i,
    {
        if series[i] == *q {
            return true;
        }
        i = i + 1;
    }
    false
}

/// The quotes of `incoming` that `existing` does not hold yet.
pub fn select_new(existing: &Vec<CustomQuote>, incoming: &Vec<CustomQuote>) -> (fresh: Vec<
    CustomQuote,
>)
    ensures
        fresh@ == accepted(existing@, incoming@),
{
    let mut fresh: Vec<CustomQuote> = Vec::new();
    let mut i: usize = 0;
    while i < incoming.len()
        invariant
            i <= incoming.len(),
            fresh@ == accepted(existing@, incoming@.take(i as int)),
        decreases incoming.len() - i,
    {
        let q: CustomQuote = incoming[i];
        proof {
            broadcast use Seq::lemma_filter_push;

            assert(incoming@.take(i + 1) == incoming@.take(i as int).push(q));
        }
        if !holds_quote(existing, &q) {
            fresh.push(q);
        }
        i = i + 1;
    }
    proof {
        assert(incoming@.take(incoming.len() as int) == incoming@);
    }
    fresh
}

/// Merges a batch into a series.
pub fn merge_quotes(existing: &Vec<CustomQuote>, incoming: &Vec<CustomQuote>) -> (out: Vec<
    CustomQuote,
>)
    ensures
        out@ == merged(existing@, incoming@),
{
    let fresh = select_new(existing, incoming);
    if fresh.len() == 0 {
        copy_quotes(existing)
    } else {
        let mut all: Vec<CustomQuote> = fresh;
        let ghost head = all@;
        let mut i: usize = 0;
        while i < existing.len()
            invariant
                i <= existing.len(),
                all@ == head + existing@.take(i as int),
            decreases existing.len() - i,
        {
            all.push(existing[i]);
            proof {
                assert(existing@.take(i + 1) == existing@.take(i as int).push(existing@[i as int]));
                assert(all@ == head + existing@.take(i + 1));
            }
            i = i + 1;
        }
        proof {
            assert(existing@.take(existing.len() as int) == existing@);
        }
        sort_by_time(all)
    }
}

/// A copy of a series.
pub fn copy_quotes(series: &Vec<CustomQuote>) -> (out: Vec<CustomQuote>)
    ensures
        out@ == series@,
{
    let mut out: Vec<CustomQuote> = Vec::new();
    let mut i: usize = 0;
    while i < series.len()
        invariant
            i <= series.len(),
            out@ == series@.take(i as int),
        decreases series.len() - i,
    {
        out.push(series[i]);
        proof {
            assert(series@.take(i + 1) == series@.take(i as int).push(series@[i as int]));
        }
        i = i + 1;
    }
    proof {
        assert(series@.take(series.len() as int) == series@);
    }
    out
}

/// The series without the quotes at instant `t`.
pub fn without_time(series: &Vec<CustomQuote>, t: i64) -> (out: Vec<CustomQuote>)
    ensures
        out@ == removed_at(series@, t as int),
{
    let mut out: Vec<CustomQuote> = Vec::new();
    let mut i: usize = 0;
    while i < series.len()
        invariant
            i <= series.len(),
            out@ == removed_at(series@.take(i as int), t as int),
        decreases series.len() - i,
    {
        let q: CustomQuote = series[i];
        proof {
            broadcast use Seq::lemma_filter_push;

            assert(series@.take(i + 1) == series@.take(i as int).push(q));
        }
        if q.time != t {
            out.push(q);
        }
        i = i + 1;
    }
    proof {
        assert(series@.take(series.len() as int) == series@);
    }
    out
}

/// The earliest instant of a series, or `fallback` where it is empty.
pub fn earliest_time(series: &Vec<CustomQuote>, fallback: i64) -> (t: i64)
    ensures
        t == earliest(series@, fallback as int),
{
    let mut t: i64 = fallback;
    let mut i: usize = 0;
    while i < series.len()
        invariant
            i <= series.len(),
            t == earliest(series@.take(i as int), fallback as int),
        decreases series.len() - i,
    {
        proof {
            assert(series@.take(i + 1).drop_last() == series@.take(i as int));
        }
        if i == 0 || series[i].time < t {
            t = series[i].time;
        }
        i = i + 1;
    }
    proof {
        assert(series@.take(series.len() as int) == series@);
    }
    t
}

/// Whether the quotes are in ascending order of instant.
pub fn in_time_order(series: &Vec<CustomQuote>) -> (r: bool)
    ensures
        r == is_sorted(series@),
{
    if series.len() < 2 {
        return true;
    }
    let mut i: usize = 1;
    while i < series.len()
        invariant
            1 <= i <= series.len(),
            forall|a: int, b: int| 0 <= a <= b < i ==> series@[a].time <= series@[b].time,
        decreases series.len() - i,
    {
        if series[i - 1].time > series[i].time {
            proof {
                assert(series@[i - 1].instant() > series@[i as int].instant());
            }
            return false;
        }
        i = i + 1;
    }
    true
}

/// In a sorted series an instant occurs twice exactly where a quote has a
/// neighbour at its own instant.
pub proof fn lemma_repeats_beside(series: Seq<CustomQuote>, i: int)
    requires
        is_sorted(series),
        0 <= i < series.len(),
    ensures
        time_repeats(series, series[i].time as int) <==> ((i > 0 && series[i - 1].time
            == series[i].time) || (i + 1 < series.len() && series[i + 1].time == series[i].time)),
{
    let t = series[i].time as int;
    if time_repeats(series, t) {
        let (a, b) = choose|a: int, b: int|
            0 <= a < b < series.len() && (#[trigger] series[a]).time == t && (
            #[trigger] series[b]).time == t;
        if b > i {
            assert(series[i].instant() <= series[i + 1].instant() <= series[b].instant());
        } else {
            assert(series[a].instant() <= series[i - 1].instant() <= series[i].instant());
        }
    }
    if i > 0 && series[i - 1].time == series[i].time {
        assert(series[i - 1].time == t && series[i].time == t);
    }
    if i + 1 < series.len() && series[i + 1].time == series[i].time {
        assert(series[i].time == t && series[i + 1].time == t);
    }
}

/// Whether a quote other than the one at `i` is at the same instant.
fn shares_time(series: &Vec<CustomQuote>, i: usize) -> (r: bool)
    requires
        i < series.len(),
    ensures
        r == time_repeats(series@, series@[i as int].time as int),
{
    let t: i64 = series[i].time;
    let mut k: usize = 0;
    while k < series.len()
        invariant
            k <= series.len(),
            i < series.len(),
            t == series@[i as int].time,
            forall|j: int| 0 <= j < k && j != i ==> series@[j].time != t,
        decreases series.len() - k,
    {
        if k != i && series[k].time == t {
            proof {
                if k < i {
                    assert(series@[k as int].time == t && series@[i as int].time == t);
                } else {
                    assert(series@[i as int].time == t && series@[k as int].time == t);
                }
            }
            return true;
        }
        k = k + 1;
    }
    false
}

/// The series without every quote whose instant occurs more than once.
pub fn drop_repeated_times(series: &Vec<CustomQuote>) -> (out: Vec<CustomQuote>)
    ensures
        out@ == unique_times(series@),
{
    let sorted = in_time_order(series);
    let mut out: Vec<CustomQuote> = Vec::new();
    let mut i: usize = 0;
    while i < series.len()
        invariant
            i <= series.len(),
            sorted == is_sorted(series@),
            out@ == series@.take(i as int).filter(alone_at_its_time(series@)),
        decreases series.len() - i,
    {
        let q: CustomQuote = series[i];
        let repeated = if sorted {
            proof {
                lemma_repeats_beside(series@, i as int);
            }
            (i > 0 && series[i - 1].time == q.time) || (i + 1 < series.len() && series[i + 1].time
                == q.time)
        } else {
            shares_time(series, i)
        };
        proof {
            broadcast use Seq::lemma_filter_push;

            assert(series@.take(i + 1) == series@.take(i as int).push(q));
        }
        if !repeated {
            out.push(q);
        }
        i = i + 1;
    }
    proof {
        assert(series@.take(series.len() as int) == series@);
    }
    out
}

/// What is kept of a sequence without duplicates has none.
pub proof fn lemma_filter_keeps_distinct(s: Seq<CustomQuote>, pred: spec_fn(CustomQuote) -> bool)
    requires
        s.no_duplicates(),
    ensures
        s.filter(pred).no_duplicates(),
    decreases s.len(),
{
    reveal(Seq::filter);
    if s.len() > 0 {
        let front = s.drop_last();
        lemma_filter_keeps_distinct(front, pred);
        if pred(s.last()) && front.filter(pred).contains(s.last()) {
            front.lemma_filter_contains_rev(pred, s.last());
            let k = choose|k: int| 0 <= k < front.len() && front[k] == s.last();
            assert(s[k] == s[s.len() - 1]);
        }
    }
}

/// A merge brings no quote in twice: where neither the series nor the
/// batch holds two equal quotes, the merged series holds none.
pub proof fn lemma_merge_keeps_distinct(existing: Seq<CustomQuote>, incoming: Seq<CustomQuote>)
    requires
        existing.no_duplicates(),
        incoming.no_duplicates(),
    ensures
        merged(existing, incoming).no_duplicates(),
{
    let fresh = accepted(existing, incoming);
    if fresh.len() > 0 {
        lemma_filter_keeps_distinct(incoming, absent_from(existing));
        assert forall|i: int, j: int| 0 <= i < fresh.len() && 0 <= j < existing.len() implies fresh[i]
            != existing[j] by {
            incoming.lemma_filter_pred(absent_from(existing), i);
        }
        vstd::seq_lib::lemma_no_dup_in_concat(fresh, existing);
        lemma_stable_sort_permutes(fresh + existing);
        (fresh + existing).lemma_multiset_has_no_duplicates();
        stable_sort(fresh + existing).lemma_multiset_has_no_duplicates_conv();
    }
}

/// A merged series holds every quote of the batch.
pub proof fn lemma_merge_holds_batch(existing: Seq<CustomQuote>, incoming: Seq<CustomQuote>, i: int)
    requires
        0 <= i < incoming.len(),
    ensures
        merged(existing, incoming).contains(incoming[i]),
{
    broadcast use vstd::seq_lib::group_to_multiset_ensures;

    let fresh = accepted(existing, incoming);
    let q = incoming[i];
    if !existing.contains(q) {
        incoming.lemma_filter_contains(absent_from(existing), i);
    }
    if fresh.len() > 0 {
        let all = fresh + existing;
        if existing.contains(q) {
            let k = choose|k: int| 0 <= k < existing.len() && existing[k] == q;
            assert(all[fresh.len() + k] == q);
        } else {
            let k = choose|k: int| 0 <= k < fresh.len() && fresh[k] == q;
            assert(all[k] == q);
        }
        assert(all.contains(q));
        lemma_stable_sort_permutes(all);
        assert(stable_sort(all).to_multiset().count(q) > 0);
    }
}

/// Merging a batch a second time changes nothing.
pub proof fn lemma_merge_twice(existing: Seq<CustomQuote>, incoming: Seq<CustomQuote>)
    ensures
        merged(merged(existing, incoming), incoming) == merged(existing, incoming),
{
    let once = merged(existing, incoming);
    assert forall|i: int| 0 <= i < incoming.len() implies !absent_from(once)(
        #[trigger] incoming[i],
    ) by {
        lemma_merge_holds_batch(existing, incoming, i);
    }
    incoming.lemma_all_neg_filter_empty(absent_from(once));
}

/// What is kept of the first `n` quotes of a series, by a test that only
/// quotes alone at their instant pass, has no instant twice, and is in
/// order where the series is.
proof fn lemma_kept_times(series: Seq<CustomQuote>, pred: spec_fn(CustomQuote) -> bool, n: int)
    requires
        0 <= n <= series.len(),
        forall|q: CustomQuote| pred(q) ==> !time_repeats(series, q.time as int),
    ensures
        forall|i: int, j: int|
            0 <= i < j < series.take(n).filter(pred).len() ==> series.take(n).filter(pred)[i].time
                != series.take(n).filter(pred)[j].time,
        is_sorted(series) ==> is_sorted(series.take(n).filter(pred)),
    decreases n,
{
    reveal(Seq::filter);
    let part = series.take(n);
    if n > 0 {
        let front = series.take(n - 1);
        assert(part.drop_last() == front);
        lemma_kept_times(series, pred, n - 1);
        let kept = front.filter(pred);
        let last = part.last();
        if pred(last) {
            let out = part.filter(pred);
            assert(out == kept.push(last));
            assert forall|i: int| 0 <= i < kept.len() implies kept[i].time != last.time && (
            is_sorted(series) ==> kept[i].time <= last.time) by {
                assert(kept.contains(kept[i]));
                front.lemma_filter_contains_rev(pred, kept[i]);
                let k = choose|k: int| 0 <= k < front.len() && front[k] == kept[i];
                assert(series[k] == kept[i]);
                assert(series[n - 1] == last);
                if kept[i].time == last.time {
                    assert(time_repeats(series, last.time as int));
                }
                if is_sorted(series) {
                    assert(series[k].instant() <= series[n - 1].instant());
                }
            }
            assert forall|i: int, j: int| 0 <= i < j < out.len() implies out[i].time
                != out[j].time by {
                if j < kept.len() {
                    assert(out[i] == kept[i] && out[j] == kept[j]);
                } else {
                    assert(out[i] == kept[i]);
                }
            }
            if is_sorted(series) {
                assert forall|i: int, j: int| 0 <= i <= j < out.len() implies out[i].instant()
                    <= out[j].instant() by {
                    if j < kept.len() {
                        assert(out[i] == kept[i] && out[j] == kept[j]);
                    } else if i < kept.len() {
                        assert(out[i] == kept[i]);
                    }
                }
            }
        }
    }
}

/// Once the repeated instants are dropped, no instant occurs twice; and
/// where the series was in order, each quote is later than the one before.
pub proof fn lemma_unique_times(series: Seq<CustomQuote>)
    ensures
        forall|i: int, j: int|
            0 <= i < j < unique_times(series).len() ==> unique_times(series)[i].time
                != unique_times(series)[j].time,
        is_sorted(series) ==> strictly_increasing(unique_times(series)),
{
    lemma_kept_times(series, alone_at_its_time(series), series.len() as int);
    assert(series.take(series.len() as int) == series);
    let out = unique_times(series);
    if is_sorted(series) {
        assert forall|i: int, j: int| 0 <= i < j < out.len() implies out[i].time < out[j].time by {
            assert(out[i].instant() <= out[j].instant());
        }
    }
}

} // verus!
