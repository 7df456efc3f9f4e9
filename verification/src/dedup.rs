//! The merge that turns the rows of one group into a time-ordered sequence
//! with one row per timestamp.

use crate::field_value::{duplicate_opt, fields_view, opt_view, FieldVal, FieldValView};
use crate::row::{duplicate_rows, rows_view, RowData, RowView};
use vstd::prelude::*;

verus! {

/// `later` laid over `earlier`: at each position the later value where it
/// is present, else the earlier one.
pub open spec fn merge_fields(
    earlier: Seq<Option<FieldValView>>,
    later: Seq<Option<FieldValView>>,
) -> Seq<Option<FieldValView>> {
    Seq::new(
        if earlier.len() >= later.len() {
            earlier.len()
        } else {
            later.len()
        },
        |i: int|
            if i < later.len() && later[i] is Some {
                later[i]
            } else if i < earlier.len() {
                earlier[i]
            } else {
                None
            },
    )
}

/// `r` placed into the time-ordered `s` behind every row that is not later
/// than it.
pub open spec fn insert_by_ts(s: Seq<RowView>, r: RowView) -> Seq<RowView>
    decreases s.len(),
{
    if s.len() == 0 || s.last().ts <= r.ts {
        s.push(r)
    } else {
        insert_by_ts(s.drop_last(), r).push(s.last())
    }
}

/// The rows in ascending time order, rows of equal time in the order they
/// had.
pub open spec fn sort_by_ts(s: Seq<RowView>) -> Seq<RowView>
    decreases s.len(),
{
    if s.len() == 0 {
        s
    } else {
        insert_by_ts(sort_by_ts(s.drop_last()), s.last())
    }
}

/// Consecutive rows of equal time folded into one, left to right.
pub open spec fn dedup_sorted(s: Seq<RowView>) -> Seq<RowView>
    decreases s.len(),
{
    if s.len() == 0 {
        s
    } else {
        let prev = dedup_sorted(s.drop_last());
        let r = s.last();
        if prev.len() > 0 && prev.last().ts == r.ts {
            prev.update(
                prev.len() - 1,
                RowView { ts: r.ts, fields: merge_fields(prev.last().fields, r.fields) },
            )
        } else {
            prev.push(r)
        }
    }
}

/// The merge of a group's rows: sorted by time, one row per timestamp, the
/// last present value of each field kept.
pub open spec fn dedup_and_sort(s: Seq<RowView>) -> Seq<RowView> {
    dedup_sorted(sort_by_ts(s))
}

/// Whether timestamps never decrease along the sequence.
pub open spec fn ascending(s: Seq<RowView>) -> bool {
    forall|i: int, j: int| 0 <= i < j < s.len() ==> s[i].ts <= s[j].ts
}

/// Whether timestamps strictly increase along the sequence.
pub open spec fn strictly_ascending(s: Seq<RowView>) -> bool {
    forall|i: int, j: int| 0 <= i < j < s.len() ==> s[i].ts < s[j].ts
}

/// The rows of the given time, in their order.
pub open spec fn at_time(rows: Seq<RowView>, ts: i64) -> Seq<RowView> {
    rows.filter(|r: RowView| r.ts == ts)
}

/// Whether `after` is `before` sorted by time without reordering rows of
/// equal time: times never decrease, and for each time the rows of that
/// time are the same and in the same order.
pub open spec fn stably_sorted(before: Seq<RowView>, after: Seq<RowView>) -> bool {
    &&& ascending(after)
    &&& forall|ts: i64| #[trigger] at_time(after, ts) == at_time(before, ts)
}

/// `Vec::sort_by_key` on the rows' timestamps: a stable sort, so the rows
/// come out in ascending time order with rows of equal time in the order
/// they had.
#[verifier::external_body]
fn sort_rows_by_ts(rows: &mut Vec<RowData>)
    ensures
        stably_sorted(rows_view(old(rows)@), rows_view(final(rows)@)),
{
    rows.sort_by_key(|r| r.ts);
}

/// Lays `src` over `dst` field by field.
pub fn merge_into(dst: &mut Vec<Option<FieldVal>>, src: &Vec<Option<FieldVal>>)
    ensures
        fields_view(final(dst)@) == merge_fields(fields_view(old(dst)@), fields_view(src@)),
{
    while dst.len() < src.len()
        invariant
            dst.len() >= old(dst).len(),
            dst.len() <= old(dst).len() || dst.len() <= src.len(),
            forall|k: int| 0 <= k < old(dst).len() ==> opt_view(dst[k]) == opt_view(old(dst)[k]),
            forall|k: int| old(dst).len() <= k < dst.len() ==> dst[k] is None,
        decreases src.len() - dst.len(),
    {
        dst.push(None);
    }
    let ghost mid = dst@;
    let mut i: usize = 0;
    while i < src.len()
        invariant
            i <= src.len(),
            dst.len() == mid.len(),
            mid.len() >= src.len(),
            mid.len() >= old(dst).len(),
            mid.len() <= old(dst).len() || mid.len() <= src.len(),
            forall|k: int| 0 <= k < old(dst).len() ==> opt_view(mid[k]) == opt_view(old(dst)[k]),
            forall|k: int| old(dst).len() <= k < mid.len() ==> mid[k] is None,
            forall|k: int|
                0 <= k < i ==> opt_view(#[trigger] dst[k]) == if src[k] is Some {
                    opt_view(src[k])
                } else {
                    opt_view(mid[k])
                },
            forall|k: int| i <= k < dst.len() ==> opt_view(#[trigger] dst[k]) == opt_view(mid[k]),
        decreases src.len() - i,
    {
        if src[i].is_some() {
            dst[i] = duplicate_opt(&src[i]);
        }
        i += 1;
    }
}

/// Sorts the rows by time and folds rows of equal time into one: for each
/// field the last value that is present wins, and an absent value never
/// replaces one that was kept.
pub fn dedup_and_sort_row_data(data: &Vec<RowData>) -> (result: Vec<RowData>)
    ensures
        rows_view(result@) == dedup_and_sort(rows_view(data@)),
{
    let mut sorted = duplicate_rows(data);
    sort_rows_by_ts(&mut sorted);
    proof {
        lemma_sort_stable(rows_view(data@));
        lemma_stable_sort_unique(
            rows_view(data@),
            rows_view(sorted@),
            sort_by_ts(rows_view(data@)),
        );
    }
    let mut result: Vec<RowData> = Vec::with_capacity(sorted.len());
    let mut i: usize = 0;
    while i < sorted.len()
        invariant
            i <= sorted.len(),
            rows_view(result@) == dedup_sorted(rows_view(sorted@).take(i as int)),
        decreases sorted.len() - i,
    {
        let ghost all = rows_view(sorted@);
        assert(all.take(i + 1).drop_last() =~= all.take(i as int));
        let row = &sorted[i];
        let n = result.len();
        if n > 0 && result[n - 1].ts == row.ts {
            let mut last = result.pop().unwrap();
            merge_into(&mut last.fields, &row.fields);
            result.push(last);
        } else {
            result.push(row.duplicate());
        }
        i += 1;
    }
    assert(rows_view(sorted@).take(sorted.len() as int) =~= rows_view(sorted@));
    result
}

/// Whether no row of the sequence is later than `bound`.
pub open spec fn none_after(s: Seq<RowView>, bound: i64) -> bool {
    forall|i: int| 0 <= i < s.len() ==> (#[trigger] s[i]).ts <= bound
}

/// Inserting a row adds one row and keeps an upper bound on the times.
pub proof fn lemma_insert_bound(s: Seq<RowView>, r: RowView, bound: i64)
    requires
        none_after(s, bound),
        r.ts <= bound,
    ensures
        none_after(insert_by_ts(s, r), bound),
        insert_by_ts(s, r).len() == s.len() + 1,
    decreases s.len(),
{
    if !(s.len() == 0 || s.last().ts <= r.ts) {
        lemma_insert_bound(s.drop_last(), r, bound);
    }
}

/// Inserting into a time-ordered sequence keeps it time-ordered.
pub proof fn lemma_insert_ascending(s: Seq<RowView>, r: RowView)
    requires
        ascending(s),
    ensures
        ascending(insert_by_ts(s, r)),
    decreases s.len(),
{
    if !(s.len() == 0 || s.last().ts <= r.ts) {
        let front = s.drop_last();
        lemma_insert_ascending(front, r);
        lemma_insert_bound(front, r, s.last().ts);
    }
}

/// Sorting yields a time-ordered sequence of the same length.
pub proof fn lemma_sort_ascending(s: Seq<RowView>)
    ensures
        ascending(sort_by_ts(s)),
        sort_by_ts(s).len() == s.len(),
    decreases s.len(),
{
    if s.len() > 0 {
        lemma_sort_ascending(s.drop_last());
        lemma_insert_ascending(sort_by_ts(s.drop_last()), s.last());
        lemma_insert_bound(sort_by_ts(s.drop_last()), s.last(), i64::MAX);
    }
}

/// Sorting leaves a time-ordered sequence as it is.
pub proof fn lemma_sort_of_ascending(s: Seq<RowView>)
    requires
        ascending(s),
    ensures
        sort_by_ts(s) == s,
    decreases s.len(),
{
    if s.len() > 0 {
        lemma_sort_of_ascending(s.drop_last());
    }
}

/// Folding a time-ordered sequence yields strictly increasing times, ending
/// at the time the input ends at, and never more rows than it was given.
pub proof fn lemma_dedup_strict(s: Seq<RowView>)
    requires
        ascending(s),
    ensures
        strictly_ascending(dedup_sorted(s)),
        dedup_sorted(s).len() <= s.len(),
        s.len() > 0 ==> dedup_sorted(s).len() > 0 && dedup_sorted(s).last().ts == s.last().ts,
    decreases s.len(),
{
    if s.len() > 0 {
        lemma_dedup_strict(s.drop_last());
    }
}

/// Folding leaves a sequence of strictly increasing times as it is.
pub proof fn lemma_dedup_of_strict(s: Seq<RowView>)
    requires
        strictly_ascending(s),
    ensures
        dedup_sorted(s) == s,
    decreases s.len(),
{
    if s.len() > 0 {
        lemma_dedup_of_strict(s.drop_last());
    }
}

/// The merge is idempotent: applied to its own output it changes nothing.
/// Its output is in strictly increasing time order.
pub proof fn lemma_dedup_and_sort_idempotent(s: Seq<RowView>)
    ensures
        strictly_ascending(dedup_and_sort(s)),
        dedup_and_sort(dedup_and_sort(s)) == dedup_and_sort(s),
        dedup_and_sort(s).len() <= s.len(),
{
    lemma_sort_ascending(s);
    lemma_dedup_strict(sort_by_ts(s));
    let out = dedup_and_sort(s);
    lemma_sort_of_ascending(out);
    lemma_dedup_of_strict(out);
}

/// The merge of two rows. Rows of one time become one row: at each field
/// the value of the second where it is present, else that of the first.
/// Rows of different times come out in time order, as they are.
pub proof fn lemma_merge_two(a: RowView, b: RowView)
    ensures
        a.ts == b.ts ==> dedup_and_sort(seq![a, b]) == seq![
            RowView { ts: a.ts, fields: merge_fields(a.fields, b.fields) },
        ],
        a.ts < b.ts ==> dedup_and_sort(seq![a, b]) == seq![a, b],
        a.ts > b.ts ==> dedup_and_sort(seq![a, b]) == seq![b, a],
{
    reveal_with_fuel(sort_by_ts, 3);
    reveal_with_fuel(insert_by_ts, 3);
    reveal_with_fuel(dedup_sorted, 3);
}

/// The rows of a time among a list with one more row.
pub proof fn lemma_at_time_push(s: Seq<RowView>, r: RowView, ts: i64)
    ensures
        at_time(s.push(r), ts) == if r.ts == ts {
            at_time(s, ts).push(r)
        } else {
            at_time(s, ts)
        },
{
    reveal_with_fuel(Seq::filter, 2);
    assert(s.push(r).drop_last() =~= s);
}

/// Inserting a row by time puts it behind the rows of its time and leaves
/// the rows of every other time as they are.
pub proof fn lemma_insert_stable(s: Seq<RowView>, r: RowView, ts: i64)
    ensures
        at_time(insert_by_ts(s, r), ts) == if r.ts == ts {
            at_time(s, ts).push(r)
        } else {
            at_time(s, ts)
        },
    decreases s.len(),
{
    if s.len() == 0 || s.last().ts <= r.ts {
        lemma_at_time_push(s, r, ts);
    } else {
        let front = s.drop_last();
        lemma_insert_stable(front, r, ts);
        lemma_at_time_push(insert_by_ts(front, r), s.last(), ts);
        lemma_at_time_push(front, s.last(), ts);
        assert(front.push(s.last()) =~= s);
    }
}

/// Sorting by time is stable: the result is in time order and keeps, for
/// each time, the rows of that time in the order they had.
pub proof fn lemma_sort_stable(s: Seq<RowView>)
    ensures
        stably_sorted(s, sort_by_ts(s)),
    decreases s.len(),
{
    lemma_sort_ascending(s);
    if s.len() > 0 {
        let front = s.drop_last();
        lemma_sort_stable(front);
        assert forall|ts: i64| #[trigger] at_time(sort_by_ts(s), ts) == at_time(s, ts) by {
            lemma_insert_stable(sort_by_ts(front), s.last(), ts);
            lemma_at_time_push(front, s.last(), ts);
            assert(front.push(s.last()) =~= s);
        }
    }
}

/// A list has no rows where it has none of any time.
proof fn lemma_no_rows(s: Seq<RowView>)
    requires
        forall|ts: i64| (#[trigger] at_time(s, ts)).len() == 0,
    ensures
        s.len() == 0,
{
    if s.len() > 0 {
        let front = s.drop_last();
        lemma_at_time_push(front, s.last(), s.last().ts);
        assert(front.push(s.last()) =~= s);
    }
}

/// Two lists in time order that hold, for each time, the same rows in the
/// same order are the same list.
proof fn lemma_same_rows(f: Seq<RowView>, g: Seq<RowView>)
    requires
        ascending(f),
        ascending(g),
        forall|ts: i64| #[trigger] at_time(f, ts) == at_time(g, ts),
    ensures
        f == g,
    decreases f.len(),
{
    if f.len() == 0 {
        assert forall|ts: i64| (#[trigger] at_time(g, ts)).len() == 0 by {
            assert(at_time(f, ts) == at_time(g, ts));
        }
        lemma_no_rows(g);
    } else {
        let last = f.last();
        let front = f.drop_last();
        assert(front.push(last) =~= f);
        lemma_at_time_push(front, last, last.ts);
        if g.len() == 0 {
            reveal_with_fuel(Seq::filter, 1);
        }
        let g_last = g.last();
        let g_front = g.drop_last();
        assert(g_front.push(g_last) =~= g);
        // The last rows are of the same time: a later time in one list
        // would have to show in the other.
        lemma_at_time_push(g_front, g_last, g_last.ts);
        if g_last.ts > last.ts {
            let held = at_time(f, g_last.ts);
            f.lemma_filter_contains_rev(|r: RowView| r.ts == g_last.ts, held[0]);
        }
        if g_last.ts < last.ts {
            let held = at_time(g, last.ts);
            g.lemma_filter_contains_rev(|r: RowView| r.ts == last.ts, held[0]);
        }
        assert(at_time(g, last.ts).last() == g_last);
        assert forall|ts: i64| #[trigger] at_time(front, ts) == at_time(g_front, ts) by {
            lemma_at_time_push(front, last, ts);
            lemma_at_time_push(g_front, g_last, ts);
            if last.ts == ts {
                assert(at_time(g_front, ts) =~= at_time(g, ts).drop_last());
            }
        }
        lemma_same_rows(front, g_front);
    }
}

/// A stable sort by time has one result.
pub proof fn lemma_stable_sort_unique(s: Seq<RowView>, f: Seq<RowView>, g: Seq<RowView>)
    requires
        stably_sorted(s, f),
        stably_sorted(s, g),
    ensures
        f == g,
{
    lemma_same_rows(f, g);
}

} // verus!
