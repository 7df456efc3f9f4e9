//! Scans: the buffered values of a series that pass a time predicate and a
//! value predicate, handed to a sink one by one in the order they are
//! stored.

use crate::cache::{column_of, series_of, split_id, CacheView, MemCache};
use crate::field_value::{DataType, DataTypeView, FieldVal, FieldValView, stamped};
use crate::row::RowView;
use crate::row_group::GroupView;
use crate::series::{SeriesData, SeriesView};
use crate::table_schema::field_ordinal;
use crate::time_range::TimeRange;
use vstd::prelude::*;

verus! {

/// A condition on timestamps.
pub trait TimePredicate {
    /// Whether the condition holds of the timestamp.
    spec fn accepts(&self, ts: i64) -> bool;

    fn test(&self, ts: i64) -> (b: bool)
        ensures
            b == self.accepts(ts),
    ;
}

/// A condition on field values.
pub trait ValuePredicate {
    /// Whether the condition holds of the value.
    spec fn accepts(&self, v: FieldValView) -> bool;

    fn test(&self, v: &FieldVal) -> (b: bool)
        ensures
            b == self.accepts(v@),
    ;
}

/// Where a scan delivers the values that it finds.
pub trait DataSink {
    /// The values received so far, in the order they came.
    spec fn received(&self) -> Seq<DataTypeView>;

    fn handle(&mut self, v: DataType)
        ensures
            final(self).received() == old(self).received().push(v@),
    ;
}

/// Where a scan delivers the timestamps that it finds.
pub trait TimestampSink {
    /// The timestamps received so far, in the order they came.
    spec fn received(&self) -> Seq<i64>;

    fn handle(&mut self, ts: i64)
        ensures
            final(self).received() == old(self).received().push(ts),
    ;
}

/// A time range is the condition that a timestamp lies in it.
impl TimePredicate for TimeRange {
    open spec fn accepts(&self, ts: i64) -> bool {
        self.spec_contains(ts)
    }

    fn test(&self, ts: i64) -> (b: bool) {
        self.contains(ts)
    }
}

/// The condition that holds of every value.
#[derive(Clone, Copy, Debug, PartialEq, Eq, Structural)]
pub struct AnyValue;

impl ValuePredicate for AnyValue {
    open spec fn accepts(&self, v: FieldValView) -> bool {
        true
    }

    fn test(&self, v: &FieldVal) -> (b: bool) {
        true
    }
}

/// The views of a list of stamped values.
pub open spec fn data_view(s: Seq<DataType>) -> Seq<DataTypeView> {
    Seq::new(s.len(), |i: int| s[i]@)
}

/// A vector collects what it is handed.
impl DataSink for Vec<DataType> {
    open spec fn received(&self) -> Seq<DataTypeView> {
        data_view(self@)
    }

    fn handle(&mut self, v: DataType) {
        self.push(v);
    }
}

/// A vector collects what it is handed.
impl TimestampSink for Vec<i64> {
    open spec fn received(&self) -> Seq<i64> {
        self@
    }

    fn handle(&mut self, ts: i64) {
        self.push(ts);
    }
}

/// What a row contributes to a scan of the field at ordinal `index`: its
/// value, stamped with its time, where the time passes, the value is
/// present and the value passes.
pub open spec fn row_match<T: TimePredicate, V: ValuePredicate>(
    r: RowView,
    index: int,
    tp: &T,
    vp: &V,
) -> Option<DataTypeView> {
    if tp.accepts(r.ts) && 0 <= index < r.fields.len() && r.fields[index] is Some && vp.accepts(
        r.fields[index].unwrap(),
    ) {
        Some(stamped(r.fields[index].unwrap(), r.ts))
    } else {
        None
    }
}

/// What the first `n` rows contribute to a scan, in their order.
pub open spec fn rows_matches<T: TimePredicate, V: ValuePredicate>(
    rows: Seq<RowView>,
    index: int,
    tp: &T,
    vp: &V,
    n: int,
) -> Seq<DataTypeView>
    decreases n,
{
    if n <= 0 || n > rows.len() {
        Seq::empty()
    } else {
        match row_match(rows[n - 1], index, tp, vp) {
            Some(v) => rows_matches(rows, index, tp, vp, n - 1).push(v),
            None => rows_matches(rows, index, tp, vp, n - 1),
        }
    }
}

/// What a group contributes to a scan of the column: nothing where its
/// schema has no such field.
pub open spec fn group_matches<T: TimePredicate, V: ValuePredicate>(
    g: GroupView,
    column_id: u32,
    tp: &T,
    vp: &V,
) -> Seq<DataTypeView> {
    match field_ordinal(g.schema.columns, column_id) {
        Some(index) => rows_matches(g.rows, index, tp, vp, g.rows.len() as int),
        None => Seq::empty(),
    }
}

/// What the first `n` groups contribute to a scan of the column.
pub open spec fn groups_matches<T: TimePredicate, V: ValuePredicate>(
    groups: Seq<GroupView>,
    column_id: u32,
    tp: &T,
    vp: &V,
    n: int,
) -> Seq<DataTypeView>
    decreases n,
{
    if n <= 0 || n > groups.len() {
        Seq::empty()
    } else {
        groups_matches(groups, column_id, tp, vp, n - 1) + group_matches(
            groups[n - 1],
            column_id,
            tp,
            vp,
        )
    }
}

/// The times among the first `n` rows that pass, in their order.
pub open spec fn rows_times<T: TimePredicate>(rows: Seq<RowView>, tp: &T, n: int) -> Seq<i64>
    decreases n,
{
    if n <= 0 || n > rows.len() {
        Seq::empty()
    } else if tp.accepts(rows[n - 1].ts) {
        rows_times(rows, tp, n - 1).push(rows[n - 1].ts)
    } else {
        rows_times(rows, tp, n - 1)
    }
}

/// The times of the rows of the first `n` groups that pass.
pub open spec fn groups_times<T: TimePredicate>(groups: Seq<GroupView>, tp: &T, n: int) -> Seq<i64>
    decreases n,
{
    if n <= 0 || n > groups.len() {
        Seq::empty()
    } else {
        groups_times(groups, tp, n - 1) + rows_times(
            groups[n - 1].rows,
            tp,
            groups[n - 1].rows.len() as int,
        )
    }
}

impl SeriesView {
    /// What a scan of the column delivers.
    pub open spec fn read_data<T: TimePredicate, V: ValuePredicate>(
        self,
        column_id: u32,
        tp: &T,
        vp: &V,
    ) -> Seq<DataTypeView> {
        groups_matches(self.groups, column_id, tp, vp, self.groups.len() as int)
    }

    /// What a scan of the timestamps delivers.
    pub open spec fn read_timestamps<T: TimePredicate>(self, tp: &T) -> Seq<i64> {
        groups_times(self.groups, tp, self.groups.len() as int)
    }
}

impl SeriesData {
    /// Hands to the sink, group after group and row after row, each value
    /// of the column whose time and value pass the predicates, stamped
    /// with its time.
    pub fn read_data<T: TimePredicate, V: ValuePredicate, S: DataSink>(
        &self,
        column_id: u32,
        time_predicate: &T,
        value_predicate: &V,
        handle_data: &mut S,
    )
        ensures
            final(handle_data).received() == old(handle_data).received() + self@.read_data(
                column_id,
                time_predicate,
                value_predicate,
            ),
    {
        let ghost start = handle_data.received();
        let ghost groups = self@.groups;
        let mut gi: usize = 0;
        while gi < self.groups.len()
            invariant
                gi <= self.groups.len(),
                groups == self@.groups,
                handle_data.received() == start + groups_matches(
                    groups,
                    column_id,
                    time_predicate,
                    value_predicate,
                    gi as int,
                ),
            decreases self.groups.len() - gi,
        {
            let group = &self.groups[gi];
            let ghost g = groups[gi as int];
            let ghost done = start + groups_matches(
                groups,
                column_id,
                time_predicate,
                value_predicate,
                gi as int,
            );
            match group.schema.field_index(column_id) {
                Some(index) => {
                    let mut ri: usize = 0;
                    while ri < group.rows.len()
                        invariant
                            ri <= group.rows.len(),
                            g == group@,
                            handle_data.received() == done + rows_matches(
                                g.rows,
                                index as int,
                                time_predicate,
                                value_predicate,
                                ri as int,
                            ),
                        decreases group.rows.len() - ri,
                    {
                        let row = &group.rows[ri];
                        if time_predicate.test(row.ts) {
                            if index < row.fields.len() {
                                match &row.fields[index] {
                                    Some(field) => {
                                        if value_predicate.test(field) {
                                            handle_data.handle(field.data_value(row.ts));
                                        }
                                    },
                                    None => {},
                                }
                            }
                        }
                        ri += 1;
                    }
                },
                None => {},
            }
            gi += 1;
        }
    }

    /// Hands to the sink, group after group and row after row, each
    /// timestamp that passes the predicate.
    pub fn read_timestamps<T: TimePredicate, S: TimestampSink>(
        &self,
        time_predicate: &T,
        handle_data: &mut S,
    )
        ensures
            final(handle_data).received() == old(handle_data).received() + self@.read_timestamps(
                time_predicate,
            ),
    {
        let ghost start = handle_data.received();
        let ghost groups = self@.groups;
        let mut gi: usize = 0;
        while gi < self.groups.len()
            invariant
                gi <= self.groups.len(),
                groups == self@.groups,
                handle_data.received() == start + groups_times(groups, time_predicate, gi as int),
            decreases self.groups.len() - gi,
        {
            let group = &self.groups[gi];
            let ghost g = groups[gi as int];
            let ghost done = start + groups_times(groups, time_predicate, gi as int);
            let mut ri: usize = 0;
            while ri < group.rows.len()
                invariant
                    ri <= group.rows.len(),
                    g == group@,
                    handle_data.received() == done + rows_times(g.rows, time_predicate, ri as int),
                decreases group.rows.len() - ri,
            {
                let row = &group.rows[ri];
                if time_predicate.test(row.ts) {
                    handle_data.handle(row.ts);
                }
                ri += 1;
            }
            gi += 1;
        }
    }
}

impl CacheView {
    /// What a scan of the field delivers: the field id names the column and
    /// the series. A series that the cache does not hold delivers nothing.
    pub open spec fn read_field_data<T: TimePredicate, V: ValuePredicate>(
        self,
        field_id: u64,
        tp: &T,
        vp: &V,
    ) -> Seq<DataTypeView> {
        if self.series().contains_key(series_of(field_id)) {
            self.series()[series_of(field_id)].read_data(column_of(field_id), tp, vp)
        } else {
            Seq::empty()
        }
    }

    /// What a scan of the timestamps of the first `n` of the series
    /// delivers, series after series.
    pub open spec fn read_series_timestamps<T: TimePredicate>(
        self,
        sids: Seq<u32>,
        tp: &T,
        n: int,
    ) -> Seq<i64>
        decreases n,
    {
        if n <= 0 || n > sids.len() {
            Seq::empty()
        } else {
            self.read_series_timestamps(sids, tp, n - 1) + if self.series().contains_key(
                sids[n - 1],
            ) {
                self.series()[sids[n - 1]].read_timestamps(tp)
            } else {
                Seq::empty()
            }
        }
    }
}

impl MemCache {
    /// Scans one field of one series: the field id names both. Each value
    /// whose time and value pass the predicates is handed to the sink, in
    /// the order the values are stored.
    pub fn read_field_data<T: TimePredicate, V: ValuePredicate, S: DataSink>(
        &self,
        field_id: u64,
        time_predicate: &T,
        value_predicate: &V,
        handle_data: &mut S,
    )
        requires
            self.wf(),
        ensures
            final(handle_data).received() == old(handle_data).received()
                + self@.read_field_data(field_id, time_predicate, value_predicate),
    {
        let (column_id, sid) = split_id(field_id);
        match self.get_series(sid) {
            Some(series) => {
                series.read_data(column_id, time_predicate, value_predicate, handle_data);
            },
            None => {},
        }
    }

    /// Scans the timestamps of the series, one series after the other.
    /// Each timestamp that passes the predicate is handed to the sink.
    pub fn read_series_timestamps<T: TimePredicate, S: TimestampSink>(
        &self,
        series_ids: &[u32],
        time_predicate: &T,
        handle_data: &mut S,
    )
        requires
            self.wf(),
        ensures
            final(handle_data).received() == old(handle_data).received()
                + self@.read_series_timestamps(
                series_ids@,
                time_predicate,
                series_ids@.len() as int,
            ),
    {
        let ghost start = handle_data.received();
        let mut i: usize = 0;
        while i < series_ids.len()
            invariant
                i <= series_ids.len(),
                self.wf(),
                handle_data.received() == start + self@.read_series_timestamps(
                    series_ids@,
                    time_predicate,
                    i as int,
                ),
            decreases series_ids.len() - i,
        {
            match self.get_series(series_ids[i]) {
                Some(series) => {
                    series.read_timestamps(time_predicate, handle_data);
                },
                None => {},
            }
            i += 1;
        }
    }
}

} // verus!
