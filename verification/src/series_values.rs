//! The values of a series by the name of their field, as tests of the
//! layers above the buffer want to see them.

use crate::cache::{CacheView, MemCache};
use crate::field_value::{FieldVal, FieldValView};
use crate::row::RowView;
use crate::row_group::GroupView;
use crate::schema::{time_column_name, ColumnView};
use crate::series::SeriesData;
use crate::table_schema::{columns_view, field_columns};
use vstd::prelude::*;

verus! {

/// A value with its time under the name of its field.
pub struct NamedValue {
    pub name: Seq<char>,
    pub ts: i64,
    pub value: FieldValView,
}

/// What the value at position `i` of a row contributes: the value under
/// the name of the field column at that position, where the value is
/// present, and the column exists and is not named `time`.
pub open spec fn named_value(r: RowView, fields: Seq<ColumnView>, i: int) -> Option<NamedValue> {
    if 0 <= i < r.fields.len() && i < fields.len() && r.fields[i] is Some && fields[i].name
        != time_column_name() {
        Some(NamedValue { name: fields[i].name, ts: r.ts, value: r.fields[i].unwrap() })
    } else {
        None
    }
}

/// What the first `n` values of a row contribute.
pub open spec fn row_values(r: RowView, fields: Seq<ColumnView>, n: int) -> Seq<NamedValue>
    decreases n,
{
    if n <= 0 || n > r.fields.len() {
        Seq::empty()
    } else {
        match named_value(r, fields, n - 1) {
            Some(v) => row_values(r, fields, n - 1).push(v),
            None => row_values(r, fields, n - 1),
        }
    }
}

/// What the first `n` rows contribute.
pub open spec fn rows_values(rows: Seq<RowView>, fields: Seq<ColumnView>, n: int) -> Seq<NamedValue>
    decreases n,
{
    if n <= 0 || n > rows.len() {
        Seq::empty()
    } else {
        rows_values(rows, fields, n - 1) + row_values(
            rows[n - 1],
            fields,
            rows[n - 1].fields.len() as int,
        )
    }
}

/// What the first `n` groups contribute: the values of a row are named by
/// the field columns of the group's schema, in column order.
pub open spec fn groups_values(groups: Seq<GroupView>, n: int) -> Seq<NamedValue>
    decreases n,
{
    if n <= 0 || n > groups.len() {
        Seq::empty()
    } else {
        groups_values(groups, n - 1) + rows_values(
            groups[n - 1].rows,
            field_columns(groups[n - 1].schema.columns, groups[n - 1].schema.columns.len() as int),
            groups[n - 1].rows.len() as int,
        )
    }
}

/// The views of a list of named values.
pub open spec fn named_view(v: Seq<(String, i64, FieldVal)>) -> Seq<NamedValue> {
    Seq::new(v.len(), |i: int| NamedValue { name: v[i].0@, ts: v[i].1, value: v[i].2@ })
}

/// Every present value of the series with its time and the name of its
/// field, group after group, row after row, in field order.
pub fn field_values(series: &SeriesData) -> (r: Vec<(String, i64, FieldVal)>)
    ensures
        named_view(r@) == groups_values(series@.groups, series@.groups.len() as int),
{
    let time_name: String = "time".to_owned();
    proof {
        reveal_strlit("time");
    }
    let ghost groups = series@.groups;
    let mut out: Vec<(String, i64, FieldVal)> = Vec::new();
    let mut gi: usize = 0;
    while gi < series.groups.len()
        invariant
            gi <= series.groups.len(),
            groups == series@.groups,
            time_name@ == time_column_name(),
            named_view(out@) == groups_values(groups, gi as int),
        decreases series.groups.len() - gi,
    {
        let group = &series.groups[gi];
        let ghost g = groups[gi as int];
        let fields = group.schema.fields();
        let ghost fv = columns_view(fields@);
        let ghost done = named_view(out@);
        let mut ri: usize = 0;
        while ri < group.rows.len()
            invariant
                ri <= group.rows.len(),
                g == group@,
                fv == columns_view(fields@),
                time_name@ == time_column_name(),
                named_view(out@) == done + rows_values(g.rows, fv, ri as int),
            decreases group.rows.len() - ri,
        {
            let row = &group.rows[ri];
            let ghost r = g.rows[ri as int];
            let ghost held = named_view(out@);
            let mut i: usize = 0;
            while i < row.fields.len()
                invariant
                    i <= row.fields.len(),
                    r == row@,
                    fv == columns_view(fields@),
                    time_name@ == time_column_name(),
                    named_view(out@) == held + row_values(r, fv, i as int),
                decreases row.fields.len() - i,
            {
                let ghost before = named_view(out@);
                if i < fields.len() {
                    match &row.fields[i] {
                        Some(value) => {
                            if !(fields[i].name == time_name) {
                                out.push((fields[i].name.clone(), row.ts, value.duplicate()));
                                assert(named_view(out@) =~= before.push(
                                    named_value(r, fv, i as int).unwrap(),
                                ));
                            }
                        },
                        None => {},
                    }
                }
                i += 1;
            }
            ri += 1;
        }
        gi += 1;
    }
    out
}

/// What the first `n` of the listed series contribute, series after
/// series.
pub open spec fn cache_values(c: CacheView, ids: Seq<u32>, n: int) -> Seq<NamedValue>
    decreases n,
{
    if n <= 0 || n > ids.len() {
        Seq::empty()
    } else {
        cache_values(c, ids, n - 1) + if c.series().contains_key(ids[n - 1]) {
            groups_values(
                c.series()[ids[n - 1]].groups,
                c.series()[ids[n - 1]].groups.len() as int,
            )
        } else {
            Seq::empty()
        }
    }
}

/// Every present value that the cache holds, with its time and the name of
/// its field. The values of one series stand together, in the order they
/// are stored; the series come in an order of the cache's choosing, each
/// once.
pub fn get_one_series_cache_data(cache: &MemCache) -> (r: Vec<(String, i64, FieldVal)>)
    requires
        cache.wf(),
    ensures
        exists|ids: Seq<u32>|
            ids.no_duplicates() && ids.to_set() == cache@.series().dom() && named_view(r@)
                == #[trigger] cache_values(cache@, ids, ids.len() as int),
{
    let ids = cache.series_ids();
    let mut out: Vec<(String, i64, FieldVal)> = Vec::new();
    let mut i: usize = 0;
    while i < ids.len()
        invariant
            i <= ids.len(),
            cache.wf(),
            named_view(out@) == cache_values(cache@, ids@, i as int),
        decreases ids.len() - i,
    {
        match cache.get_series(ids[i]) {
            Some(series) => {
                let mut found = field_values(series);
                out.append(&mut found);
            },
            None => {},
        }
        i += 1;
    }
    out
}

} // verus!
