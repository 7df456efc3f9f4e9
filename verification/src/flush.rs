//! Flush conversion: the buffered rows of a series as columnar blocks.

use crate::align::{
    align_fields, aligned_value, field_id_at, field_ids_by_ordinal, ordinal_sources, picked,
    sources_for,
};
use crate::block::{column_data_view, BlockView, ColumnData, ColumnDataView, DataBlock};
use crate::dedup::{dedup_and_sort, dedup_and_sort_row_data};
use crate::error::Error;
use crate::field_value::{FieldVal, FieldValView};
use crate::row::{rows_view, RowData, RowView};
use crate::row_group::{share_schema, GroupView};
use crate::schema::{ColumnType, ColumnView, TableColumn};
use crate::series::{SeriesData, SeriesView};
use crate::table_schema::{
    columns_view, duplicate_columns, field_columns, field_count, first_field_with_id, has_field,
    is_field_with_id, lemma_field_count_bounds, time_column_of, time_precision, SchemaView,
    TskvTableSchema,
};
use std::sync::Arc;
use vstd::prelude::*;

verus! {

/// What a flush needs to know of the data that is already durable.
#[derive(Clone, Copy, Debug, PartialEq, Eq, Structural)]
pub struct Version {
    /// The time up to which the target level already holds data.
    pub max_level_ts: i64,
}

/// The rows with their fields laid out by the ordinals of `latest`.
pub open spec fn align_rows(
    rows: Seq<RowView>,
    own: Seq<ColumnView>,
    latest: Seq<ColumnView>,
) -> Seq<RowView> {
    Seq::new(
        rows.len(),
        |i: int| RowView { ts: rows[i].ts, fields: align_fields(rows[i].fields, own, latest) },
    )
}

/// The rows of a group as the flush emits them: merged, then aligned.
pub open spec fn align_group(g: GroupView, latest: Seq<ColumnView>) -> Seq<RowView> {
    align_rows(dedup_and_sort(g.rows), g.schema.columns, latest)
}

/// The rows that the first `upto` groups contribute, group after group.
pub open spec fn flush_rows(groups: Seq<GroupView>, latest: Seq<ColumnView>, upto: int) -> Seq<
    RowView,
>
    decreases upto,
{
    if upto <= 0 || upto > groups.len() {
        Seq::empty()
    } else {
        flush_rows(groups, latest, upto - 1) + align_group(groups[upto - 1], latest)
    }
}

/// The row is earlier than `bound`.
pub open spec fn earlier(bound: i64, r: RowView) -> bool {
    r.ts < bound
}

/// The rows that are earlier than `bound`, in their order.
pub open spec fn rows_before(rows: Seq<RowView>, bound: i64) -> Seq<RowView> {
    rows.filter(|r: RowView| earlier(bound, r))
}

/// All rows, or those earlier than the bound where one is given.
pub open spec fn select_rows(rows: Seq<RowView>, bound: Option<i64>) -> Seq<RowView> {
    match bound {
        Some(b) => rows_before(rows, b),
        None => rows,
    }
}

/// The time column of the rows.
pub open spec fn time_values(rows: Seq<RowView>) -> Seq<Option<FieldValView>> {
    Seq::new(rows.len(), |i: int| Some(FieldValView::Integer(rows[i].ts)))
}

/// The column of field ordinal `j` of the rows.
pub open spec fn field_values(rows: Seq<RowView>, j: int) -> Seq<Option<FieldValView>> {
    Seq::new(
        rows.len(),
        |i: int|
            if 0 <= j < rows[i].fields.len() {
                rows[i].fields[j]
            } else {
                None
            },
    )
}

/// Selecting from a list with one more row.
pub proof fn lemma_select_push(rows: Seq<RowView>, r: RowView, bound: Option<i64>)
    ensures
        select_rows(rows.push(r), bound) == if bound is None || r.ts < bound.unwrap() {
            select_rows(rows, bound).push(r)
        } else {
            select_rows(rows, bound)
        },
{
    reveal_with_fuel(Seq::filter, 2);
    assert(rows.push(r).drop_last() =~= rows);
}

/// Appends one value per column: the row's value for each field ordinal.
fn push_row(
    cols: &mut Vec<ColumnData>,
    fields: &Vec<Option<FieldVal>>,
    sources: &Vec<Option<usize>>,
)
    requires
        old(cols).len() == sources.len(),
    ensures
        final(cols).len() == old(cols).len(),
        forall|j: int|
            0 <= j < sources.len() ==> (#[trigger] final(cols)[j])@ == (ColumnDataView {
                column_type: old(cols)[j]@.column_type,
                values: old(cols)[j]@.values.push(picked(fields@, sources@, j)),
            }),
{
    let mut j: usize = 0;
    while j < sources.len()
        invariant
            j <= sources.len(),
            cols.len() == old(cols).len(),
            cols.len() == sources.len(),
            forall|t: int|
                0 <= t < j ==> (#[trigger] cols[t])@ == (ColumnDataView {
                    column_type: old(cols)[t]@.column_type,
                    values: old(cols)[t]@.values.push(picked(fields@, sources@, t)),
                }),
            forall|t: int| j <= t < cols.len() ==> (#[trigger] cols[t]) == old(cols)[t],
        decreases sources.len() - j,
    {
        let v = aligned_value(fields, sources, j);
        let col = &mut cols[j];
        col.push(v);
        j += 1;
    }
}

/// Whether the time column and the field columns hold exactly the given
/// rows.
pub open spec fn columns_hold(
    time: ColumnDataView,
    cols: Seq<ColumnDataView>,
    rows: Seq<RowView>,
) -> bool {
    &&& time.values == time_values(rows)
    &&& forall|j: int| 0 <= j < cols.len() ==> (#[trigger] cols[j]).values == field_values(rows, j)
}

/// Appends to the columns the rows of one group, aligned by `sources`: all
/// of them, or those earlier than the bound where one is given.
fn append_rows(
    time: &mut ColumnData,
    cols: &mut Vec<ColumnData>,
    rows: &Vec<RowData>,
    sources: &Vec<Option<usize>>,
    bound: Option<i64>,
    Ghost(own): Ghost<Seq<ColumnView>>,
    Ghost(latest): Ghost<Seq<ColumnView>>,
    Ghost(held): Ghost<Seq<RowView>>,
)
    requires
        sources_for(sources@, own, latest),
        old(cols).len() == sources.len(),
        columns_hold(old(time)@, column_data_view(old(cols)@), held),
    ensures
        final(time)@.column_type == old(time)@.column_type,
        final(cols).len() == old(cols).len(),
        forall|j: int|
            0 <= j < final(cols).len() ==> (#[trigger] final(cols)[j])@.column_type == old(
                cols,
            )[j]@.column_type,
        columns_hold(
            final(time)@,
            column_data_view(final(cols)@),
            held + select_rows(align_rows(rows_view(rows@), own, latest), bound),
        ),
{
    let ghost aligned = align_rows(rows_view(rows@), own, latest);
    let mut i: usize = 0;
    while i < rows.len()
        invariant
            i <= rows.len(),
            aligned == align_rows(rows_view(rows@), own, latest),
            sources_for(sources@, own, latest),
            cols.len() == sources.len(),
            cols.len() == old(cols).len(),
            time@.column_type == old(time)@.column_type,
            forall|j: int|
                0 <= j < cols.len() ==> (#[trigger] cols[j])@.column_type == old(
                    cols,
                )[j]@.column_type,
            columns_hold(
                time@,
                column_data_view(cols@),
                held + select_rows(aligned.take(i as int), bound),
            ),
        decreases rows.len() - i,
    {
        let row = &rows[i];
        let ghost done = held + select_rows(aligned.take(i as int), bound);
        let ghost x = aligned[i as int];
        proof {
            assert(aligned.take(i + 1) =~= aligned.take(i as int).push(x));
            lemma_select_push(aligned.take(i as int), x, bound);
        }
        let wanted = match bound {
            Some(b) => row.ts < b,
            None => true,
        };
        if wanted {
            let ghost cols_before = column_data_view(cols@);
            time.push(Some(FieldVal::Integer(row.ts)));
            push_row(cols, &row.fields, sources);
            proof {
                let next = held + select_rows(aligned.take(i + 1), bound);
                assert(time@.values =~= time_values(next));
                assert forall|j: int| 0 <= j < cols.len() implies (#[trigger] column_data_view(
                    cols@,
                )[j]).values == field_values(next, j) by {
                    assert(cols_before[j].values == field_values(done, j));
                }
            }
        }
        i += 1;
    }
    assert(aligned.take(rows.len() as int) =~= aligned);
}

/// The definition that a group gives for field ordinal `j` of the latest
/// schema: that of its first field column with the field's id. A group
/// without rows, or without the field, gives none.
pub open spec fn group_descriptor(g: GroupView, latest: Seq<ColumnView>, j: int) -> Option<
    ColumnView,
> {
    match field_id_at(latest, j) {
        Some(id) => if g.rows.len() > 0 && has_field(g.schema.columns, id) {
            Some(g.schema.columns[first_field_with_id(g.schema.columns, id, 0)])
        } else {
            None
        },
        None => None,
    }
}

/// The definition under which field ordinal `j` was populated: the one
/// given by the first of the first `upto` groups that gives one.
pub open spec fn descriptor(
    groups: Seq<GroupView>,
    latest: Seq<ColumnView>,
    j: int,
    upto: int,
) -> Option<ColumnView>
    decreases upto,
{
    if upto <= 0 || upto > groups.len() {
        None
    } else {
        match descriptor(groups, latest, j, upto - 1) {
            Some(d) => Some(d),
            None => group_descriptor(groups[upto - 1], latest, j),
        }
    }
}

/// The block that holds the given rows under the latest schema.
pub open spec fn flush_block(
    schema: SchemaView,
    rows: Seq<RowView>,
    descs: Seq<ColumnView>,
) -> BlockView {
    BlockView {
        schema,
        ts: ColumnDataView {
            column_type: ColumnType::Time(time_precision(schema.columns).spec_unit()),
            values: time_values(rows),
        },
        ts_desc: time_column_of(schema.columns),
        cols: Seq::new(
            schema.field_num(),
            |j: int|
                ColumnDataView {
                    column_type: field_columns(
                        schema.columns,
                        schema.columns.len() as int,
                    )[j].column_type,
                    values: field_values(rows, j),
                },
        ),
        cols_desc: descs,
    }
}

/// What a flush makes of a series. A series without groups yields nothing.
/// Otherwise every group's rows are merged and aligned with the latest
/// schema; the full block holds all of them, the delta block those earlier
/// than `max_level_ts`. A field ordinal of the latest schema that no row
/// populated fails the flush.
pub open spec fn flush_result(s: SeriesView, max_level_ts: i64) -> Result<
    Option<(Seq<char>, BlockView, BlockView)>,
    Error,
> {
    match s.latest_schema() {
        None => Ok(None),
        Some(latest) => {
            let n = s.groups.len() as int;
            if exists|j: int|
                0 <= j < latest.field_num() && (#[trigger] descriptor(
                    s.groups,
                    latest.columns,
                    j,
                    n,
                )) is None {
                Err(Error::InvalidSchemaProjection)
            } else {
                let rows = flush_rows(s.groups, latest.columns, n);
                let descs = Seq::new(
                    latest.field_num(),
                    |j: int| descriptor(s.groups, latest.columns, j, n).unwrap(),
                );
                Ok(
                    Some(
                        (
                            latest.name,
                            flush_block(latest, rows, descs),
                            flush_block(latest, rows_before(rows, max_level_ts), descs),
                        ),
                    ),
                )
            }
        },
    }
}

/// The first field column with the given id.
fn first_field(schema: &TskvTableSchema, id: u32) -> (r: Option<TableColumn>)
    ensures
        match r {
            Some(c) => has_field(schema@.columns, id) && c@ == schema@.columns[first_field_with_id(
                schema@.columns,
                id,
                0,
            )],
            None => !has_field(schema@.columns, id),
        },
{
    let mut i: usize = 0;
    while i < schema.columns.len()
        invariant
            i <= schema.columns.len(),
            first_field_with_id(schema@.columns, id, 0) == first_field_with_id(
                schema@.columns,
                id,
                i as int,
            ),
            forall|k: int| 0 <= k < i ==> !is_field_with_id(#[trigger] schema@.columns[k], id),
        decreases schema.columns.len() - i,
    {
        let c = &schema.columns[i];
        if c.column_type.is_field() && c.id == id {
            return Some(c.duplicate());
        }
        i += 1;
    }
    None
}

/// One empty column for each of the given definitions, of its type.
fn empty_columns(fields: &Vec<TableColumn>) -> (cols: Vec<ColumnData>)
    ensures
        cols.len() == fields.len(),
        forall|j: int|
            0 <= j < cols.len() ==> (#[trigger] cols[j])@ == (ColumnDataView {
                column_type: fields[j].column_type,
                values: Seq::empty(),
            }),
{
    let mut cols: Vec<ColumnData> = Vec::with_capacity(fields.len());
    let mut j: usize = 0;
    while j < fields.len()
        invariant
            j <= fields.len(),
            cols.len() == j,
            forall|t: int|
                0 <= t < j ==> (#[trigger] cols[t])@ == (ColumnDataView {
                    column_type: fields[t].column_type,
                    values: Seq::empty(),
                }),
        decreases fields.len() - j,
    {
        cols.push(ColumnData::empty(fields[j].column_type));
        j += 1;
    }
    cols
}

/// Records, for each field ordinal that has no definition yet, the one that
/// the group's schema gives.
fn record_descriptors(
    descs: &mut Vec<Option<TableColumn>>,
    schema: &TskvTableSchema,
    latest_ids: &Vec<Option<u32>>,
)
    requires
        old(descs).len() == latest_ids.len(),
    ensures
        final(descs).len() == old(descs).len(),
        forall|j: int|
            0 <= j < latest_ids.len() ==> match old(descs)[j] {
                Some(d) => (#[trigger] final(descs)[j]) == Some(d),
                None => match latest_ids[j] {
                    Some(id) => match final(descs)[j] {
                        Some(c) => has_field(schema@.columns, id) && c@
                            == schema@.columns[first_field_with_id(schema@.columns, id, 0)],
                        None => !has_field(schema@.columns, id),
                    },
                    None => final(descs)[j] is None,
                },
            },
{
    let mut j: usize = 0;
    while j < latest_ids.len()
        invariant
            j <= latest_ids.len(),
            descs.len() == old(descs).len(),
            descs.len() == latest_ids.len(),
            forall|t: int|
                0 <= t < j ==> match old(descs)[t] {
                    Some(d) => (#[trigger] descs[t]) == Some(d),
                    None => match latest_ids[t] {
                        Some(id) => match descs[t] {
                            Some(c) => has_field(schema@.columns, id) && c@
                                == schema@.columns[first_field_with_id(schema@.columns, id, 0)],
                            None => !has_field(schema@.columns, id),
                        },
                        None => descs[t] is None,
                    },
                },
            forall|t: int| j <= t < descs.len() ==> (#[trigger] descs[t]) == old(descs)[t],
        decreases latest_ids.len() - j,
    {
        if descs[j].is_none() {
            if let Some(id) = latest_ids[j] {
                descs[j] = first_field(schema, id);
            }
        }
        j += 1;
    }
}

/// Whether `descs` holds, for each field ordinal, the definition under
/// which the first `upto` groups populated it.
pub open spec fn described(
    descs: Seq<Option<TableColumn>>,
    groups: Seq<GroupView>,
    latest: Seq<ColumnView>,
    upto: int,
) -> bool {
    forall|j: int|
        0 <= j < descs.len() ==> match #[trigger] descs[j] {
            Some(c) => descriptor(groups, latest, j, upto) == Some(c@),
            None => descriptor(groups, latest, j, upto) is None,
        }
}

/// The definitions, where every field ordinal has one.
fn collect_descriptors(descs: &Vec<Option<TableColumn>>) -> (r: Option<Vec<TableColumn>>)
    ensures
        match r {
            Some(v) => v.len() == descs.len() && forall|j: int|
                0 <= j < v.len() ==> Some((#[trigger] v[j])@) == match descs[j] {
                    Some(c) => Some(c@),
                    None => None,
                },
            None => exists|j: int| 0 <= j < descs.len() && (#[trigger] descs[j]) is None,
        },
{
    let mut out: Vec<TableColumn> = Vec::with_capacity(descs.len());
    let mut j: usize = 0;
    while j < descs.len()
        invariant
            j <= descs.len(),
            out.len() == j,
            forall|t: int|
                0 <= t < j ==> Some((#[trigger] out[t])@) == match descs[t] {
                    Some(c) => Some(c@),
                    None => None,
                },
        decreases descs.len() - j,
    {
        match &descs[j] {
            Some(c) => {
                out.push(c.duplicate());
            },
            None => {
                return None;
            },
        }
        j += 1;
    }
    Some(out)
}

impl SeriesData {
    /// Converts the buffered rows into a full block and a delta block under
    /// the latest schema, with the name of the table. The full block holds
    /// every row after the merge of its group; the delta block holds those
    /// earlier than the version's `max_level_ts`.
    pub fn build_data_block(&self, version: Arc<Version>) -> (r: Result<
        Option<(String, DataBlock, DataBlock)>,
        Error,
    >)
        ensures
            match r {
                Ok(None) => flush_result(self@, version.max_level_ts) == Ok::<
                    Option<(Seq<char>, BlockView, BlockView)>,
                    Error,
                >(None),
                Ok(Some((name, full, delta))) => flush_result(self@, version.max_level_ts) == Ok::<
                    Option<(Seq<char>, BlockView, BlockView)>,
                    Error,
                >(Some((name@, full@, delta@))),
                Err(e) => flush_result(self@, version.max_level_ts) == Err::<
                    Option<(Seq<char>, BlockView, BlockView)>,
                    Error,
                >(e),
            },
    {
        let schema = match self.get_schema() {
            Some(s) => s,
            None => {
                return Ok(None);
            },
        };
        let bound = version.max_level_ts;
        let ghost groups = self@.groups;
        let ghost latest = schema@.columns;
        let n = schema.field_num();
        let fields = schema.fields();
        let latest_ids = field_ids_by_ordinal(&schema);
        proof {
            lemma_field_count_bounds(latest, 0, latest.len() as int);
        }
        let mut cols = empty_columns(&fields);
        let mut delta_cols = empty_columns(&fields);
        let time_type = ColumnType::Time(schema.time_column_precision().unit());
        let mut time = ColumnData::empty(time_type);
        let mut delta_time = ColumnData::empty(time_type);
        let mut descs: Vec<Option<TableColumn>> = Vec::with_capacity(n);
        while descs.len() < n
            invariant
                descs.len() <= n,
                forall|j: int| 0 <= j < descs.len() ==> (#[trigger] descs[j]) is None,
            decreases n - descs.len(),
        {
            descs.push(None);
        }
        proof {
            reveal_with_fuel(Seq::filter, 1);
            assert(time@.values =~= time_values(Seq::empty()));
            assert forall|j: int| 0 <= j < n implies (#[trigger] column_data_view(
                cols@,
            )[j]).values == field_values(Seq::empty(), j) by {}
            assert forall|j: int| 0 <= j < n implies (#[trigger] column_data_view(
                delta_cols@,
            )[j]).values == field_values(Seq::empty(), j) by {}
        }
        let mut gi: usize = 0;
        while gi < self.groups.len()
            invariant
                gi <= self.groups.len(),
                groups == self@.groups,
                latest == schema@.columns,
                bound == version.max_level_ts,
                n == field_count(latest, latest.len() as int),
                latest_ids.len() == n,
                forall|j: int| 0 <= j < n ==> #[trigger] latest_ids[j] == field_id_at(latest, j),
                cols.len() == n,
                delta_cols.len() == n,
                descs.len() == n,
                fields.len() == n,
                time@.column_type == time_type,
                delta_time@.column_type == time_type,
                forall|j: int|
                    0 <= j < n ==> (#[trigger] cols[j])@.column_type == fields[j].column_type,
                forall|j: int|
                    0 <= j < n ==> (#[trigger] delta_cols[j])@.column_type
                        == fields[j].column_type,
                columns_hold(time@, column_data_view(cols@), flush_rows(groups, latest, gi as int)),
                columns_hold(
                    delta_time@,
                    column_data_view(delta_cols@),
                    rows_before(flush_rows(groups, latest, gi as int), bound),
                ),
                described(descs@, groups, latest, gi as int),
            decreases self.groups.len() - gi,
        {
            let group = &self.groups[gi];
            let ghost g = groups[gi as int];
            let ghost own = g.schema.columns;
            let ghost done = flush_rows(groups, latest, gi as int);
            let sources = ordinal_sources(&group.schema, &latest_ids);
            let rows = dedup_and_sort_row_data(&group.rows);
            if group.rows.len() > 0 {
                record_descriptors(&mut descs, &group.schema, &latest_ids);
            }
            append_rows(
                &mut time,
                &mut cols,
                &rows,
                &sources,
                None,
                Ghost(own),
                Ghost(latest),
                Ghost(done),
            );
            append_rows(
                &mut delta_time,
                &mut delta_cols,
                &rows,
                &sources,
                Some(bound),
                Ghost(own),
                Ghost(latest),
                Ghost(rows_before(done, bound)),
            );
            gi += 1;
        }
        let ghost rows = flush_rows(groups, latest, groups.len() as int);
        let cols_desc = match collect_descriptors(&descs) {
            Some(d) => d,
            None => {
                return Err(Error::InvalidSchemaProjection);
            },
        };
        if !time.is_all_set() || !delta_time.is_all_set() {
            return Err(Error::IncompleteTimeColumn);
        }
        let ghost descs_view = columns_view(cols_desc@);
        assert(descs_view =~= Seq::new(
            schema@.field_num(),
            |j: int| descriptor(groups, latest, j, groups.len() as int).unwrap(),
        ));
        let delta_desc = duplicate_columns(&cols_desc);
        let name = schema.name.clone();
        let full = DataBlock::new(
            share_schema(&schema),
            time,
            schema.time_column(),
            cols,
            cols_desc,
        );
        let delta_ts_desc = schema.time_column();
        let delta = DataBlock::new(schema, delta_time, delta_ts_desc, delta_cols, delta_desc);
        proof {
            assert(full@.cols =~= flush_block(schema@, rows, descs_view).cols);
            assert(delta@.cols =~= flush_block(
                schema@,
                rows_before(rows, bound),
                descs_view,
            ).cols);
            assert forall|j: int| 0 <= j < schema@.field_num() implies (#[trigger] descriptor(
                groups,
                latest,
                j,
                groups.len() as int,
            )) is Some by {
                assert(Some(cols_desc[j]@) == match descs[j] {
                    Some(c) => Some(c@),
                    None => None,
                });
            }
        }
        Ok(Some((name, full, delta)))
    }
}

/// Whether every value of a time column is present.
pub open spec fn all_set_times(values: Seq<Option<FieldValView>>) -> bool {
    crate::block::all_set(values)
}

/// The delta rows are the rows earlier than the bound, in their order:
/// none of them is at or after the bound, each of them is among the rows,
/// and each row earlier than the bound is among them.
pub proof fn lemma_rows_before(rows: Seq<RowView>, bound: i64)
    ensures
        rows_before(rows, bound).len() <= rows.len(),
        forall|i: int|
            0 <= i < rows_before(rows, bound).len() ==> (#[trigger] rows_before(
                rows,
                bound,
            )[i]).ts < bound && rows.contains(rows_before(rows, bound)[i]),
        forall|i: int|
            0 <= i < rows.len() && rows[i].ts < bound ==> rows_before(rows, bound).contains(
                #[trigger] rows[i],
            ),
        (forall|i: int| 0 <= i < rows.len() ==> (#[trigger] rows[i]).ts < bound) ==> rows_before(
            rows,
            bound,
        ) == rows,
{
    let pred = |r: RowView| earlier(bound, r);
    let part = rows_before(rows, bound);
    assert forall|i: int| 0 <= i < part.len() implies (#[trigger] part[i]).ts < bound
        && rows.contains(part[i]) by {
        rows.lemma_filter_contains_rev(pred, part[i]);
    }
    if forall|i: int| 0 <= i < rows.len() ==> (#[trigger] rows[i]).ts < bound {
        lemma_all_before(rows, bound);
    }
}

/// Where every row is earlier than the bound, the delta rows are all rows.
proof fn lemma_all_before(rows: Seq<RowView>, bound: i64)
    requires
        forall|i: int| 0 <= i < rows.len() ==> (#[trigger] rows[i]).ts < bound,
    ensures
        rows_before(rows, bound) == rows,
    decreases rows.len(),
{
    reveal_with_fuel(Seq::filter, 2);
    if rows.len() > 0 {
        let front = rows.drop_last();
        lemma_all_before(front, bound);
    }
}

/// A block is rectangular: the time column and every field column hold one
/// value per row, the time column holds every row's time, and there is one
/// field column per field of the schema.
pub proof fn lemma_block_shape(schema: SchemaView, rows: Seq<RowView>, descs: Seq<ColumnView>)
    ensures
        flush_block(schema, rows, descs).ts.values.len() == rows.len(),
        crate::block::all_set(flush_block(schema, rows, descs).ts.values),
        flush_block(schema, rows, descs).cols.len() == schema.field_num(),
        forall|j: int|
            0 <= j < schema.field_num() ==> (#[trigger] flush_block(
                schema,
                rows,
                descs,
            ).cols[j]).values.len() == rows.len(),
        forall|i: int|
            0 <= i < rows.len() ==> #[trigger] flush_block(schema, rows, descs).ts.values[i]
                == Some(FieldValView::Integer(rows[i].ts)),
{
}

} // verus!
