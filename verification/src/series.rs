//! The rows buffered for one series, grouped by schema version.

use crate::field_value::fields_view;
use crate::row::{rows_view, RowData, RowView};
use crate::row_group::{groups_view, share_schema, GroupView, RowGroup};
use crate::schema::{ColumnView, TableColumn};
use crate::table_schema::{field_ordinal, first_with_id, SchemaView, TskvTableSchema};
use crate::time_range::TimeRange;
use std::sync::Arc;
use vstd::prelude::*;

verus! {

/// The row groups of one series in the order their schema versions were
/// first written, and the time range that covers them.
#[derive(Debug)]
pub struct SeriesData {
    pub series_id: u32,
    pub range: TimeRange,
    pub groups: Vec<RowGroup>,
}

/// What the buffered state of a series stands for.
pub struct SeriesView {
    pub series_id: u32,
    pub range: TimeRange,
    pub groups: Seq<GroupView>,
}

impl View for SeriesData {
    type V = SeriesView;

    open spec fn view(&self) -> SeriesView {
        SeriesView {
            series_id: self.series_id,
            range: self.range,
            groups: groups_view(self.groups@),
        }
    }
}

/// The position of the first group from `from` on whose schema has the
/// given identifier, or `groups.len()`.
pub open spec fn first_group_of(groups: Seq<GroupView>, schema_id: u32, from: int) -> int
    decreases groups.len() - from,
{
    if from < 0 || from >= groups.len() {
        groups.len() as int
    } else if groups[from].schema.schema_id == schema_id {
        from
    } else {
        first_group_of(groups, schema_id, from + 1)
    }
}

/// Whether no two groups share a schema identifier.
pub open spec fn distinct_schemas(groups: Seq<GroupView>) -> bool {
    forall|i: int, j: int|
        0 <= i < j < groups.len() ==> groups[i].schema.schema_id != groups[j].schema.schema_id
}

/// The next schema identifier; it wraps where the identifiers run out.
pub open spec fn next_schema_id(id: u32) -> u32 {
    if id == u32::MAX {
        0
    } else {
        (id + 1) as u32
    }
}

/// The timestamp is outside the closed range.
pub open spec fn outside(range: TimeRange, r: RowView) -> bool {
    !range.spec_contains(r.ts)
}

/// The rows whose time is outside the closed range, in their order.
pub open spec fn rows_outside(rows: Seq<RowView>, range: TimeRange) -> Seq<RowView> {
    rows.filter(|r: RowView| outside(range, r))
}

/// A deleted range leaves exactly the rows outside of it, in their order.
pub proof fn lemma_rows_outside(rows: Seq<RowView>, range: TimeRange)
    ensures
        rows_outside(rows, range).len() <= rows.len(),
        forall|i: int|
            0 <= i < rows_outside(rows, range).len() ==> !range.spec_contains(
                (#[trigger] rows_outside(rows, range)[i]).ts,
            ),
        forall|i: int|
            0 <= i < rows.len() && !range.spec_contains(rows[i].ts) ==> rows_outside(
                rows,
                range,
            ).contains(#[trigger] rows[i]),
        forall|i: int|
            0 <= i < rows_outside(rows, range).len() ==> rows.contains(
                #[trigger] rows_outside(rows, range)[i],
            ),
{
    let pred = |r: RowView| outside(range, r);
    let kept = rows_outside(rows, range);
    assert forall|i: int| 0 <= i < kept.len() implies !range.spec_contains(
        (#[trigger] kept[i]).ts,
    ) && rows.contains(kept[i]) by {
        rows.lemma_filter_contains_rev(pred, kept[i]);
    }
}

/// Deleting from a list with one more row.
pub proof fn lemma_rows_outside_push(rows: Seq<RowView>, r: RowView, range: TimeRange)
    ensures
        rows_outside(rows.push(r), range) == if outside(range, r) {
            rows_outside(rows, range).push(r)
        } else {
            rows_outside(rows, range)
        },
{
    reveal_with_fuel(Seq::filter, 2);
    assert(rows.push(r).drop_last() =~= rows);
}

/// The row without the field at ordinal `o`, where it has one.
pub open spec fn row_without(r: RowView, o: int) -> RowView {
    if 0 <= o < r.fields.len() {
        RowView { ts: r.ts, fields: r.fields.remove(o) }
    } else {
        r
    }
}

/// Every row without the field at ordinal `o`.
pub open spec fn rows_without(rows: Seq<RowView>, o: int) -> Seq<RowView> {
    Seq::new(rows.len(), |i: int| row_without(rows[i], o))
}

impl GroupView {
    /// `incoming` merged into this group: its rows follow the ones held,
    /// the range covers both, and its schema snapshot takes the place of
    /// the one held.
    pub open spec fn absorb(self, incoming: GroupView) -> GroupView {
        GroupView {
            schema: incoming.schema,
            range: self.range.spec_merge(incoming.range),
            rows: self.rows + incoming.rows,
            size: self.size,
        }
    }

    /// The group without the rows whose time lies in the closed range.
    pub open spec fn delete_range(self, range: TimeRange) -> GroupView {
        GroupView { rows: rows_outside(self.rows, range), ..self }
    }

    /// The group after the field column with the given id was dropped: each
    /// row loses the value at the field's ordinal and the schema loses the
    /// column. A group without such a field is left as it is.
    pub open spec fn drop_column(self, column_id: u32) -> GroupView {
        match field_ordinal(self.schema.columns, column_id) {
            Some(o) => GroupView {
                schema: self.schema.drop_column(
                    self.schema.columns[first_with_id(self.schema.columns, column_id, 0)].name,
                ),
                rows: rows_without(self.rows, o),
                ..self
            },
            None => self,
        }
    }

    /// The group under a schema in which the named column is redefined and
    /// the identifier moved on; its rows stay.
    pub open spec fn change_column(self, name: Seq<char>, col: ColumnView) -> GroupView {
        GroupView {
            schema: self.schema.change_column(name, col).with_id(
                next_schema_id(self.schema.schema_id),
            ),
            ..self
        }
    }

    /// The group under a schema with one more column and the identifier
    /// moved on; its rows stay.
    pub open spec fn add_column(self, col: ColumnView) -> GroupView {
        GroupView {
            schema: self.schema.add_column(col).with_id(next_schema_id(self.schema.schema_id)),
            ..self
        }
    }
}

impl SeriesView {
    /// A series without any rows.
    pub open spec fn empty(series_id: u32) -> SeriesView {
        SeriesView { series_id, range: TimeRange::spec_none(), groups: Seq::empty() }
    }

    /// The series after `group` was written: merged into the first group of
    /// the same schema identifier, else appended as a new group.
    pub open spec fn write(self, group: GroupView) -> SeriesView {
        let i = first_group_of(self.groups, group.schema.schema_id, 0);
        SeriesView {
            range: self.range.spec_merge(group.range),
            groups: if i < self.groups.len() {
                self.groups.update(i, self.groups[i].absorb(group))
            } else {
                self.groups.push(group)
            },
            ..self
        }
    }

    /// The series after the rows in the closed range were deleted. A range
    /// that does not overlap the series' range changes nothing.
    pub open spec fn delete_series(self, range: TimeRange) -> SeriesView {
        if range.max_ts < self.range.min_ts || range.min_ts > self.range.max_ts {
            self
        } else {
            SeriesView {
                groups: Seq::new(self.groups.len(), |i: int| self.groups[i].delete_range(range)),
                ..self
            }
        }
    }

    /// The series after the field column with the id was dropped from
    /// every group that has it.
    pub open spec fn drop_column(self, column_id: u32) -> SeriesView {
        SeriesView {
            groups: Seq::new(self.groups.len(), |i: int| self.groups[i].drop_column(column_id)),
            ..self
        }
    }

    /// The series after the named column was redefined in every group.
    pub open spec fn change_column(self, name: Seq<char>, col: ColumnView) -> SeriesView {
        SeriesView {
            groups: Seq::new(
                self.groups.len(),
                |i: int| self.groups[i].change_column(name, col),
            ),
            ..self
        }
    }

    /// The series after the column was added to every group.
    pub open spec fn add_column(self, col: ColumnView) -> SeriesView {
        SeriesView {
            groups: Seq::new(self.groups.len(), |i: int| self.groups[i].add_column(col)),
            ..self
        }
    }

    /// The schema of the group written last, which is the latest one.
    pub open spec fn latest_schema(self) -> Option<SchemaView> {
        if self.groups.len() > 0 {
            Some(self.groups.last().schema)
        } else {
            None
        }
    }
}

/// `first_group_of` yields the first group of that schema from `from` on,
/// or the length.
pub proof fn lemma_first_group_of(groups: Seq<GroupView>, schema_id: u32, from: int)
    requires
        0 <= from <= groups.len(),
    ensures
        from <= first_group_of(groups, schema_id, from) <= groups.len(),
        first_group_of(groups, schema_id, from) < groups.len() ==> groups[first_group_of(
            groups,
            schema_id,
            from,
        )].schema.schema_id == schema_id,
        forall|k: int|
            from <= k < first_group_of(groups, schema_id, from) ==> (
            #[trigger] groups[k]).schema.schema_id != schema_id,
    decreases groups.len() - from,
{
    if from < groups.len() && groups[from].schema.schema_id != schema_id {
        lemma_first_group_of(groups, schema_id, from + 1);
    }
}

impl SeriesData {
    /// A series without any rows.
    pub fn new(series_id: u32) -> (r: SeriesData)
        ensures
            r@ == SeriesView::empty(series_id),
    {
        let r = SeriesData { series_id, range: TimeRange::none(), groups: Vec::new() };
        assert(r@.groups =~= Seq::empty());
        r
    }

    /// Merges the group into the one of the same schema identifier, whose
    /// schema snapshot it replaces, or appends it as a new group.
    pub fn write(&mut self, group: RowGroup)
        ensures
            final(self)@ == old(self)@.write(group@),
    {
        let mut taken = group;
        self.range.merge(&taken.range);
        let ghost before = old(self)@.groups;
        let ghost incoming = group@;
        let mut i: usize = 0;
        while i < self.groups.len()
            invariant
                i <= self.groups.len(),
                taken@ == incoming,
                group@ == incoming,
                before == old(self)@.groups,
                groups_view(self.groups@) == before,
                self.series_id == old(self).series_id,
                self.range == old(self).range.spec_merge(incoming.range),
                first_group_of(before, incoming.schema.schema_id, 0) == first_group_of(
                    before,
                    incoming.schema.schema_id,
                    i as int,
                ),
            decreases self.groups.len() - i,
        {
            if self.groups[i].schema.schema_id == taken.schema.schema_id {
                let item = &mut self.groups[i];
                let ghost rows_before = rows_view(item.rows@);
                item.range.merge(&taken.range);
                item.rows.append(&mut taken.rows);
                assert(rows_view(item.rows@) =~= rows_before + incoming.rows);
                item.schema = taken.schema;
                assert(groups_view(self.groups@) =~= before.update(
                    i as int,
                    before[i as int].absorb(incoming),
                ));
                return ;
            }
            i += 1;
        }
        self.groups.push(taken);
        assert(groups_view(self.groups@) =~= before.push(incoming));
    }

    /// The schema of the group written last.
    pub fn get_schema(&self) -> (r: Option<Arc<TskvTableSchema>>)
        ensures
            match r {
                Some(s) => self@.latest_schema() == Some(s@),
                None => self@.latest_schema() is None,
            },
    {
        let n = self.groups.len();
        if n > 0 {
            Some(share_schema(&self.groups[n - 1].schema))
        } else {
            None
        }
    }
}

/// Copies of the rows whose time is outside the closed range.
fn keep_outside(rows: &Vec<RowData>, range: &TimeRange) -> (kept: Vec<RowData>)
    ensures
        rows_view(kept@) == rows_outside(rows_view(rows@), *range),
{
    let mut kept: Vec<RowData> = Vec::new();
    let mut i: usize = 0;
    while i < rows.len()
        invariant
            i <= rows.len(),
            rows_view(kept@) == rows_outside(rows_view(rows@).take(i as int), *range),
        decreases rows.len() - i,
    {
        let ghost all = rows_view(rows@);
        proof {
            assert(all.take(i + 1) =~= all.take(i as int).push(all[i as int]));
            lemma_rows_outside_push(all.take(i as int), all[i as int], *range);
        }
        if rows[i].ts < range.min_ts || rows[i].ts > range.max_ts {
            kept.push(rows[i].duplicate());
        }
        i += 1;
    }
    assert(rows_view(rows@).take(rows.len() as int) =~= rows_view(rows@));
    kept
}

impl SeriesData {
    /// Removes the rows whose time lies in the closed range. Nothing is
    /// done where the range does not overlap the range of the series.
    pub fn delete_series(&mut self, range: &TimeRange)
        ensures
            final(self)@ == old(self)@.delete_series(*range),
    {
        if range.max_ts < self.range.min_ts || range.min_ts > self.range.max_ts {
            return ;
        }
        let ghost before = old(self)@.groups;
        let mut i: usize = 0;
        while i < self.groups.len()
            invariant
                i <= self.groups.len(),
                self.groups.len() == before.len(),
                before == old(self)@.groups,
                self.series_id == old(self).series_id,
                self.range == old(self).range,
                forall|k: int|
                    0 <= k < i ==> (#[trigger] self.groups[k])@ == before[k].delete_range(*range),
                forall|k: int| i <= k < before.len() ==> (#[trigger] self.groups[k])@ == before[k],
            decreases self.groups.len() - i,
        {
            let kept = keep_outside(&self.groups[i].rows, range);
            self.groups[i].rows = kept;
            i += 1;
        }
        assert(self@.groups =~= old(self)@.delete_series(*range).groups);
    }
}

/// Removes the value at ordinal `o` from every row that has one.
fn drop_field(rows: &mut Vec<RowData>, o: usize)
    ensures
        rows_view(final(rows)@) == rows_without(rows_view(old(rows)@), o as int),
{
    let ghost before = rows_view(old(rows)@);
    let mut j: usize = 0;
    while j < rows.len()
        invariant
            j <= rows.len(),
            rows.len() == before.len(),
            before == rows_view(old(rows)@),
            forall|k: int| 0 <= k < j ==> (#[trigger] rows[k])@ == row_without(before[k], o as int),
            forall|k: int| j <= k < before.len() ==> (#[trigger] rows[k])@ == before[k],
        decreases rows.len() - j,
    {
        if o < rows[j].fields.len() {
            let ghost held = rows[j as int].fields@;
            let row = &mut rows[j];
            row.fields.remove(o);
            assert(fields_view(rows[j as int].fields@) =~= fields_view(held).remove(o as int));
        }
        j += 1;
    }
}

/// A field with the id makes `first_with_id` find a column.
pub proof fn lemma_field_has_first(cols: Seq<ColumnView>, id: u32)
    requires
        crate::table_schema::has_field(cols, id),
    ensures
        first_with_id(cols, id, 0) < cols.len(),
{
    crate::table_schema::lemma_first_with_id(cols, id, 0);
    let k = choose|k: int|
        0 <= k < cols.len() && #[trigger] crate::table_schema::is_field_with_id(cols[k], id);
}

impl SeriesData {
    /// Drops the field column with the given id from every group that has
    /// it: each row loses the value at the field's ordinal, and the group's
    /// schema is replaced by one without the column under the same
    /// identifier.
    pub fn drop_column(&mut self, column_id: u32)
        ensures
            final(self)@ == old(self)@.drop_column(column_id),
    {
        let ghost before = old(self)@.groups;
        let mut i: usize = 0;
        while i < self.groups.len()
            invariant
                i <= self.groups.len(),
                self.groups.len() == before.len(),
                before == old(self)@.groups,
                self.series_id == old(self).series_id,
                self.range == old(self).range,
                forall|k: int|
                    0 <= k < i ==> (#[trigger] self.groups[k])@ == before[k].drop_column(column_id),
                forall|k: int| i <= k < before.len() ==> (#[trigger] self.groups[k])@ == before[k],
            decreases self.groups.len() - i,
        {
            let ghost cols = self.groups[i as int].schema@.columns;
            let name = match self.groups[i].schema.column_name(column_id) {
                Some(n) => Some(n.clone()),
                None => None,
            };
            let index = self.groups[i].schema.field_index(column_id);
            proof {
                if index is Some {
                    lemma_field_has_first(cols, column_id);
                }
            }
            match (name, index) {
                (Some(name), Some(index)) => {
                    let mut schema = self.groups[i].schema.duplicate();
                    schema.drop_column(name.as_str());
                    let item = &mut self.groups[i];
                    drop_field(&mut item.rows, index);
                    item.schema = Arc::new(schema);
                },
                _ => {},
            }
            i += 1;
        }
        assert(self@.groups =~= old(self)@.drop_column(column_id).groups);
    }

    /// Redefines the named column in the schema of every group and moves
    /// the schema identifiers on. Rows are left as they are.
    pub fn change_column(&mut self, column_name: &str, new_column: &TableColumn)
        ensures
            final(self)@ == old(self)@.change_column(column_name@, new_column@),
    {
        let ghost before = old(self)@.groups;
        let mut i: usize = 0;
        while i < self.groups.len()
            invariant
                i <= self.groups.len(),
                self.groups.len() == before.len(),
                before == old(self)@.groups,
                self.series_id == old(self).series_id,
                self.range == old(self).range,
                forall|k: int|
                    0 <= k < i ==> (#[trigger] self.groups[k])@ == before[k].change_column(
                        column_name@,
                        new_column@,
                    ),
                forall|k: int| i <= k < before.len() ==> (#[trigger] self.groups[k])@ == before[k],
            decreases self.groups.len() - i,
        {
            let mut schema = self.groups[i].schema.duplicate();
            schema.change_column(column_name, new_column.duplicate());
            schema.schema_id = schema.schema_id.wrapping_add(1);
            self.groups[i].schema = Arc::new(schema);
            i += 1;
        }
        assert(self@.groups =~= old(self)@.change_column(column_name@, new_column@).groups);
    }

    /// Adds the column to the schema of every group and moves the schema
    /// identifiers on. Rows are left as they are: they hold no value for
    /// the new column.
    pub fn add_column(&mut self, new_column: &TableColumn)
        ensures
            final(self)@ == old(self)@.add_column(new_column@),
    {
        let ghost before = old(self)@.groups;
        let mut i: usize = 0;
        while i < self.groups.len()
            invariant
                i <= self.groups.len(),
                self.groups.len() == before.len(),
                before == old(self)@.groups,
                self.series_id == old(self).series_id,
                self.range == old(self).range,
                forall|k: int|
                    0 <= k < i ==> (#[trigger] self.groups[k])@ == before[k].add_column(
                        new_column@,
                    ),
                forall|k: int| i <= k < before.len() ==> (#[trigger] self.groups[k])@ == before[k],
            decreases self.groups.len() - i,
        {
            let mut schema = self.groups[i].schema.duplicate();
            schema.add_column(new_column.duplicate());
            schema.schema_id = schema.schema_id.wrapping_add(1);
            self.groups[i].schema = Arc::new(schema);
            i += 1;
        }
        assert(self@.groups =~= old(self)@.add_column(new_column@).groups);
    }
}

impl SeriesData {
    /// The groups as they are held: for each the identifier of its schema,
    /// the schema snapshot and the rows.
    pub fn flat_groups(&self) -> (r: Vec<(u32, Arc<TskvTableSchema>, &Vec<RowData>)>)
        ensures
            r.len() == self.groups.len(),
            forall|i: int|
                0 <= i < r.len() ==> {
                    &&& (#[trigger] r[i]).0 == self.groups[i].schema.schema_id
                    &&& r[i].1 == self.groups[i].schema
                    &&& *r[i].2 == self.groups[i].rows
                },
    {
        let mut r: Vec<(u32, Arc<TskvTableSchema>, &Vec<RowData>)> = Vec::with_capacity(
            self.groups.len(),
        );
        let mut i: usize = 0;
        while i < self.groups.len()
            invariant
                i <= self.groups.len(),
                r.len() == i,
                forall|k: int|
                    0 <= k < i ==> {
                        &&& (#[trigger] r[k]).0 == self.groups[k].schema.schema_id
                        &&& r[k].1 == self.groups[k].schema
                        &&& *r[k].2 == self.groups[k].rows
                    },
            decreases self.groups.len() - i,
        {
            let g = &self.groups[i];
            r.push((g.schema.schema_id, share_schema(&g.schema), &g.rows));
            i += 1;
        }
        r
    }
}

/// Writing two groups of one schema identifier leaves one group for that
/// identifier: the second write adds no group, and the group holds the rows
/// of both, the second's after the first's, under a range that covers both.
/// On a series without rows that is the only group, and the range of the
/// series is the union of the two.
pub proof fn lemma_write_same_schema(s: SeriesView, a: GroupView, b: GroupView)
    requires
        a.schema.schema_id == b.schema.schema_id,
    ensures
        s.write(a).write(b).groups.len() == s.write(a).groups.len(),
        ({
            let i = first_group_of(s.write(a).groups, a.schema.schema_id, 0);
            &&& 0 <= i < s.write(a).groups.len()
            &&& s.write(a).write(b).groups[i].rows == s.write(a).groups[i].rows + b.rows
            &&& s.write(a).write(b).groups[i].rows.len() == s.write(a).groups[i].rows.len()
                + b.rows.len()
            &&& s.write(a).write(b).groups[i].range == s.write(a).groups[i].range.spec_merge(
                b.range,
            )
            &&& forall|k: int|
                0 <= k < s.write(a).groups.len() && k != i ==> s.write(a).write(b).groups[k]
                    == s.write(a).groups[k]
        }),
        s.groups.len() == 0 ==> {
            &&& s.write(a).write(b).groups.len() == 1
            &&& s.write(a).write(b).groups[0].rows == a.rows + b.rows
            &&& s.write(a).write(b).groups[0].range == a.range.spec_merge(b.range)
        },
        s == SeriesView::empty(s.series_id) ==> s.write(a).write(b).range == a.range.spec_merge(
            b.range,
        ),
{
    let id = a.schema.schema_id;
    let first = s.write(a);
    lemma_first_group_of(s.groups, id, 0);
    let at = first_group_of(s.groups, id, 0);
    lemma_first_group_of(first.groups, id, 0);
    if at < s.groups.len() {
        assert(first.groups[at].schema.schema_id == id);
    } else {
        assert(first.groups[s.groups.len() as int].schema.schema_id == id);
    }
}

/// Writing a group whose schema identifier the series does not hold adds
/// one group, behind the others, and leaves the others as they are.
pub proof fn lemma_write_new_schema(s: SeriesView, g: GroupView)
    requires
        forall|k: int|
            0 <= k < s.groups.len() ==> (#[trigger] s.groups[k]).schema.schema_id
                != g.schema.schema_id,
    ensures
        s.write(g).groups == s.groups.push(g),
        s.write(g).groups.len() == s.groups.len() + 1,
{
    lemma_first_group_of(s.groups, g.schema.schema_id, 0);
}

/// A write keeps it so that no two groups share a schema identifier, and
/// makes the range of the series cover that of the group.
pub proof fn lemma_write_keeps_distinct(s: SeriesView, g: GroupView)
    requires
        distinct_schemas(s.groups),
    ensures
        distinct_schemas(s.write(g).groups),
        s.write(g).range == s.range.spec_merge(g.range),
        s.write(g).series_id == s.series_id,
{
    lemma_first_group_of(s.groups, g.schema.schema_id, 0);
    let at = first_group_of(s.groups, g.schema.schema_id, 0);
}

/// After a column was dropped, every row of a group that had the field is
/// one value shorter: the value at the field's ordinal is gone and the
/// later ones have moved up. A group without the field is untouched.
pub proof fn lemma_drop_column_rows(g: GroupView, column_id: u32)
    ensures
        g.drop_column(column_id).rows.len() == g.rows.len(),
        field_ordinal(g.schema.columns, column_id) is None ==> g.drop_column(column_id) == g,
        forall|i: int|
            0 <= i < g.rows.len() ==> match field_ordinal(g.schema.columns, column_id) {
                Some(o) => {
                    let before = g.rows[i];
                    let after = #[trigger] g.drop_column(column_id).rows[i];
                    &&& after.ts == before.ts
                    &&& o < before.fields.len() ==> {
                        &&& after.fields.len() == before.fields.len() - 1
                        &&& forall|k: int| 0 <= k < o ==> after.fields[k] == before.fields[k]
                        &&& forall|k: int|
                            o <= k < after.fields.len() ==> after.fields[k] == before.fields[k
                                + 1]
                    }
                    &&& o >= before.fields.len() ==> after == before
                },
                None => true,
            },
{
    crate::table_schema::lemma_field_ordinal_in_range(g.schema.columns, column_id);
}

} // verus!
