//! Columnar blocks: the output of a flush.

use crate::field_value::{fields_view, FieldVal, FieldValView};
use crate::schema::{ColumnType, ColumnView, TableColumn};
use crate::table_schema::{columns_view, SchemaView, TskvTableSchema};
use std::sync::Arc;
use vstd::prelude::*;

verus! {

/// The values of one column, one per row, absent where the row has none.
#[derive(Debug, PartialEq, Eq)]
pub struct ColumnData {
    pub column_type: ColumnType,
    pub values: Vec<Option<FieldVal>>,
}

/// What a column stands for.
pub struct ColumnDataView {
    pub column_type: ColumnType,
    pub values: Seq<Option<FieldValView>>,
}

impl View for ColumnData {
    type V = ColumnDataView;

    open spec fn view(&self) -> ColumnDataView {
        ColumnDataView { column_type: self.column_type, values: fields_view(self.values@) }
    }
}

/// The views of a list of columns.
pub open spec fn column_data_view(cols: Seq<ColumnData>) -> Seq<ColumnDataView> {
    Seq::new(cols.len(), |i: int| cols[i]@)
}

/// Whether every value of the sequence is present.
pub open spec fn all_set(values: Seq<Option<FieldValView>>) -> bool {
    forall|i: int| 0 <= i < values.len() ==> (#[trigger] values[i]) is Some
}

impl ColumnData {
    /// A column of the given type without values.
    pub fn empty(column_type: ColumnType) -> (c: ColumnData)
        ensures
            c@ == (ColumnDataView { column_type, values: Seq::empty() }),
    {
        let c = ColumnData { column_type, values: Vec::new() };
        assert(c@.values =~= Seq::empty());
        c
    }

    /// Appends the value of one more row.
    pub fn push(&mut self, value: Option<FieldVal>)
        ensures
            final(self)@ == (ColumnDataView {
                column_type: old(self)@.column_type,
                values: old(self)@.values.push(crate::field_value::opt_view(value)),
            }),
    {
        let ghost before = self@.values;
        self.values.push(value);
        assert(self@.values =~= before.push(crate::field_value::opt_view(value)));
    }

    /// The number of rows.
    pub fn len(&self) -> (n: usize)
        ensures
            n == self@.values.len(),
    {
        self.values.len()
    }

    /// Whether no row lacks a value.
    pub fn is_all_set(&self) -> (b: bool)
        ensures
            b == all_set(self@.values),
    {
        let mut i: usize = 0;
        while i < self.values.len()
            invariant
                i <= self.values.len(),
                forall|k: int| 0 <= k < i ==> (#[trigger] self@.values[k]) is Some,
            decreases self.values.len() - i,
        {
            if self.values[i].is_none() {
                assert(self@.values[i as int] is None);
                return false;
            }
            i += 1;
        }
        true
    }
}

/// A block of rows in columnar form: the time column, one column per field
/// ordinal of the schema, and the definitions of the columns.
#[derive(Debug, PartialEq, Eq)]
pub struct DataBlock {
    pub schema: Arc<TskvTableSchema>,
    pub ts: ColumnData,
    pub ts_desc: TableColumn,
    pub cols: Vec<ColumnData>,
    pub cols_desc: Vec<TableColumn>,
}

/// What a block stands for.
pub struct BlockView {
    pub schema: SchemaView,
    pub ts: ColumnDataView,
    pub ts_desc: ColumnView,
    pub cols: Seq<ColumnDataView>,
    pub cols_desc: Seq<ColumnView>,
}

impl View for DataBlock {
    type V = BlockView;

    open spec fn view(&self) -> BlockView {
        BlockView {
            schema: self.schema@,
            ts: self.ts@,
            ts_desc: self.ts_desc@,
            cols: column_data_view(self.cols@),
            cols_desc: columns_view(self.cols_desc@),
        }
    }
}

impl DataBlock {
    pub fn new(
        schema: Arc<TskvTableSchema>,
        ts: ColumnData,
        ts_desc: TableColumn,
        cols: Vec<ColumnData>,
        cols_desc: Vec<TableColumn>,
    ) -> (b: DataBlock)
        ensures
            b@ == (BlockView {
                schema: schema@,
                ts: ts@,
                ts_desc: ts_desc@,
                cols: column_data_view(cols@),
                cols_desc: columns_view(cols_desc@),
            }),
    {
        DataBlock { schema, ts, ts_desc, cols, cols_desc }
    }

    /// The number of rows, which is the length of the time column.
    pub fn len(&self) -> (n: usize)
        ensures
            n == self@.ts.values.len(),
    {
        self.ts.len()
    }
}

} // verus!
