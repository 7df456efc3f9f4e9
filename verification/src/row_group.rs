//! Row groups: the rows of one series written under one schema version.

use crate::row::{rows_view, RowData, RowView};
use crate::table_schema::{SchemaView, TskvTableSchema};
use crate::time_range::TimeRange;
use std::sync::Arc;
use vstd::prelude::*;

verus! {

/// A batch of rows that share one schema snapshot, with the time range
/// they span and an estimate of the bytes they take.
#[derive(Debug, PartialEq, Eq)]
pub struct RowGroup {
    pub schema: Arc<TskvTableSchema>,
    pub range: TimeRange,
    pub rows: Vec<RowData>,
    /// Estimated size on stack and heap, in bytes.
    pub size: usize,
}

/// What a row group stands for.
pub struct GroupView {
    pub schema: SchemaView,
    pub range: TimeRange,
    pub rows: Seq<RowView>,
    pub size: usize,
}

impl View for RowGroup {
    type V = GroupView;

    open spec fn view(&self) -> GroupView {
        GroupView {
            schema: self.schema@,
            range: self.range,
            rows: rows_view(self.rows@),
            size: self.size,
        }
    }
}

/// The views of a list of row groups.
pub open spec fn groups_view(groups: Seq<RowGroup>) -> Seq<GroupView> {
    Seq::new(groups.len(), |i: int| groups[i]@)
}

/// `Arc::clone`: another handle to the same schema snapshot.
#[verifier::external_body]
pub(crate) fn share_schema(schema: &Arc<TskvTableSchema>) -> (r: Arc<TskvTableSchema>)
    ensures
        r == *schema,
{
    Arc::clone(schema)
}

impl RowGroup {
    /// A copy of the group that shares the schema snapshot.
    pub fn duplicate(&self) -> (r: RowGroup)
        ensures
            r@ == self@,
    {
        RowGroup {
            schema: share_schema(&self.schema),
            range: self.range,
            rows: crate::row::duplicate_rows(&self.rows),
            size: self.size,
        }
    }
}

impl Clone for RowGroup {
    fn clone(&self) -> (r: RowGroup)
        ensures
            r@ == self@,
    {
        self.duplicate()
    }
}

} // verus!
