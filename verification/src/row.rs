//! Rows: one timestamped observation each.

use crate::field_value::{duplicate_fields, fields_view, FieldVal, FieldValView};
use vstd::prelude::*;

verus! {

/// A timestamp and one optional value per field ordinal of the schema the
/// row was written under.
#[derive(Debug, PartialEq, Eq)]
pub struct RowData {
    pub ts: i64,
    pub fields: Vec<Option<FieldVal>>,
}

/// What a row stands for.
pub struct RowView {
    pub ts: i64,
    pub fields: Seq<Option<FieldValView>>,
}

impl View for RowData {
    type V = RowView;

    open spec fn view(&self) -> RowView {
        RowView { ts: self.ts, fields: fields_view(self.fields@) }
    }
}

/// The views of a list of rows.
pub open spec fn rows_view(rows: Seq<RowData>) -> Seq<RowView> {
    Seq::new(rows.len(), |i: int| rows[i]@)
}

impl RowData {
    /// A copy of the row.
    pub fn duplicate(&self) -> (r: RowData)
        ensures
            r@ == self@,
    {
        RowData { ts: self.ts, fields: duplicate_fields(&self.fields) }
    }
}

impl Clone for RowData {
    fn clone(&self) -> (r: RowData)
        ensures
            r@ == self@,
    {
        self.duplicate()
    }
}

/// A copy of a list of rows.
pub fn duplicate_rows(rows: &Vec<RowData>) -> (r: Vec<RowData>)
    ensures
        rows_view(r@) == rows_view(rows@),
{
    let mut r: Vec<RowData> = Vec::with_capacity(rows.len());
    let mut i: usize = 0;
    while i < rows.len()
        invariant
            i <= rows.len(),
            r.len() == i,
            forall|k: int| 0 <= k < i ==> (#[trigger] r[k])@ == rows[k]@,
        decreases rows.len() - i,
    {
        r.push(rows[i].duplicate());
        i += 1;
    }
    r
}

/// The bytes of the string values among the first `n` fields.
pub open spec fn string_bytes(fields: Seq<Option<FieldValView>>, n: int) -> nat
    decreases n,
{
    if n <= 0 || n > fields.len() {
        0
    } else {
        string_bytes(fields, n - 1) + match fields[n - 1] {
            Some(FieldValView::Bytes(b)) => b.len(),
            _ => 0nat,
        }
    }
}

/// Whether none of the fields is a string.
pub open spec fn string_free(fields: Seq<Option<FieldValView>>) -> bool {
    forall|i: int| 0 <= i < fields.len() ==> !((#[trigger] fields[i]) matches Some(
        FieldValView::Bytes(_),
    ))
}

/// The least size of a row in memory: the timestamp, the field vector, one
/// slot per field, and the bytes of its strings.
pub open spec fn least_size(r: RowView) -> nat {
    vstd::layout::size_of::<i64>() + vstd::layout::size_of::<Vec<Option<FieldVal>>>()
        + r.fields.len() * vstd::layout::size_of::<Option<FieldVal>>() + string_bytes(
        r.fields,
        r.fields.len() as int,
    )
}

/// `n` where it fits the machine word, else the largest word.
pub open spec fn saturated(n: nat) -> usize {
    if n <= usize::MAX {
        n as usize
    } else {
        usize::MAX
    }
}

impl RowData {
    /// The size of the row in memory, counted up to the largest machine
    /// word: the timestamp, the field vector, one slot per field and what
    /// the strings have allocated, which is at least their bytes.
    pub fn size(&self) -> (n: usize)
        ensures
            n >= saturated(least_size(self@)),
            string_free(self@.fields) ==> n == saturated(least_size(self@)),
    {
        let slot: usize = core::mem::size_of::<Option<FieldVal>>();
        let mut size: usize = 0;
        let ghost mut total: nat = 0;
        let ghost fields = self@.fields;
        let mut i: usize = 0;
        while i < self.fields.len()
            invariant
                i <= self.fields.len(),
                fields == self@.fields,
                slot == vstd::layout::size_of::<Option<FieldVal>>(),
                size == saturated(total),
                total >= i * slot + string_bytes(fields, i as int),
                (forall|k: int|
                    0 <= k < i ==> !((#[trigger] fields[k]) matches Some(FieldValView::Bytes(_))))
                    ==> total == i * slot + string_bytes(fields, i as int),
            decreases self.fields.len() - i,
        {
            let heap: usize = match &self.fields[i] {
                Some(v) => v.heap_size(),
                None => 0,
            };
            proof {
                assert((i + 1) * slot == i * slot + slot) by (nonlinear_arith);
            }
            size = size.saturating_add(slot);
            size = size.saturating_add(heap);
            proof {
                total = (total + slot + heap) as nat;
            }
            i += 1;
        }
        size = size.saturating_add(core::mem::size_of::<i64>());
        size = size.saturating_add(core::mem::size_of::<Vec<Option<FieldVal>>>());
        size
    }
}

} // verus!
