//! Written points: the columns of a write request, and the row that one
//! point of it makes under a table schema.

use crate::error::Error;
use crate::field_value::{fields_view, opt_view, FieldVal, FieldValView};
use crate::row::RowData;
use crate::schema::{ColumnView, Precision};
use crate::table_schema::{column_position, field_count, field_ordinal, TskvTableSchema};
use vstd::prelude::*;

verus! {

/// The values of one column of a write request, one per point.
#[derive(Debug, Clone, PartialEq, Eq)]
pub enum ColumnValues {
    Integer(Vec<i64>),
    /// Floating-point values as their IEEE-754 binary64 bit patterns.
    Float(Vec<u64>),
    Unsigned(Vec<u64>),
    Boolean(Vec<bool>),
    String(Vec<Vec<u8>>),
    /// A column of a type that the buffer does not store.
    Unknown,
}

/// One column of a write request: its name, one bit per point that tells
/// whether the point has a value, and the values.
#[derive(Debug, Clone, PartialEq, Eq)]
pub struct PointColumn {
    pub name: String,
    pub nullbits: Vec<u8>,
    pub values: ColumnValues,
}

/// Whether bit `idx` of a bit set of `len` bits is set. Bits are counted
/// from the least significant bit of the first byte; a bit beyond the set
/// or beyond the bytes is not set.
pub open spec fn bit_is_set(bytes: Seq<u8>, len: nat, idx: nat) -> bool {
    idx < len && idx / 8 < bytes.len() && ((bytes[(idx / 8) as int] >> ((idx % 8) as u8)) & 1u8)
        == 1u8
}

/// The number of values of the column.
pub open spec fn values_len(values: ColumnValues) -> nat {
    match values {
        ColumnValues::Integer(v) => v@.len(),
        ColumnValues::Float(v) => v@.len(),
        ColumnValues::Unsigned(v) => v@.len(),
        ColumnValues::Boolean(v) => v@.len(),
        ColumnValues::String(v) => v@.len(),
        ColumnValues::Unknown => 0,
    }
}

/// The value of the column for the point `row`.
pub open spec fn value_at(values: ColumnValues, row: int) -> Option<FieldValView> {
    if 0 <= row < values_len(values) {
        match values {
            ColumnValues::Integer(v) => Some(FieldValView::Integer(v@[row])),
            ColumnValues::Float(v) => Some(FieldValView::Float(v@[row])),
            ColumnValues::Unsigned(v) => Some(FieldValView::Unsigned(v@[row])),
            ColumnValues::Boolean(v) => Some(FieldValView::Boolean(v@[row])),
            ColumnValues::String(v) => Some(FieldValView::Bytes(v@[row]@)),
            ColumnValues::Unknown => None,
        }
    } else {
        None
    }
}

/// The value that the point `row` has in the column, where its bit is set.
pub open spec fn point_value(c: PointColumn, row: int) -> Option<FieldValView> {
    if row >= 0 && bit_is_set(c.nullbits@, values_len(c.values), row as nat) {
        value_at(c.values, row)
    } else {
        None
    }
}

/// The ordinal of the field that the schema has under the name, where the
/// last column of that name is a field.
pub open spec fn field_named(cols: Seq<ColumnView>, name: Seq<char>) -> Option<int> {
    match column_position(cols, name) {
        Some(p) => if cols[p].column_type.spec_is_field() {
            field_ordinal(cols, cols[p].id)
        } else {
            None
        },
        None => None,
    }
}

/// Where the value of a column of the request goes: the field ordinal and
/// the value, for a point that has a value in a column that the schema
/// knows as a field.
pub open spec fn placed(cols: Seq<ColumnView>, c: PointColumn, row: int) -> Option<
    (int, FieldValView),
> {
    match (point_value(c, row), field_named(cols, c.name@)) {
        (Some(v), Some(o)) => Some((o, v)),
        _ => None,
    }
}

/// The fields of the point after the first `n` of the listed columns were
/// read: each value is placed at the ordinal of its field, a later one
/// over an earlier one.
pub open spec fn point_fields(
    cols: Seq<ColumnView>,
    columns: Seq<PointColumn>,
    fields_idx: Seq<usize>,
    row: int,
    n: int,
) -> Seq<Option<FieldValView>>
    decreases n,
{
    if n <= 0 || n > fields_idx.len() {
        Seq::new(field_count(cols, cols.len() as int), |i: int| None)
    } else {
        let prev = point_fields(cols, columns, fields_idx, row, n - 1);
        match placed(cols, columns[fields_idx[n - 1] as int], row) {
            Some((o, v)) => if 0 <= o < prev.len() {
                prev.update(o, Some(v))
            } else {
                prev
            },
            None => prev,
        }
    }
}

/// Whether one of the first `n` listed columns gives the point a value.
pub open spec fn point_has_fields(
    cols: Seq<ColumnView>,
    columns: Seq<PointColumn>,
    fields_idx: Seq<usize>,
    row: int,
    n: int,
) -> bool {
    exists|i: int|
        0 <= i < n && i < fields_idx.len() && (#[trigger] placed(
            cols,
            columns[fields_idx[i] as int],
            row,
        )) is Some
}

/// The quotient rounded towards zero.
pub open spec fn truncated_div(a: int, b: int) -> int
    recommends
        b > 0,
{
    if a >= 0 {
        a / b
    } else {
        -((-a) / b)
    }
}

/// The timestamp in another precision, where it fits 64 bits. A coarser
/// precision drops the digits it cannot hold.
pub open spec fn spec_timestamp_convert(from: Precision, to: Precision, ts: i64) -> Option<i64> {
    let scaled: int = match (from, to) {
        (Precision::NS, Precision::US) | (Precision::US, Precision::MS) => truncated_div(
            ts as int,
            1000,
        ),
        (Precision::MS, Precision::US) | (Precision::US, Precision::NS) => ts * 1000,
        (Precision::NS, Precision::MS) => truncated_div(ts as int, 1_000_000),
        (Precision::MS, Precision::NS) => ts * 1_000_000,
        _ => ts as int,
    };
    if i64::MIN <= scaled <= i64::MAX {
        Some(scaled as i64)
    } else {
        None
    }
}

/// Divides a timestamp by a positive unit, rounding towards zero.
fn scale_down(ts: i64, unit: i64) -> (r: i64)
    requires
        unit > 1,
    ensures
        r == truncated_div(ts as int, unit as int),
{
    if ts >= 0 {
        ts / unit
    } else if ts == i64::MIN {
        // The magnitude does not fit: split off one unit first.
        let rest = ts + unit;
        let q = (-rest) / unit;
        assert(truncated_div(ts as int, unit as int) == -(q + 1)) by (nonlinear_arith)
            requires
                unit > 1,
                rest == ts + unit,
                rest < 0,
                q == (-rest) / (unit as int),
                ts < 0,
        ;
        -q - 1
    } else {
        -((-ts) / unit)
    }
}

/// Converts a timestamp from one precision to another.
pub fn timestamp_convert(from: Precision, to: Precision, ts: i64) -> (r: Option<i64>)
    ensures
        r == spec_timestamp_convert(from, to, ts),
{
    match (from, to) {
        (Precision::NS, Precision::US) | (Precision::US, Precision::MS) => Some(
            scale_down(ts, 1000),
        ),
        (Precision::MS, Precision::US) | (Precision::US, Precision::NS) => ts.checked_mul(1000),
        (Precision::NS, Precision::MS) => Some(scale_down(ts, 1_000_000)),
        (Precision::MS, Precision::NS) => ts.checked_mul(1_000_000),
        _ => Some(ts),
    }
}

/// Whether the bit of the point is set in the null bits of a column with
/// `len` values.
fn has_value(nullbits: &Vec<u8>, len: usize, idx: usize) -> (b: bool)
    ensures
        b == bit_is_set(nullbits@, len as nat, idx as nat),
{
    if idx >= len {
        return false;
    }
    let byte = idx / 8;
    if byte >= nullbits.len() {
        return false;
    }
    let bit: u8 = (idx % 8) as u8;
    ((nullbits[byte] >> bit) & 1u8) == 1u8
}

impl ColumnValues {
    /// The number of values.
    pub fn len(&self) -> (n: usize)
        ensures
            n == values_len(*self),
    {
        match self {
            ColumnValues::Integer(v) => v.len(),
            ColumnValues::Float(v) => v.len(),
            ColumnValues::Unsigned(v) => v.len(),
            ColumnValues::Boolean(v) => v.len(),
            ColumnValues::String(v) => v.len(),
            ColumnValues::Unknown => 0,
        }
    }

    /// The value for the point `row`, where the column has one.
    pub fn get(&self, row: usize) -> (r: Option<FieldVal>)
        ensures
            opt_view(r) == value_at(*self, row as int),
    {
        if row >= self.len() {
            return None;
        }
        match self {
            ColumnValues::Integer(v) => Some(FieldVal::Integer(v[row])),
            ColumnValues::Float(v) => Some(FieldVal::Float(v[row])),
            ColumnValues::Unsigned(v) => Some(FieldVal::Unsigned(v[row])),
            ColumnValues::Boolean(v) => Some(FieldVal::Boolean(v[row])),
            ColumnValues::String(v) => Some(FieldVal::from_bytes(v[row].as_slice())),
            ColumnValues::Unknown => None,
        }
    }
}

impl PointColumn {
    /// The value that the point `row` has in the column, where its bit is
    /// set.
    pub fn value(&self, row: usize) -> (r: Option<FieldVal>)
        ensures
            opt_view(r) == point_value(*self, row as int),
    {
        if has_value(&self.nullbits, self.values.len(), row) {
            self.values.get(row)
        } else {
            None
        }
    }
}

/// The ordinal of the field that the schema has under the name.
fn field_of(schema: &TskvTableSchema, name: &String) -> (r: Option<usize>)
    ensures
        match r {
            Some(o) => field_named(schema@.columns, name@) == Some(o as int) && o
                < schema@.field_num(),
            None => field_named(schema@.columns, name@) is None,
        },
{
    match schema.column(name.as_str()) {
        Some(column) => if column.column_type.is_field() {
            schema.field_index(column.id)
        } else {
            None
        },
        None => None,
    }
}

impl RowData {
    /// The row that the point `row_count` of a write request makes under
    /// the schema. `fields_idx` lists the columns of the request that hold
    /// fields, `ts_idx` is the column that holds the timestamps in the
    /// precision `from_precision`.
    ///
    /// A value is kept where the point has one and the schema knows the
    /// column as a field; other columns are passed over. A point that is
    /// left without any value is refused, and so is one whose timestamp
    /// does not fit the precision of the table.
    pub fn point_to_row_data(
        schema: &TskvTableSchema,
        from_precision: Precision,
        columns: &Vec<PointColumn>,
        fields_idx: &Vec<usize>,
        ts_idx: usize,
        row_count: usize,
    ) -> (r: Result<RowData, Error>)
        requires
            forall|i: int| 0 <= i < fields_idx.len() ==> (#[trigger] fields_idx[i]) < columns.len(),
            ts_idx < columns.len(),
            columns[ts_idx as int].values is Integer,
            row_count < values_len(columns[ts_idx as int].values),
        ensures
            match r {
                Ok(row) => {
                    &&& point_has_fields(
                        schema@.columns,
                        columns@,
                        fields_idx@,
                        row_count as int,
                        fields_idx.len() as int,
                    )
                    &&& row@.fields == point_fields(
                        schema@.columns,
                        columns@,
                        fields_idx@,
                        row_count as int,
                        fields_idx.len() as int,
                    )
                    &&& Some(row.ts) == spec_timestamp_convert(
                        from_precision,
                        crate::table_schema::time_precision(schema@.columns),
                        columns[ts_idx as int].values->Integer_0[row_count as int],
                    )
                },
                Err(e) => if e == Error::InvalidPoint {
                    !point_has_fields(
                        schema@.columns,
                        columns@,
                        fields_idx@,
                        row_count as int,
                        fields_idx.len() as int,
                    )
                } else {
                    &&& e == Error::TimestampOverflow
                    &&& point_has_fields(
                        schema@.columns,
                        columns@,
                        fields_idx@,
                        row_count as int,
                        fields_idx.len() as int,
                    )
                    &&& spec_timestamp_convert(
                        from_precision,
                        crate::table_schema::time_precision(schema@.columns),
                        columns[ts_idx as int].values->Integer_0[row_count as int],
                    ) is None
                },
            },
    {
        let ghost cols = schema@.columns;
        let n = schema.field_num();
        let mut has_fields = false;
        let mut fields: Vec<Option<FieldVal>> = Vec::with_capacity(n);
        while fields.len() < n
            invariant
                fields.len() <= n,
                forall|k: int| 0 <= k < fields.len() ==> (#[trigger] fields[k]) is None,
            decreases n - fields.len(),
        {
            fields.push(None);
        }
        let mut i: usize = 0;
        while i < fields_idx.len()
            invariant
                i <= fields_idx.len(),
                cols == schema@.columns,
                n == field_count(cols, cols.len() as int),
                fields.len() == n,
                forall|t: int|
                    0 <= t < fields_idx.len() ==> (#[trigger] fields_idx[t]) < columns.len(),
                fields_view(fields@) == point_fields(
                    cols,
                    columns@,
                    fields_idx@,
                    row_count as int,
                    i as int,
                ),
                has_fields == point_has_fields(
                    cols,
                    columns@,
                    fields_idx@,
                    row_count as int,
                    i as int,
                ),
            decreases fields_idx.len() - i,
        {
            let column = &columns[fields_idx[i]];
            let ghost had = has_fields;
            match column.value(row_count) {
                Some(val) => match field_of(schema, &column.name) {
                    Some(o) => {
                        fields[o] = Some(val);
                        has_fields = true;
                    },
                    None => {},
                },
                None => {},
            }
            proof {
                let hit = placed(cols, columns[fields_idx[i as int] as int], row_count as int);
                if hit is Some {
                } else if had {
                    let w = choose|w: int|
                        0 <= w < i && w < fields_idx.len() && (#[trigger] placed(
                            cols,
                            columns[fields_idx[w] as int],
                            row_count as int,
                        )) is Some;
                }
            }
            i += 1;
        }
        if !has_fields {
            return Err(Error::InvalidPoint);
        }
        let raw: i64 = match &columns[ts_idx].values {
            ColumnValues::Integer(v) => v[row_count],
            _ => 0,
        };
        let to_precision = schema.time_column_precision();
        match timestamp_convert(from_precision, to_precision, raw) {
            Some(ts) => Ok(RowData { ts, fields }),
            None => Err(Error::TimestampOverflow),
        }
    }
}

} // verus!
