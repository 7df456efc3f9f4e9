use memcache::error::Error;
use memcache::field_value::FieldVal;
use memcache::point::{timestamp_convert, ColumnValues, PointColumn};
use memcache::row::RowData;
use memcache::schema::{ColumnType, Encoding, Precision, TableColumn, TimeUnit, ValueType};
use memcache::table_schema::TskvTableSchema;

fn point_schema(unit: TimeUnit) -> TskvTableSchema {
    TskvTableSchema::new(
        "t".to_string(),
        "db".to_string(),
        "weather".to_string(),
        vec![
            TableColumn::new_time_column(0, unit),
            TableColumn::new_tag_column(1, "station".to_string()),
            TableColumn::new(7, "temp".to_string(), ColumnType::Field(ValueType::Float), Encoding::Default),
            TableColumn::new(3, "count".to_string(), ColumnType::Field(ValueType::Integer), Encoding::Default),
            TableColumn::new(5, "note".to_string(), ColumnType::Field(ValueType::String), Encoding::Default),
            TableColumn::new(4, "ok".to_string(), ColumnType::Field(ValueType::Boolean), Encoding::Default),
            TableColumn::new(9, "total".to_string(), ColumnType::Field(ValueType::Unsigned), Encoding::Default),
        ],
    )
}

fn point_columns() -> Vec<PointColumn> {
    vec![
        PointColumn {
            name: "time".to_string(),
            nullbits: vec![0b0000_0111],
            values: ColumnValues::Integer(vec![1_000, 2_000, i64::MAX]),
        },
        PointColumn {
            name: "temp".to_string(),
            nullbits: vec![0b0000_0101],
            values: ColumnValues::Float(vec![1.5f64.to_bits(), 0, 3.5f64.to_bits()]),
        },
        PointColumn {
            name: "count".to_string(),
            nullbits: vec![0b0000_0011],
            values: ColumnValues::Integer(vec![-1, -2, -3]),
        },
        PointColumn {
            name: "note".to_string(),
            nullbits: vec![0b0000_0001],
            values: ColumnValues::String(vec![b"dry".to_vec(), Vec::new(), Vec::new()]),
        },
        PointColumn {
            name: "ok".to_string(),
            nullbits: vec![0b0000_0001],
            values: ColumnValues::Boolean(vec![true, false, false]),
        },
        PointColumn {
            name: "total".to_string(),
            nullbits: vec![0b0000_0001],
            values: ColumnValues::Unsigned(vec![u64::MAX, 0, 0]),
        },
        PointColumn {
            name: "unheard_of".to_string(),
            nullbits: vec![0b0000_0111],
            values: ColumnValues::Integer(vec![1, 2, 3]),
        },
        PointColumn {
            name: "station".to_string(),
            nullbits: vec![0b0000_0111],
            values: ColumnValues::Integer(vec![1, 2, 3]),
        },
        PointColumn { name: "temp".to_string(), nullbits: vec![0xff], values: ColumnValues::Unknown },
    ]
}

#[test]
fn a_point_becomes_a_row_laid_out_by_field_ordinal() {
    let schema = point_schema(TimeUnit::Nanosecond);
    let columns = point_columns();
    let row = RowData::point_to_row_data(
        &schema,
        Precision::NS,
        &columns,
        &vec![1, 2, 3, 4, 5],
        0,
        0,
    )
    .unwrap();
    // Field ordinals follow the column ids: count(3), ok(4), note(5), temp(7), total(9).
    assert_eq!(
        row,
        RowData {
            ts: 1_000,
            fields: vec![
                Some(FieldVal::Integer(-1)),
                Some(FieldVal::Boolean(true)),
                Some(FieldVal::from_bytes(b"dry")),
                Some(FieldVal::Float(1.5f64.to_bits())),
                Some(FieldVal::Unsigned(u64::MAX)),
            ],
        }
    );
}

#[test]
fn a_value_whose_bit_is_clear_is_absent() {
    let schema = point_schema(TimeUnit::Nanosecond);
    let columns = point_columns();
    let row =
        RowData::point_to_row_data(&schema, Precision::NS, &columns, &vec![1, 2, 3, 4, 5], 0, 1)
            .unwrap();
    assert_eq!(
        row,
        RowData { ts: 2_000, fields: vec![Some(FieldVal::Integer(-2)), None, None, None, None] }
    );
}

#[test]
fn columns_that_the_schema_does_not_know_as_fields_are_passed_over() {
    let schema = point_schema(TimeUnit::Nanosecond);
    let columns = point_columns();
    let row =
        RowData::point_to_row_data(&schema, Precision::NS, &columns, &vec![6, 2, 7, 8], 0, 0)
            .unwrap();
    assert_eq!(
        row.fields,
        vec![Some(FieldVal::Integer(-1)), None, None, None, None]
    );
    let none = RowData::point_to_row_data(&schema, Precision::NS, &columns, &vec![6, 7, 8], 0, 0);
    assert_eq!(none, Err(Error::InvalidPoint));
}

#[test]
fn a_point_without_any_value_is_refused() {
    let schema = point_schema(TimeUnit::Nanosecond);
    let columns = point_columns();
    // The point 1 has no value in `note`, `ok` and `total`.
    let r = RowData::point_to_row_data(&schema, Precision::NS, &columns, &vec![3, 4, 5], 0, 1);
    assert_eq!(r, Err(Error::InvalidPoint));
    let r = RowData::point_to_row_data(&schema, Precision::NS, &columns, &vec![], 0, 0);
    assert_eq!(r, Err(Error::InvalidPoint));
    // No value is checked before the timestamp is.
    let r = RowData::point_to_row_data(&schema, Precision::MS, &columns, &vec![3], 0, 2);
    assert_eq!(r, Err(Error::InvalidPoint));
}

#[test]
fn a_timestamp_that_does_not_fit_is_refused() {
    let schema = point_schema(TimeUnit::Nanosecond);
    let columns = point_columns();
    let r = RowData::point_to_row_data(&schema, Precision::MS, &columns, &vec![1], 0, 2);
    assert_eq!(r, Err(Error::TimestampOverflow));
    let ok = RowData::point_to_row_data(&schema, Precision::NS, &columns, &vec![1], 0, 2).unwrap();
    assert_eq!(ok.ts, i64::MAX);
}

#[test]
fn the_timestamp_is_converted_to_the_precision_of_the_table() {
    let columns = point_columns();
    let to_ms = point_schema(TimeUnit::Millisecond);
    let row = RowData::point_to_row_data(&to_ms, Precision::US, &columns, &vec![2], 0, 1).unwrap();
    assert_eq!(row.ts, 2);
    let to_us = point_schema(TimeUnit::Microsecond);
    let row = RowData::point_to_row_data(&to_us, Precision::MS, &columns, &vec![2], 0, 1).unwrap();
    assert_eq!(row.ts, 2_000_000);
    // A time column in seconds counts as nanoseconds.
    let to_s = point_schema(TimeUnit::Second);
    let row = RowData::point_to_row_data(&to_s, Precision::MS, &columns, &vec![2], 0, 0).unwrap();
    assert_eq!(row.ts, 1_000_000_000);
}

#[test]
fn a_later_column_of_the_same_field_wins() {
    let schema = point_schema(TimeUnit::Nanosecond);
    let mut columns = point_columns();
    columns.push(PointColumn {
        name: "count".to_string(),
        nullbits: vec![0b0000_0001],
        values: ColumnValues::Integer(vec![42]),
    });
    let row =
        RowData::point_to_row_data(&schema, Precision::NS, &columns, &vec![2, 9], 0, 0).unwrap();
    assert_eq!(row.fields[0], Some(FieldVal::Integer(42)));
    let row =
        RowData::point_to_row_data(&schema, Precision::NS, &columns, &vec![9, 2], 0, 0).unwrap();
    assert_eq!(row.fields[0], Some(FieldVal::Integer(-1)));
}

#[test]
fn bits_beyond_the_bytes_or_the_values_are_clear() {
    let schema = point_schema(TimeUnit::Nanosecond);
    let mut columns = point_columns();
    // Nine values, one byte of bits: the ninth point has no bit.
    columns[2] = PointColumn {
        name: "count".to_string(),
        nullbits: vec![0xff],
        values: ColumnValues::Integer(vec![1, 2, 3, 4, 5, 6, 7, 8, 9]),
    };
    columns[0] = PointColumn {
        name: "time".to_string(),
        nullbits: vec![0xff, 0xff],
        values: ColumnValues::Integer(vec![0; 16]),
    };
    let r = RowData::point_to_row_data(&schema, Precision::NS, &columns, &vec![2], 0, 7).unwrap();
    assert_eq!(r.fields[0], Some(FieldVal::Integer(8)));
    let r = RowData::point_to_row_data(&schema, Precision::NS, &columns, &vec![2], 0, 8);
    assert_eq!(r, Err(Error::InvalidPoint));
    // Bits are set, values are missing.
    columns[2] = PointColumn {
        name: "count".to_string(),
        nullbits: vec![0xff, 0xff],
        values: ColumnValues::Integer(vec![1, 2]),
    };
    let r = RowData::point_to_row_data(&schema, Precision::NS, &columns, &vec![2], 0, 2);
    assert_eq!(r, Err(Error::InvalidPoint));
    assert_eq!(columns[2].value(1), Some(FieldVal::Integer(2)));
    assert_eq!(columns[2].value(2), None);
    assert_eq!(columns[2].values.len(), 2);
    assert_eq!(columns[2].values.get(0), Some(FieldVal::Integer(1)));
    assert_eq!(ColumnValues::Unknown.len(), 0);
    assert_eq!(ColumnValues::Unknown.get(0), None);
}

#[test]
fn timestamps_convert_between_precisions() {
    assert_eq!(timestamp_convert(Precision::NS, Precision::US, 1_999), Some(1));
    assert_eq!(timestamp_convert(Precision::US, Precision::MS, 12_345), Some(12));
    assert_eq!(timestamp_convert(Precision::NS, Precision::MS, 7_999_999), Some(7));
    assert_eq!(timestamp_convert(Precision::MS, Precision::US, 3), Some(3_000));
    assert_eq!(timestamp_convert(Precision::US, Precision::NS, -3), Some(-3_000));
    assert_eq!(timestamp_convert(Precision::MS, Precision::NS, 5), Some(5_000_000));
    assert_eq!(timestamp_convert(Precision::MS, Precision::MS, i64::MIN), Some(i64::MIN));
    assert_eq!(timestamp_convert(Precision::NS, Precision::NS, 9), Some(9));
    assert_eq!(timestamp_convert(Precision::US, Precision::US, -9), Some(-9));
}

#[test]
fn a_coarser_precision_rounds_towards_zero() {
    assert_eq!(timestamp_convert(Precision::NS, Precision::US, -1), Some(0));
    assert_eq!(timestamp_convert(Precision::NS, Precision::US, -999), Some(0));
    assert_eq!(timestamp_convert(Precision::NS, Precision::US, -1_000), Some(-1));
    assert_eq!(timestamp_convert(Precision::NS, Precision::US, -1_001), Some(-1));
    assert_eq!(timestamp_convert(Precision::NS, Precision::MS, -1_999_999), Some(-1));
    assert_eq!(
        timestamp_convert(Precision::NS, Precision::US, i64::MIN),
        Some(-9_223_372_036_854_775)
    );
    assert_eq!(
        timestamp_convert(Precision::NS, Precision::MS, i64::MIN),
        Some(-9_223_372_036_854)
    );
    assert_eq!(
        timestamp_convert(Precision::US, Precision::MS, i64::MAX),
        Some(9_223_372_036_854_775)
    );
}

#[test]
fn a_finer_precision_may_overflow() {
    assert_eq!(timestamp_convert(Precision::MS, Precision::US, i64::MAX), None);
    assert_eq!(timestamp_convert(Precision::MS, Precision::NS, i64::MIN), None);
    assert_eq!(timestamp_convert(Precision::US, Precision::NS, 9_223_372_036_854_776), None);
    assert_eq!(
        timestamp_convert(Precision::US, Precision::NS, 9_223_372_036_854_775),
        Some(9_223_372_036_854_775_000)
    );
    assert_eq!(
        timestamp_convert(Precision::MS, Precision::NS, -9_223_372_036_854),
        Some(-9_223_372_036_854_000_000)
    );
    assert_eq!(timestamp_convert(Precision::MS, Precision::NS, -9_223_372_036_855), None);
}
