use memcache::block::{ColumnData, DataBlock};
use memcache::field_value::FieldVal;
use memcache::row::{duplicate_rows, RowData};
use memcache::row_group::RowGroup;
use memcache::schema::{ColumnType, Encoding, TableColumn, TimeUnit, ValueType};
use memcache::table_schema::{duplicate_columns, TskvTableSchema};
use memcache::time_range::TimeRange;
use std::sync::Arc;

#[test]
fn a_column_collects_one_value_per_row() {
    let mut c = ColumnData::empty(ColumnType::Field(ValueType::Unsigned));
    assert_eq!(c.len(), 0);
    assert!(c.is_all_set());
    c.push(Some(FieldVal::Unsigned(1)));
    c.push(Some(FieldVal::Unsigned(2)));
    assert_eq!(c.len(), 2);
    assert!(c.is_all_set());
    c.push(None);
    c.push(Some(FieldVal::Unsigned(4)));
    assert_eq!(c.len(), 4);
    assert!(!c.is_all_set());
    assert_eq!(c.column_type, ColumnType::Field(ValueType::Unsigned));
    assert_eq!(
        c.values,
        vec![Some(FieldVal::Unsigned(1)), Some(FieldVal::Unsigned(2)), None, Some(FieldVal::Unsigned(4))]
    );
}

#[test]
fn a_block_is_as_long_as_its_time_column() {
    let schema = Arc::new(TskvTableSchema::new(
        "t".to_string(),
        "d".to_string(),
        "n".to_string(),
        vec![TableColumn::new_time_column(1, TimeUnit::Second)],
    ));
    let mut ts = ColumnData::empty(ColumnType::Time(TimeUnit::Second));
    ts.push(Some(FieldVal::Integer(1)));
    ts.push(Some(FieldVal::Integer(2)));
    ts.push(Some(FieldVal::Integer(3)));
    let block = DataBlock::new(
        schema.clone(),
        ts,
        TableColumn::new_time_column(1, TimeUnit::Second),
        Vec::new(),
        Vec::new(),
    );
    assert_eq!(block.len(), 3);
    assert_eq!(block.schema, schema);
    assert_eq!(block.ts_desc.name, "time");
    assert!(block.cols.is_empty());
}

#[test]
fn copies_equal_what_they_were_made_from() {
    let column =
        TableColumn::new(7, "load".to_string(), ColumnType::Field(ValueType::Float), Encoding::Zstd);
    assert_eq!(column.duplicate(), column);
    assert_eq!(column.clone(), column);
    let columns = vec![column, TableColumn::new_tag_column(2, "host".to_string())];
    assert_eq!(duplicate_columns(&columns), columns);
    let rows = vec![
        RowData { ts: 4, fields: vec![Some(FieldVal::from_bytes(b"a")), None] },
        RowData { ts: -4, fields: vec![] },
    ];
    assert_eq!(duplicate_rows(&rows), rows);
    assert_eq!(rows[0].clone(), rows[0]);
    let group = RowGroup {
        schema: Arc::new(TskvTableSchema::new(
            "t".to_string(),
            "d".to_string(),
            "n".to_string(),
            columns,
        )),
        range: TimeRange::new(-4, 4),
        rows,
        size: 99,
    };
    let copy = group.duplicate();
    assert_eq!(copy, group);
    assert!(Arc::ptr_eq(&copy.schema, &group.schema));
}
