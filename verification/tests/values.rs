use memcache::cache::MemCache;
use memcache::field_value::FieldVal;
use memcache::pool::MemoryPool;
use memcache::row::RowData;
use memcache::row_group::RowGroup;
use memcache::schema::{ColumnType, Encoding, TableColumn, TimeUnit, ValueType};
use memcache::series::SeriesData;
use memcache::series_values::{field_values, get_one_series_cache_data};
use memcache::table_schema::TskvTableSchema;
use memcache::time_range::TimeRange;
use std::sync::Arc;

fn named_group(schema_id: u32, names: &[&str], rows: Vec<RowData>) -> RowGroup {
    let mut columns = vec![TableColumn::new_time_column(1, TimeUnit::Nanosecond)];
    for (i, name) in names.iter().enumerate() {
        columns.push(TableColumn::new(
            10 + i as u32,
            name.to_string(),
            ColumnType::Field(ValueType::Integer),
            Encoding::Default,
        ));
    }
    let mut schema =
        TskvTableSchema::new("t".to_string(), "db".to_string(), "cpu".to_string(), columns);
    schema.schema_id = schema_id;
    RowGroup { schema: Arc::new(schema), range: TimeRange::new(0, 9), rows, size: 1 }
}

fn named_row(ts: i64, values: &[Option<i64>]) -> RowData {
    RowData { ts, fields: values.iter().map(|v| v.map(FieldVal::Integer)).collect() }
}

#[test]
fn values_come_with_time_and_field_name() {
    let mut s = SeriesData::new(1);
    s.write(named_group(
        1,
        &["a", "b"],
        vec![named_row(2, &[Some(20), None]), named_row(1, &[Some(10), Some(11)])],
    ));
    s.write(named_group(2, &["b", "time", "c"], vec![named_row(3, &[Some(30), Some(31), Some(32), Some(33)])]));
    let values = field_values(&s);
    assert_eq!(
        values,
        vec![
            ("a".to_string(), 2, FieldVal::Integer(20)),
            ("a".to_string(), 1, FieldVal::Integer(10)),
            ("b".to_string(), 1, FieldVal::Integer(11)),
            ("b".to_string(), 3, FieldVal::Integer(30)),
            ("c".to_string(), 3, FieldVal::Integer(32)),
        ]
    );
}

#[test]
fn the_values_of_a_cache_are_those_of_its_series() {
    let mut pool = MemoryPool::new(100);
    let mut cache = MemCache::new(1, 10, 2, 0, &pool);
    assert!(get_one_series_cache_data(&cache).is_empty());
    cache.write_group(&mut pool, 5, 1, named_group(1, &["a"], vec![named_row(1, &[Some(10)])])).unwrap();
    cache.write_group(&mut pool, 5, 2, named_group(1, &["a"], vec![named_row(0, &[Some(0)])])).unwrap();
    assert_eq!(
        get_one_series_cache_data(&cache),
        vec![("a".to_string(), 1, FieldVal::Integer(10)), ("a".to_string(), 0, FieldVal::Integer(0))]
    );
    cache.write_group(&mut pool, 6, 3, named_group(1, &["z"], vec![named_row(7, &[Some(70)])])).unwrap();
    let mut all = get_one_series_cache_data(&cache);
    all.sort_by_key(|v| v.1);
    assert_eq!(all.len(), 3);
    assert_eq!(all[2], ("z".to_string(), 7, FieldVal::Integer(70)));
}
