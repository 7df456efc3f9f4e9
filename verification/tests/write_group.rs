use memcache::cache::MemCache;
use memcache::field_value::FieldVal;
use memcache::pool::MemoryPool;
use memcache::row::RowData;
use memcache::row_group::RowGroup;
use memcache::schema::{ColumnType, Encoding, TableColumn, TimeUnit, ValueType};
use memcache::table_schema::TskvTableSchema;
use memcache::time_range::TimeRange;
use std::sync::Arc;

#[test]
fn test_write_group() {
    let sid: u32 = 1;

    let mut memory_pool = MemoryPool::new(1024 * 1024 * 1024);
    let mut mem_cache = MemCache::new(1, 1000, 2, 1, &memory_pool);
    {
        let series_part = mem_cache.partition(sid as usize);
        let series_data = series_part.get(&sid);
        assert!(series_data.is_none());
    }

    let mut schema_1 = TskvTableSchema::new(
        "test_tenant".to_string(),
        "test_db".to_string(),
        "test_table".to_string(),
        vec![
            TableColumn::new_time_column(1, TimeUnit::Nanosecond),
            TableColumn::new_tag_column(2, "tag_col_1".to_string()),
            TableColumn::new_tag_column(3, "tag_col_2".to_string()),
            TableColumn::new(
                4,
                "f_col_1".to_string(),
                ColumnType::Field(ValueType::Float),
                Default::default(),
            ),
        ],
    );
    schema_1.schema_id = 1;
    let row_group_1 = RowGroup {
        schema: Arc::new(schema_1),
        range: TimeRange::new(1, 3),
        rows: vec![
            RowData { ts: 1, fields: vec![Some(FieldVal::Float(1.0f64.to_bits()))] },
            RowData { ts: 3, fields: vec![Some(FieldVal::Float(3.0f64.to_bits()))] },
        ],
        size: 10,
    };
    mem_cache.write_group(&mut memory_pool, sid, 1, row_group_1.clone()).unwrap();
    {
        let series_part = mem_cache.partition(sid as usize);
        let series_data = series_part.get(&sid);
        assert!(series_data.is_some());
        let series_data = series_data.unwrap();
        assert_eq!(sid, series_data.series_id);
        assert_eq!(TimeRange::new(1, 3), series_data.range);
        assert_eq!(1, series_data.groups.len());
        assert_eq!(row_group_1, series_data.groups.first().unwrap().clone());
    }

    let mut schema_2 = TskvTableSchema::new(
        "test_tenant".to_string(),
        "test_db".to_string(),
        "test_table".to_string(),
        vec![
            TableColumn::new_time_column(1, TimeUnit::Nanosecond),
            TableColumn::new_tag_column(2, "tag_col_1".to_string()),
            TableColumn::new_tag_column(3, "tag_col_2".to_string()),
            TableColumn::new(
                4,
                "f_col_1".to_string(),
                ColumnType::Field(ValueType::Float),
                Default::default(),
            ),
            TableColumn::new(
                5,
                "f_col_2".to_string(),
                ColumnType::Field(ValueType::Integer),
                Default::default(),
            ),
        ],
    );
    schema_2.schema_id = 2;
    let row_group_2 = RowGroup {
        schema: Arc::new(schema_2),
        range: TimeRange::new(3, 5),
        rows: vec![
            RowData { ts: 3, fields: vec![None, Some(FieldVal::Integer(3))] },
            RowData {
                ts: 5,
                fields: vec![Some(FieldVal::Float(5.0f64.to_bits())), Some(FieldVal::Integer(5))],
            },
        ],
        size: 10,
    };
    mem_cache.write_group(&mut memory_pool, sid, 2, row_group_2.clone()).unwrap();
    {
        let series_part = mem_cache.partition(sid as usize);
        let series_data = series_part.get(&sid);
        assert!(series_data.is_some());
        let series_data = series_data.unwrap();
        assert_eq!(sid, series_data.series_id);
        assert_eq!(TimeRange::new(1, 5), series_data.range);
        assert_eq!(2, series_data.groups.len());
        assert_eq!(row_group_2, series_data.groups.last().unwrap().clone());
    }
    assert_eq!(Encoding::Default, Encoding::default());
}
