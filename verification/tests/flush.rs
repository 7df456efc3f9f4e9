use memcache::block::{ColumnData, DataBlock};
use memcache::cache::MemCache;
use memcache::chunk::TableChunk;
use memcache::error::Error;
use memcache::field_value::FieldVal;
use memcache::flush::Version;
use memcache::pool::MemoryPool;
use memcache::row::RowData;
use memcache::row_group::RowGroup;
use memcache::schema::{ColumnType, Encoding, TableColumn, TimeUnit, ValueType};
use memcache::series::SeriesData;
use memcache::table_schema::TskvTableSchema;
use memcache::time_range::TimeRange;
use std::sync::Arc;

fn flush_schema(table: &str, schema_id: u32, field_ids: &[u32]) -> Arc<TskvTableSchema> {
    let mut columns = vec![
        TableColumn::new_time_column(1, TimeUnit::Millisecond),
        TableColumn::new_tag_column(2, "host".to_string()),
    ];
    for id in field_ids {
        columns.push(TableColumn::new(
            *id,
            format!("f{}", id),
            ColumnType::Field(ValueType::Integer),
            Encoding::Default,
        ));
    }
    let mut schema =
        TskvTableSchema::new("t".to_string(), "db".to_string(), table.to_string(), columns);
    schema.schema_id = schema_id;
    Arc::new(schema)
}

fn flush_row(ts: i64, values: &[Option<i64>]) -> RowData {
    RowData { ts, fields: values.iter().map(|v| v.map(FieldVal::Integer)).collect() }
}

fn flush_group(table: &str, schema_id: u32, field_ids: &[u32], rows: Vec<RowData>) -> RowGroup {
    let min = rows.iter().map(|r| r.ts).min().unwrap_or(i64::MAX);
    let max = rows.iter().map(|r| r.ts).max().unwrap_or(i64::MIN);
    RowGroup {
        schema: flush_schema(table, schema_id, field_ids),
        range: TimeRange::new(min, max),
        rows,
        size: 16,
    }
}

fn times_of(column: &ColumnData) -> Vec<i64> {
    column
        .values
        .iter()
        .map(|v| match v {
            Some(FieldVal::Integer(t)) => *t,
            _ => panic!("a time column holds integers only"),
        })
        .collect()
}

fn integers_of(column: &ColumnData) -> Vec<Option<i64>> {
    column
        .values
        .iter()
        .map(|v| match v {
            Some(FieldVal::Integer(t)) => Some(*t),
            None => None,
            _ => panic!("expected integers"),
        })
        .collect()
}

fn version(max_level_ts: i64) -> Arc<Version> {
    Arc::new(Version { max_level_ts })
}

#[test]
fn a_series_without_groups_flushes_to_nothing() {
    let s = SeriesData::new(1);
    assert_eq!(s.build_data_block(version(0)), Ok(None));
}

#[test]
fn flush_splits_at_the_level_boundary() {
    let mut s = SeriesData::new(1);
    s.write(flush_group(
        "cpu",
        1,
        &[3],
        vec![
            flush_row(5, &[Some(50)]),
            flush_row(1, &[Some(10)]),
            flush_row(6, &[Some(60)]),
            flush_row(2, &[Some(20)]),
        ],
    ));
    let (table, full, delta) = s.build_data_block(version(4)).unwrap().unwrap();
    assert_eq!(table, "cpu");
    assert_eq!(times_of(&full.ts), vec![1, 2, 5, 6]);
    assert_eq!(times_of(&delta.ts), vec![1, 2]);
    assert_eq!(full.len(), 4);
    assert_eq!(delta.len(), 2);
    assert_eq!(integers_of(&full.cols[0]), vec![Some(10), Some(20), Some(50), Some(60)]);
    assert_eq!(integers_of(&delta.cols[0]), vec![Some(10), Some(20)]);
    assert_eq!(full.ts.column_type, ColumnType::Time(TimeUnit::Millisecond));
    assert_eq!(delta.ts.column_type, ColumnType::Time(TimeUnit::Millisecond));
    assert_eq!(full.ts_desc, TableColumn::new_time_column(1, TimeUnit::Millisecond));
    assert_eq!(full.cols[0].column_type, ColumnType::Field(ValueType::Integer));
    assert_eq!(full.cols_desc.len(), 1);
    assert_eq!(full.cols_desc[0].id, 3);
    assert_eq!(delta.cols_desc, full.cols_desc);
    assert_eq!(full.schema.schema_id, 1);
    assert!(full.ts.is_all_set());
}

#[test]
fn the_boundary_itself_is_not_delta() {
    let mut s = SeriesData::new(1);
    s.write(flush_group("cpu", 1, &[3], vec![flush_row(4, &[Some(1)]), flush_row(3, &[Some(2)])]));
    let (_, full, delta) = s.build_data_block(version(4)).unwrap().unwrap();
    assert_eq!(times_of(&full.ts), vec![3, 4]);
    assert_eq!(times_of(&delta.ts), vec![3]);
    let (_, _, none) = s.build_data_block(version(i64::MIN)).unwrap().unwrap();
    assert_eq!(none.len(), 0);
    assert_eq!(none.cols.len(), 1);
    assert_eq!(none.cols[0].len(), 0);
}

#[test]
fn flush_merges_rows_of_equal_time() {
    let mut s = SeriesData::new(1);
    s.write(flush_group(
        "cpu",
        1,
        &[3, 4],
        vec![
            flush_row(5, &[None, Some(3)]),
            flush_row(5, &[Some(5), Some(5)]),
            flush_row(5, &[None, None]),
        ],
    ));
    let (_, full, _) = s.build_data_block(version(0)).unwrap().unwrap();
    assert_eq!(times_of(&full.ts), vec![5]);
    assert_eq!(integers_of(&full.cols[0]), vec![Some(5)]);
    assert_eq!(integers_of(&full.cols[1]), vec![Some(5)]);
}

#[test]
fn fields_align_by_column_id_across_schema_versions() {
    let mut s = SeriesData::new(1);
    // Under the first schema the field 5 has ordinal 1; under the latest, 2.
    s.write(flush_group("cpu", 1, &[3, 5], vec![flush_row(1, &[Some(13), Some(15)])]));
    s.write(flush_group(
        "cpu",
        2,
        &[3, 4, 5],
        vec![flush_row(2, &[Some(23), Some(24), Some(25)])],
    ));
    let (_, full, _) = s.build_data_block(version(0)).unwrap().unwrap();
    assert_eq!(times_of(&full.ts), vec![1, 2]);
    assert_eq!(integers_of(&full.cols[0]), vec![Some(13), Some(23)]);
    assert_eq!(integers_of(&full.cols[1]), vec![None, Some(24)]);
    assert_eq!(integers_of(&full.cols[2]), vec![Some(15), Some(25)]);
    let ids: Vec<u32> = full.cols_desc.iter().map(|c| c.id).collect();
    assert_eq!(ids, vec![3, 4, 5]);
}

#[test]
fn a_column_that_the_latest_schema_lacks_is_left_out() {
    let mut s = SeriesData::new(1);
    s.write(flush_group("cpu", 1, &[3, 4], vec![flush_row(1, &[Some(13), Some(14)])]));
    s.write(flush_group("cpu", 2, &[4], vec![flush_row(2, &[Some(24)])]));
    let (_, full, _) = s.build_data_block(version(0)).unwrap().unwrap();
    assert_eq!(full.cols.len(), 1);
    assert_eq!(integers_of(&full.cols[0]), vec![Some(14), Some(24)]);
}

#[test]
fn groups_are_emitted_one_after_the_other() {
    let mut s = SeriesData::new(1);
    s.write(flush_group("cpu", 1, &[3], vec![flush_row(9, &[Some(1)]), flush_row(7, &[Some(2)])]));
    s.write(flush_group("cpu", 2, &[3], vec![flush_row(8, &[Some(3)]), flush_row(1, &[Some(4)])]));
    let (_, full, delta) = s.build_data_block(version(8)).unwrap().unwrap();
    assert_eq!(times_of(&full.ts), vec![7, 9, 1, 8]);
    assert_eq!(times_of(&delta.ts), vec![7, 1]);
    assert_eq!(integers_of(&delta.cols[0]), vec![Some(2), Some(4)]);
}

#[test]
fn a_field_that_no_row_populated_fails_the_flush() {
    let mut s = SeriesData::new(1);
    s.write(flush_group("cpu", 1, &[3], vec![flush_row(1, &[Some(1)])]));
    s.delete_series(&TimeRange::new(1, 1));
    assert_eq!(s.build_data_block(version(0)), Err(Error::InvalidSchemaProjection));
    let mut other = SeriesData::new(2);
    other.write(flush_group("cpu", 1, &[3], vec![flush_row(1, &[Some(1)])]));
    other.write(flush_group("cpu", 2, &[3, 4], vec![]));
    assert_eq!(other.build_data_block(version(0)), Err(Error::InvalidSchemaProjection));
}

#[test]
fn a_schema_without_fields_flushes_times_only() {
    let mut s = SeriesData::new(1);
    s.write(flush_group("cpu", 1, &[], vec![flush_row(2, &[]), flush_row(1, &[])]));
    let (_, full, delta) = s.build_data_block(version(2)).unwrap().unwrap();
    assert_eq!(times_of(&full.ts), vec![1, 2]);
    assert_eq!(times_of(&delta.ts), vec![1]);
    assert!(full.cols.is_empty());
    assert!(full.cols_desc.is_empty());
}

#[test]
fn end_to_end_write_and_flush() {
    let mut pool = MemoryPool::new(1 << 20);
    let mut cache = MemCache::new(3, 1 << 16, 4, 10, &pool);
    let first: Vec<RowData> =
        (1..50).map(|t| flush_row(t, &[Some(t), Some(2 * t), Some(3 * t)])).collect();
    let second: Vec<RowData> =
        (50..=100).map(|t| flush_row(t, &[Some(t), Some(2 * t), Some(3 * t), Some(4 * t)])).collect();
    cache.write_group(&mut pool, 7, 11, flush_group("cpu", 1, &[3, 4, 5], first)).unwrap();
    cache.write_group(&mut pool, 7, 12, flush_group("cpu", 2, &[3, 4, 5, 6], second)).unwrap();
    assert_eq!(cache.seq_no(), 12);
    assert_eq!(cache.cache_size(), 32);

    let (full, delta) = cache.to_chunk_group(version(31)).unwrap();
    assert_eq!(full.len(), 1);
    assert_eq!(full[0].table, "cpu");
    assert_eq!(full[0].blocks.len(), 1);
    assert_eq!(full[0].blocks[0].series_id, 7);
    let block: &DataBlock = &full[0].blocks[0].block;
    assert_eq!(block.len(), 100);
    assert_eq!(times_of(&block.ts), (1..=100).collect::<Vec<i64>>());
    assert_eq!(block.cols.len(), 4);
    let added = integers_of(&block.cols[3]);
    for t in 1..=100i64 {
        let expected = if t < 50 { None } else { Some(4 * t) };
        assert_eq!(added[(t - 1) as usize], expected);
    }
    assert_eq!(integers_of(&block.cols[1]), (1..=100).map(|t| Some(2 * t)).collect::<Vec<_>>());

    assert_eq!(delta.len(), 1);
    let part: &DataBlock = &delta[0].blocks[0].block;
    assert_eq!(delta[0].blocks[0].series_id, 7);
    assert_eq!(times_of(&part.ts), (1..=30).collect::<Vec<i64>>());
    assert_eq!(integers_of(&part.cols[3]), vec![None; 30]);
    assert_eq!(integers_of(&part.cols[0]), (1..=30).map(Some).collect::<Vec<_>>());
}

fn chunk_of<'a>(data: &'a [TableChunk], table: &str) -> &'a TableChunk {
    data.iter().find(|c| c.table == table).unwrap()
}

#[test]
fn blocks_are_grouped_by_table() {
    let mut pool = MemoryPool::new(1 << 20);
    let mut cache = MemCache::new(3, 1 << 16, 3, 0, &pool);
    cache.write_group(&mut pool, 1, 1, flush_group("cpu", 1, &[3], vec![flush_row(1, &[Some(1)])])).unwrap();
    cache.write_group(&mut pool, 2, 2, flush_group("mem", 1, &[3], vec![flush_row(9, &[Some(2)])])).unwrap();
    cache.write_group(&mut pool, 4, 3, flush_group("cpu", 1, &[3], vec![flush_row(2, &[Some(3)])])).unwrap();
    let (full, delta) = cache.to_chunk_group(version(5)).unwrap();
    assert_eq!(full.len(), 2);
    let mut cpu: Vec<u32> = chunk_of(&full, "cpu").blocks.iter().map(|b| b.series_id).collect();
    cpu.sort();
    assert_eq!(cpu, vec![1, 4]);
    let mem: Vec<u32> = chunk_of(&full, "mem").blocks.iter().map(|b| b.series_id).collect();
    assert_eq!(mem, vec![2]);
    // The series of `mem` has no row before the boundary: no delta block for it.
    assert_eq!(delta.len(), 1);
    assert_eq!(delta[0].table, "cpu");
    let mut early: Vec<u32> = delta[0].blocks.iter().map(|b| b.series_id).collect();
    early.sort();
    assert_eq!(early, vec![1, 4]);
}

#[test]
fn an_empty_cache_flushes_to_nothing() {
    let pool = MemoryPool::new(16);
    let cache = MemCache::new(3, 8, 1, 0, &pool);
    let (full, delta) = cache.to_chunk_group(version(5)).unwrap();
    assert!(full.is_empty());
    assert!(delta.is_empty());
}

#[test]
fn the_flush_of_a_cache_fails_where_that_of_a_series_does() {
    let mut pool = MemoryPool::new(1 << 20);
    let mut cache = MemCache::new(3, 1 << 16, 2, 0, &pool);
    cache.write_group(&mut pool, 1, 1, flush_group("cpu", 1, &[3], vec![flush_row(1, &[Some(1)])])).unwrap();
    cache.write_group(&mut pool, 2, 2, flush_group("cpu", 1, &[3], vec![])).unwrap();
    assert_eq!(cache.to_chunk_group(version(5)), Err(Error::InvalidSchemaProjection));
}
