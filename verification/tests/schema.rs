use memcache::align::{aligned_value, field_ids_by_ordinal, ordinal_sources, schema_sources};
use memcache::field_value::FieldVal;
use memcache::schema::{ColumnType, Encoding, Precision, TableColumn, TimeUnit, ValueType};
use memcache::table_schema::TskvTableSchema;
use memcache::time_range::TimeRange;

fn field_column(id: u32, name: &str) -> TableColumn {
    TableColumn::new(id, name.to_string(), ColumnType::Field(ValueType::Integer), Encoding::Default)
}

fn sample_schema() -> TskvTableSchema {
    TskvTableSchema::new(
        "tenant".to_string(),
        "db".to_string(),
        "table".to_string(),
        vec![
            TableColumn::new_tag_column(2, "host".to_string()),
            field_column(9, "c"),
            TableColumn::new_time_column(1, TimeUnit::Microsecond),
            field_column(4, "a"),
            field_column(6, "b"),
        ],
    )
}

#[test]
fn a_new_schema_starts_at_identifier_zero() {
    let s = sample_schema();
    assert_eq!(s.schema_id, 0);
    assert_eq!(s.next_column_id, 5);
    assert_eq!(s.tenant, "tenant");
    assert_eq!(s.db, "db");
    assert_eq!(s.name, "table");
    assert_eq!(s.columns().len(), 5);
    assert_eq!(s.clone(), s);
}

#[test]
fn field_ordinals_follow_the_column_ids() {
    let s = sample_schema();
    assert_eq!(s.field_num(), 3);
    assert_eq!(s.field_index(4), Some(0));
    assert_eq!(s.field_index(6), Some(1));
    assert_eq!(s.field_index(9), Some(2));
    assert_eq!(s.field_index(2), None);
    assert_eq!(s.field_index(1), None);
    assert_eq!(s.field_index(5), None);
    let names: Vec<String> = s.fields().iter().map(|c| c.name.clone()).collect();
    assert_eq!(names, vec!["c", "a", "b"]);
    assert_eq!(field_ids_by_ordinal(&s), vec![Some(4), Some(6), Some(9)]);
}

#[test]
fn of_fields_that_share_an_id_the_last_rank_counts() {
    let s = TskvTableSchema::new(
        "t".to_string(),
        "d".to_string(),
        "n".to_string(),
        vec![field_column(4, "a"), field_column(4, "b"), field_column(2, "c")],
    );
    assert_eq!(s.field_num(), 3);
    assert_eq!(s.field_index(2), Some(0));
    assert_eq!(s.field_index(4), Some(2));
    assert_eq!(field_ids_by_ordinal(&s), vec![Some(2), None, Some(4)]);
}

#[test]
fn columns_are_found_by_name_and_id() {
    let s = sample_schema();
    assert_eq!(s.column_index("a"), Some(3));
    assert_eq!(s.column("a").unwrap().id, 4);
    assert_eq!(s.column_index("time"), Some(2));
    assert_eq!(s.column_index("nope"), None);
    assert!(s.column("nope").is_none());
    assert!(s.contains_column("host"));
    assert!(!s.contains_column(""));
    assert_eq!(s.column_name(6).map(|n| n.as_str()), Some("b"));
    assert_eq!(s.column_name(1).map(|n| n.as_str()), Some("time"));
    assert_eq!(s.column_name(77), None);
}

#[test]
fn the_time_column_gives_the_precision() {
    let s = sample_schema();
    assert_eq!(s.time_column_precision(), Precision::US);
    assert_eq!(s.time_column(), TableColumn::new_time_column(1, TimeUnit::Microsecond));
    let none = TskvTableSchema::new("t".to_string(), "d".to_string(), "n".to_string(), vec![]);
    assert_eq!(none.time_column_precision(), Precision::NS);
    assert_eq!(none.time_column(), TableColumn::new_time_column(0, TimeUnit::Nanosecond));
    assert_eq!(none.field_num(), 0);
    let seconds = TskvTableSchema::new(
        "t".to_string(),
        "d".to_string(),
        "n".to_string(),
        vec![TableColumn::new_time_column(3, TimeUnit::Second)],
    );
    assert_eq!(seconds.time_column_precision(), Precision::NS);
    assert_eq!(Precision::MS.unit(), TimeUnit::Millisecond);
    assert_eq!(Precision::US.unit(), TimeUnit::Microsecond);
    assert_eq!(Precision::NS.unit(), TimeUnit::Nanosecond);
}

#[test]
fn column_types_tell_their_role() {
    let time = ColumnType::Time(TimeUnit::Millisecond);
    let field = ColumnType::Field(ValueType::Boolean);
    assert!(time.is_time() && !time.is_field() && !time.is_tag());
    assert!(field.is_field() && !field.is_time() && !field.is_tag());
    assert!(ColumnType::Tag.is_tag() && !ColumnType::Tag.is_field());
    assert_eq!(time.precision(), Some(Precision::MS));
    assert_eq!(ColumnType::Time(TimeUnit::Second).precision(), None);
    assert_eq!(field.precision(), None);
    assert_eq!(TableColumn::new_time_column(1, TimeUnit::Second).name, "time");
    assert_eq!(TableColumn::new_tag_column(1, "x".to_string()).column_type, ColumnType::Tag);
}

#[test]
fn add_column_appends_once() {
    let mut s = sample_schema();
    s.add_column(field_column(11, "d"));
    assert_eq!(s.columns().len(), 6);
    assert_eq!(s.next_column_id, 6);
    assert_eq!(s.field_index(11), Some(3));
    s.add_column(field_column(12, "d"));
    assert_eq!(s.columns().len(), 6);
    assert_eq!(s.next_column_id, 7);
    assert_eq!(s.field_index(12), None);
    assert_eq!(s.schema_id, 0);
}

#[test]
fn drop_column_removes_by_name() {
    let mut s = sample_schema();
    s.drop_column("a");
    assert_eq!(s.columns().len(), 4);
    assert_eq!(s.field_index(4), None);
    assert_eq!(s.field_index(6), Some(0));
    assert_eq!(s.field_index(9), Some(1));
    s.drop_column("a");
    assert_eq!(s.columns().len(), 4);
    assert_eq!(s.next_column_id, 5);
}

#[test]
fn change_column_replaces_in_place() {
    let mut s = sample_schema();
    s.change_column("a", TableColumn::new(4, "alpha".to_string(), ColumnType::Tag, Encoding::Gzip));
    assert_eq!(s.columns().len(), 5);
    assert_eq!(s.column_index("alpha"), Some(3));
    assert_eq!(s.column_index("a"), None);
    assert_eq!(s.field_num(), 2);
    assert_eq!(s.column("alpha").unwrap().encoding, Encoding::Gzip);
    s.change_column("missing", field_column(1, "x"));
    assert_eq!(s.column_index("x"), None);
}

#[test]
fn of_columns_that_share_a_name_the_last_is_found() {
    let mut s = TskvTableSchema::new(
        "t".to_string(),
        "d".to_string(),
        "n".to_string(),
        vec![field_column(1, "x"), field_column(2, "y"), field_column(3, "x")],
    );
    assert_eq!(s.column_index("x"), Some(2));
    assert_eq!(s.column("x").unwrap().id, 3);
    s.drop_column("x");
    assert_eq!(s.column("x").unwrap().id, 1);
    assert_eq!(s.columns().len(), 2);
}

#[test]
fn rows_align_by_the_ids_of_their_fields() {
    let old = TskvTableSchema::new(
        "t".to_string(),
        "d".to_string(),
        "n".to_string(),
        vec![field_column(3, "a"), field_column(5, "c")],
    );
    let new = TskvTableSchema::new(
        "t".to_string(),
        "d".to_string(),
        "n".to_string(),
        vec![field_column(4, "b"), field_column(5, "c"), field_column(3, "a")],
    );
    let sources = schema_sources(&old, &new);
    assert_eq!(sources, vec![Some(0), None, Some(1)]);
    assert_eq!(ordinal_sources(&old, &vec![Some(5), None, Some(8)]), vec![Some(1), None, None]);
    let fields = vec![Some(FieldVal::Integer(30))];
    assert_eq!(aligned_value(&fields, &sources, 0), Some(FieldVal::Integer(30)));
    assert_eq!(aligned_value(&fields, &sources, 1), None);
    // The row is too short for its second field.
    assert_eq!(aligned_value(&fields, &sources, 2), None);
}

#[test]
fn time_ranges_merge_and_intersect() {
    let mut r = TimeRange::none();
    assert!(!r.contains(0));
    r.merge(&TimeRange::new(3, 5));
    assert_eq!(r, TimeRange::new(3, 5));
    r.merge(&TimeRange::new(-1, 4));
    assert_eq!(r, TimeRange::new(-1, 5));
    r.merge(&TimeRange::new(0, 1));
    assert_eq!(r, TimeRange::new(-1, 5));
    assert!(r.contains(-1) && r.contains(5) && !r.contains(6) && !r.contains(-2));
    assert!(r.overlaps(&TimeRange::new(5, 9)));
    assert!(!r.overlaps(&TimeRange::new(6, 9)));
    assert_eq!(r.intersect(&TimeRange::new(5, 9)), Some(TimeRange::new(5, 5)));
    assert_eq!(r.intersect(&TimeRange::new(0, 2)), Some(TimeRange::new(0, 2)));
    assert_eq!(r.intersect(&TimeRange::new(-9, -2)), None);
    assert_eq!(TimeRange::all(), TimeRange::new(i64::MIN, i64::MAX));
    assert_eq!(TimeRange::all().intersect(&r), Some(r));
}
