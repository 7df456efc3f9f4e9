use memcache::field_value::{duplicate_fields, duplicate_opt, DataType, FieldVal};
use memcache::row::RowData;

#[test]
fn a_string_field_holds_the_bytes_given() {
    let v = FieldVal::from_bytes(b"hello");
    match &v {
        FieldVal::Bytes(b) => assert_eq!(b.as_slice(), b"hello"),
        _ => panic!("expected a string field"),
    }
    assert!(v.same(&FieldVal::from_bytes(b"hello")));
    assert!(!v.same(&FieldVal::from_bytes(b"hellp")));
    assert!(!v.same(&FieldVal::from_bytes(b"hell")));
    assert!(!v.same(&FieldVal::from_bytes(b"")));
}

#[test]
fn a_copy_stands_for_the_same_value() {
    let v = FieldVal::from_bytes(b"abc");
    let c = v.duplicate();
    assert_eq!(v, c);
    match c {
        FieldVal::Bytes(b) => assert_eq!(b.as_slice(), b"abc"),
        _ => panic!("expected a string field"),
    }
    assert_eq!(FieldVal::Integer(-7).clone(), FieldVal::Integer(-7));
    assert_eq!(duplicate_opt(&None), None);
    let fields = vec![Some(FieldVal::Boolean(true)), None, Some(FieldVal::from_bytes(b"x"))];
    assert_eq!(duplicate_fields(&fields), fields);
}

#[test]
fn values_of_different_kinds_differ() {
    assert!(!FieldVal::Integer(1).same(&FieldVal::Unsigned(1)));
    assert!(!FieldVal::Float(1).same(&FieldVal::Unsigned(1)));
    assert!(FieldVal::Float(2.5f64.to_bits()).same(&FieldVal::Float(2.5f64.to_bits())));
    assert!(FieldVal::Boolean(false) != FieldVal::Boolean(true));
}

#[test]
fn only_strings_take_heap() {
    assert_eq!(FieldVal::Integer(1).heap_size(), 0);
    assert_eq!(FieldVal::Float(0).heap_size(), 0);
    assert_eq!(FieldVal::Unsigned(3).heap_size(), 0);
    assert_eq!(FieldVal::Boolean(true).heap_size(), 0);
    assert!(FieldVal::from_bytes(b"twelve bytes").heap_size() >= 12);
}

#[test]
fn a_value_is_stamped_with_the_time() {
    assert_eq!(FieldVal::Integer(4).data_value(9), DataType::I64(9, 4));
    assert_eq!(FieldVal::Unsigned(4).data_value(-1), DataType::U64(-1, 4));
    assert_eq!(FieldVal::Boolean(true).data_value(0), DataType::Bool(0, true));
    assert_eq!(
        FieldVal::Float(1.5f64.to_bits()).data_value(2),
        DataType::F64(2, 1.5f64.to_bits())
    );
    match FieldVal::from_bytes(b"ab").data_value(3) {
        DataType::Str(ts, b) => {
            assert_eq!(ts, 3);
            assert_eq!(b.as_slice(), b"ab");
        }
        _ => panic!("expected a stamped string"),
    }
    assert!(DataType::Null(1).same(&DataType::Null(1)));
    assert!(!DataType::Null(1).same(&DataType::Null(2)));
    assert_eq!(DataType::I64(1, 2).duplicate(), DataType::I64(1, 2));
}

#[test]
fn the_size_of_a_row_counts_slots_and_strings() {
    let slot = std::mem::size_of::<Option<FieldVal>>();
    let base = std::mem::size_of::<i64>() + std::mem::size_of::<Vec<Option<FieldVal>>>();
    let plain = RowData { ts: 1, fields: vec![None, Some(FieldVal::Integer(2))] };
    assert_eq!(plain.size(), base + 2 * slot);
    let empty = RowData { ts: 1, fields: vec![] };
    assert_eq!(empty.size(), base);
    let text = RowData { ts: 1, fields: vec![Some(FieldVal::from_bytes(b"0123456789"))] };
    assert!(text.size() >= base + slot + 10);
}
