use std::sync::Arc;

use diesel_turso::backend::{TursoQueryBuilder, TursoType};
use diesel_turso::bind::{TursoBindBuffer, TursoBindCollector};
use diesel_turso::deserialize::FromSql;
use diesel_turso::error::ReadError;
use diesel_turso::row::{RowIndex, TursoRow};
use diesel_turso::serialize::write_value;
use diesel_turso::sql_types::{
    BigInt, Binary, Bool, Double, Float, Integer, Nullable, SmallInt, Text,
};
use diesel_turso::text::{
    contains_text, eq_ignore_ascii_case, is_letter_or_number, is_whitespace, lower_case, push_decimal, push_signed_decimal,
};
use diesel_turso::types::RealBits;
use diesel_turso::value::{real_is_nan, TursoValue, Value};

fn read<ST, T: FromSql<ST>>(v: &Value) -> Result<T, ReadError> {
    T::from_sql(TursoValue::new(v))
}

#[test]
fn integers_fit_or_are_refused() {
    assert_eq!(
        write_value::<SmallInt, i16>(&-7).unwrap(),
        Value::Integer(-7)
    );
    assert_eq!(
        read::<SmallInt, i16>(&Value::Integer(-32768)).unwrap(),
        i16::MIN
    );
    assert!(matches!(
        read::<SmallInt, i16>(&Value::Integer(40_000)),
        Err(ReadError::OutOfRange { value: 40_000, target: "i16" })
    ));
    assert!(matches!(
        read::<Integer, i32>(&Value::Integer(3_000_000_000)),
        Err(ReadError::OutOfRange { value: 3_000_000_000, target: "i32" })
    ));
    assert_eq!(
        read::<BigInt, i64>(&Value::Integer(i64::MIN)).unwrap(),
        i64::MIN
    );
}

#[test]
fn another_storage_class_is_a_mismatch() {
    match read::<Integer, i32>(&Value::Text("1".into())) {
        Err(ReadError::Mismatch { expected, got }) => {
            assert_eq!(expected, "i32");
            assert_eq!(got, Value::Text("1".into()));
        }
        other => panic!("{other:?}"),
    }
    assert!(read::<Text, String>(&Value::Blob(vec![])).is_err());
    assert!(read::<Binary, Vec<u8>>(&Value::Text("a".into())).is_err());
    assert!(read::<Bool, bool>(&Value::Null).is_err());
}

#[test]
fn truth_is_one_and_anything_but_zero() {
    assert_eq!(write_value::<Bool, bool>(&true).unwrap(), Value::Integer(1));
    assert_eq!(write_value::<Bool, bool>(&false).unwrap(), Value::Integer(0));
    assert!(read::<Bool, bool>(&Value::Integer(2)).unwrap());
    assert!(!read::<Bool, bool>(&Value::Integer(0)).unwrap());
}

#[test]
fn texts_and_blobs_read_back() {
    let text = write_value::<Text, String>(&"héllo".to_string()).unwrap();
    assert_eq!(read::<Text, String>(&text).unwrap(), "héllo");
    let blob = write_value::<Binary, Vec<u8>>(&vec![0, 255]).unwrap();
    assert_eq!(blob, Value::Blob(vec![0, 255]));
    assert_eq!(read::<Binary, Vec<u8>>(&blob).unwrap(), vec![0, 255]);
    assert_eq!(
        write_value::<Binary, [u8]>(&[1, 2]).unwrap(),
        Value::Blob(vec![1, 2])
    );
}

#[test]
fn a_float_is_written_by_its_bits() {
    let bits: u64 = 1.25f64.to_bits();
    assert_eq!(
        write_value::<Double, RealBits>(&RealBits(bits)).unwrap(),
        Value::Real(bits)
    );
    assert!(real_is_nan(f64::NAN.to_bits()));
    assert!(!real_is_nan(f64::INFINITY.to_bits()));
    assert!(!real_is_nan(bits));
}

#[test]
fn none_is_null() {
    assert_eq!(
        write_value::<Nullable<BigInt>, Option<i64>>(&None).unwrap(),
        Value::Null
    );
    assert_eq!(
        <Option<i64> as FromSql<Nullable<BigInt>>>::from_nullable_sql(None).unwrap(),
        None
    );
    assert!(matches!(
        <i64 as FromSql<BigInt>>::from_nullable_sql(None),
        Err(ReadError::UnexpectedNull)
    ));
}

#[test]
fn binds_are_collected_in_order() {
    let mut binds = TursoBindCollector::default();
    binds.push_bound_value::<BigInt, i64>(&3).unwrap();
    binds.push_null_value(TursoType::Text).unwrap();
    binds
        .push_bound_value::<Nullable<Text>, Option<String>>(&None)
        .unwrap();
    assert_eq!(
        binds.into_values(),
        vec![Value::Integer(3), Value::Null, Value::Null]
    );
    assert_eq!(
        TursoBindBuffer::from(&[1u8, 2][..]).into_value(),
        Value::Blob(vec![1, 2])
    );
    assert_eq!(TursoBindBuffer::default().into_value(), Value::Null);
}

#[test]
fn a_query_is_built() {
    let mut b = TursoQueryBuilder::default();
    b.push_sql("SELECT ");
    b.push_identifier("a\"").unwrap();
    b.push_sql(" = ");
    b.push_bind_param();
    assert_eq!(b.finish(), "SELECT \"a\"\"\" = ?");
}

#[test]
fn a_row_finds_its_fields() {
    let names = Arc::new(vec!["a".to_string(), "b".to_string(), "a".to_string()]);
    let row = TursoRow::new(
        vec![Value::Integer(1), Value::Null, Value::Integer(3)],
        names,
    );
    assert_eq!(row.field_count(), 3);
    assert_eq!(row.idx("a"), Some(0));
    assert_eq!(row.idx("c"), None);
    assert_eq!(row.idx(3usize), None);
    let field = row.get(2usize).unwrap();
    assert_eq!(field.field_name(), Some("a"));
    assert_eq!(field.value().unwrap().as_turso(), &Value::Integer(3));
    assert!(row.get("b").unwrap().value().is_none());
    assert!(row.get("c").is_none());
}

#[test]
fn decimals() {
    let mut s = String::new();
    push_decimal(&mut s, u64::MAX);
    s.push(' ');
    push_signed_decimal(&mut s, i64::MIN);
    assert_eq!(s, "18446744073709551615 -9223372036854775808");
}

#[test]
fn small_text_helpers() {
    assert!(contains_text("abcabd", "abd"));
    assert!(contains_text("abc", ""));
    assert!(!contains_text("ab", "abc"));
    assert!(eq_ignore_ascii_case('A', 'a'));
    assert!(!eq_ignore_ascii_case('Ä', 'ä'));
    assert!(is_whitespace('\u{2003}'));
    assert!(!is_whitespace('x'));
    assert_eq!(lower_case("AbC_9 Ä"), "abc_9 ä");
    assert!(is_letter_or_number('Z') && is_letter_or_number('0') && is_letter_or_number('é'));
    assert!(!is_letter_or_number('_') && !is_letter_or_number('\n'));
}

#[test]
fn quoted_identifiers_are_told_apart() {
    let quoted = |s: &str| {
        let mut b = TursoQueryBuilder::default();
        b.push_identifier(s).unwrap();
        b.finish()
    };
    assert_ne!(quoted("a\"b"), quoted("a\"\"b"));
    assert_ne!(quoted(""), quoted("\""));
    assert_eq!(quoted("plain"), "\"plain\"");
}

#[test]
fn a_short_float_is_written_as_a_long_one() {
    let half = RealBits(f64::from(0.5f32).to_bits());
    assert_eq!(
        write_value::<Float, RealBits>(&half).unwrap(),
        Value::Real(0.5f64.to_bits())
    );
}
