use diesel_turso::deserialize::FromSql;
use diesel_turso::error::ReadError;
use diesel_turso::serialize::write_value;
use diesel_turso::sql_types::Text;
use diesel_turso::string_list::{decode, encode};
use diesel_turso::value::{TursoValue, Value};

fn roundtrip(items: Vec<String>) {
    let json = encode(&items).unwrap();
    assert_eq!(decode(&json).unwrap(), items);
}

#[test]
fn survives_the_characters_a_separator_would_have_forbidden() {
    roundtrip(vec![]);
    roundtrip(vec![String::new()]);
    roundtrip(vec!["INBOX".into(), "UNREAD".into()]);
    roundtrip(vec![
        "a,b".into(),
        "c\"d".into(),
        "e\\f".into(),
        "g\nh".into(),
    ]);
    roundtrip(vec!["🙂".into(), "Ünïcödé".into()]);
}

#[test]
fn a_malformed_field_is_an_error_not_an_empty_list() {
    assert!(decode("not json").is_err());
    assert!(decode("{\"a\":1}").is_err());
    assert!(decode("[1,2]").is_err());
}

#[test]
fn a_list_is_stored_as_a_json_array() {
    let items: Vec<String> = vec!["a".into(), "b\"c".into()];
    assert_eq!(encode(&items).unwrap(), r#"["a","b\"c"]"#);
    let stored = write_value::<Text, Vec<String>>(&items).unwrap();
    assert_eq!(stored, Value::Text(r#"["a","b\"c"]"#.into()));
    let back = <Vec<String> as FromSql<Text>>::from_sql(TursoValue::new(&stored)).unwrap();
    assert_eq!(back, items);
}

#[test]
fn a_list_is_read_from_text_alone() {
    let read = <Vec<String> as FromSql<Text>>::from_sql(TursoValue::new(&Value::Integer(1)));
    assert!(matches!(read, Err(ReadError::Mismatch { expected: "Text (JSON string array)", .. })));
    match decode("nope") {
        Err(ReadError::Json { text, .. }) => assert_eq!(text, "nope"),
        other => panic!("{other:?}"),
    }
}
