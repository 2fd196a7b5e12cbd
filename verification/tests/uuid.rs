use diesel_turso::deserialize::FromSql;
use diesel_turso::error::ReadError;
use diesel_turso::serialize::write_value;
use diesel_turso::sql_types::Binary;
use diesel_turso::uuid::Uuid;
use diesel_turso::value::{TursoValue, Value};

#[test]
fn uuid_round_trip() {
    let id = Uuid::from_bytes([7; 16]);
    let stored = write_value::<Binary, Uuid>(&id).unwrap();
    assert_eq!(stored, Value::Blob(vec![7; 16]));
    let back = <Uuid as FromSql<Binary>>::from_sql(TursoValue::new(&stored)).unwrap();
    assert_eq!(back.as_bytes(), id.as_bytes());
}

#[test]
fn a_uuid_has_sixteen_bytes() {
    assert!(matches!(
        Uuid::from_slice(&[1, 2, 3]),
        Err(ReadError::UuidLength(3))
    ));
    let bytes: Vec<u8> = (0u8..16).collect();
    assert_eq!(Uuid::from_slice(&bytes).unwrap().as_bytes(), &bytes[..]);
    let read = <Uuid as FromSql<Binary>>::from_sql(TursoValue::new(&Value::Text("x".into())));
    assert!(matches!(read, Err(ReadError::Mismatch { expected: "Blob", .. })));
}
