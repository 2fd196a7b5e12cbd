use diesel_turso::error::{QueryError, WriteError};
use diesel_turso::mysql::cancel_token::MysqlCancelToken;
use diesel_turso::mysql::row::{
    can_convert, convert_type, to_buffer, ColumnType, MysqlBuffer, MysqlCell, MysqlColumn, MysqlRow, MysqlTime,
    MysqlTimestampType, MysqlType, BINARY_FLAG, ENUM_FLAG, SET_FLAG, UNSIGNED_FLAG,
};
use diesel_turso::mysql::serialize::{is_written_as, to_params, to_value, ByteOrder, MysqlBind, ToSqlHelper};
use diesel_turso::pg::{accepts, PgCell, PgRow};

#[test]
fn the_flags_tell_a_columns_type() {
    assert_eq!(convert_type(ColumnType::Tiny, 0), MysqlType::Tiny);
    assert_eq!(
        convert_type(ColumnType::Tiny, UNSIGNED_FLAG),
        MysqlType::UnsignedTiny
    );
    assert_eq!(convert_type(ColumnType::Year, 0), MysqlType::Short);
    assert_eq!(
        convert_type(ColumnType::Int24, UNSIGNED_FLAG),
        MysqlType::UnsignedLong
    );
    assert_eq!(convert_type(ColumnType::LongLong, 0), MysqlType::LongLong);
    assert_eq!(convert_type(ColumnType::Blob, 0), MysqlType::String);
    assert_eq!(convert_type(ColumnType::Blob, BINARY_FLAG), MysqlType::Blob);
    assert_eq!(
        convert_type(ColumnType::String, ENUM_FLAG | SET_FLAG),
        MysqlType::EnumType
    );
    assert_eq!(
        convert_type(ColumnType::VarString, SET_FLAG | BINARY_FLAG),
        MysqlType::SetType
    );
    assert_eq!(convert_type(ColumnType::Json, BINARY_FLAG), MysqlType::String);
    assert_eq!(convert_type(ColumnType::NewDecimal, 0), MysqlType::Numeric);
}

fn bytes(cell: &MysqlCell) -> Vec<u8> {
    match to_buffer(cell) {
        Some(MysqlBuffer::Bytes(b)) => b,
        other => panic!("{other:?}"),
    }
}

#[test]
fn numbers_come_least_significant_byte_first() {
    assert_eq!(bytes(&MysqlCell::Int(-2)), vec![0xfe, 255, 255, 255, 255, 255, 255, 255]);
    assert_eq!(bytes(&MysqlCell::UInt(0x0102)), vec![2, 1, 0, 0, 0, 0, 0, 0]);
    assert_eq!(bytes(&MysqlCell::Float(1.5f32.to_bits())), 1.5f32.to_le_bytes().to_vec());
    assert_eq!(bytes(&MysqlCell::Double(1.5f64.to_bits())), 1.5f64.to_le_bytes().to_vec());
    assert_eq!(bytes(&MysqlCell::Bytes(vec![9])), vec![9]);
    assert_eq!(to_buffer(&MysqlCell::Null), None);
}

fn a_time() -> MysqlTime {
    MysqlTime {
        year: 2024,
        month: 2,
        day: 9,
        hour: 3,
        minute: 4,
        second: 5,
        second_part: 6,
        neg: false,
        time_type: MysqlTimestampType::DateTime,
        time_zone_displacement: 0,
    }
}

#[test]
fn dates_come_in_the_client_librarys_layout() {
    assert_eq!(
        to_buffer(&MysqlCell::Date(2024, 2, 9, 3, 4, 5, 6)),
        Some(MysqlBuffer::Time(a_time()))
    );
    let span = MysqlTime {
        year: 0,
        month: 0,
        neg: true,
        time_type: MysqlTimestampType::Time,
        ..a_time()
    };
    assert_eq!(
        to_buffer(&MysqlCell::Time(true, 9, 3, 4, 5, 6)),
        Some(MysqlBuffer::Time(span))
    );
}

#[test]
fn a_mysql_row_finds_its_fields() {
    let row = MysqlRow {
        names: vec!["id".into(), "gone".into(), "none".into()],
        columns: vec![
            MysqlColumn { column_type: ColumnType::LongLong, flags: UNSIGNED_FLAG },
            MysqlColumn { column_type: ColumnType::Blob, flags: 0 },
            MysqlColumn { column_type: ColumnType::Blob, flags: 0 },
        ],
        cells: vec![Some(MysqlCell::UInt(1)), None, Some(MysqlCell::Null)],
    };
    assert_eq!(row.field_count(), 3);
    let id = row.get("id").unwrap();
    assert_eq!(id.field_name(), Some("id"));
    let (buffer, ty) = id.value().unwrap();
    assert_eq!(buffer, &MysqlBuffer::Bytes(vec![1, 0, 0, 0, 0, 0, 0, 0]));
    assert_eq!(ty, MysqlType::UnsignedLongLong);
    assert!(row.get("gone").is_none());
    assert!(row.get(2usize).unwrap().value().is_none());
    assert!(row.get(3usize).is_none());
    assert!(row.get("other").is_none());
}

fn value(ty: MysqlType, bytes: &[u8]) -> MysqlCell {
    to_value(ty, Some(MysqlBind::Bytes(bytes.to_vec())), ByteOrder::LittleEndian).unwrap()
}

#[test]
fn binds_become_cells() {
    assert_eq!(value(MysqlType::Tiny, &[0xff]), MysqlCell::Int(-1));
    assert_eq!(value(MysqlType::UnsignedTiny, &[0xff]), MysqlCell::UInt(255));
    assert_eq!(value(MysqlType::Short, &(-2i16).to_le_bytes()), MysqlCell::Int(-2));
    assert_eq!(
        value(MysqlType::UnsignedLong, &7u32.to_le_bytes()),
        MysqlCell::UInt(7)
    );
    assert_eq!(
        to_value(
            MysqlType::LongLong,
            Some(MysqlBind::Bytes(i64::MIN.to_be_bytes().to_vec())),
            ByteOrder::BigEndian
        )
        .unwrap(),
        MysqlCell::Int(i64::MIN)
    );
    assert_eq!(
        value(MysqlType::Double, &2.5f64.to_le_bytes()),
        MysqlCell::Double(2.5f64.to_bits())
    );
    assert_eq!(
        value(MysqlType::Float, &2.5f32.to_le_bytes()),
        MysqlCell::Float(2.5f32.to_bits())
    );
    assert_eq!(value(MysqlType::String, b"hi"), MysqlCell::Bytes(b"hi".to_vec()));
    assert_eq!(
        to_value(MysqlType::Blob, None, ByteOrder::LittleEndian).unwrap(),
        MysqlCell::Null
    );
}

#[test]
fn times_become_cells_where_they_fit() {
    let date = to_value(
        MysqlType::DateTime,
        Some(MysqlBind::Time(a_time())),
        ByteOrder::LittleEndian,
    );
    assert_eq!(date.unwrap(), MysqlCell::Date(2024, 2, 9, 3, 4, 5, 6));
    let span = to_value(
        MysqlType::Time,
        Some(MysqlBind::Time(a_time())),
        ByteOrder::LittleEndian,
    );
    assert_eq!(span.unwrap(), MysqlCell::Time(false, 9, 3, 4, 5, 6));
    let late = MysqlTime { hour: 256, ..a_time() };
    assert!(matches!(
        to_value(MysqlType::Time, Some(MysqlBind::Time(late)), ByteOrder::LittleEndian),
        Err(QueryError::SerializationError(WriteError::OutOfRange))
    ));
}

#[test]
fn parameters_keep_their_order() {
    let helper = ToSqlHelper {
        metadata: vec![MysqlType::Tiny, MysqlType::String],
        binds: vec![
            Some(MysqlBind::Bytes(vec![3])),
            None,
            Some(MysqlBind::Bytes(vec![4])),
        ],
    };
    assert_eq!(
        to_params(helper, ByteOrder::LittleEndian).unwrap(),
        vec![MysqlCell::Int(3), MysqlCell::Null]
    );
}

#[test]
fn a_query_is_cancelled_by_its_connection() {
    let token = MysqlCancelToken { kill_id: 42 };
    assert_eq!(token.cancel_query_sql(), "KILL QUERY 42;");
}

#[test]
fn a_pg_row_finds_its_fields() {
    assert!(accepts(23));
    assert!(!accepts(0));
    let row = PgRow {
        names: vec!["id".into(), "name".into()],
        cells: vec![
            PgCell { raw: Some(vec![0, 0, 0, 1]), type_oid: 23 },
            PgCell { raw: None, type_oid: 25 },
        ],
    };
    assert_eq!(row.field_count(), 2);
    let id = row.get("id").unwrap();
    assert_eq!(id.field_name(), Some("id"));
    assert_eq!(id.value(), Some((&[0u8, 0, 0, 1][..], 23)));
    assert!(row.get(1usize).unwrap().value().is_none());
    assert!(row.get("other").is_none());
}

#[test]
fn numbers_and_times_go_out_and_come_back() {
    for n in [0i64, -1, i64::MIN, i64::MAX] {
        let sent = value(MysqlType::LongLong, &n.to_le_bytes());
        assert_eq!(sent, MysqlCell::Int(n));
        assert_eq!(bytes(&sent), n.to_le_bytes().to_vec());
    }
    let sent = to_value(
        MysqlType::Timestamp,
        Some(MysqlBind::Time(a_time())),
        ByteOrder::LittleEndian,
    )
    .unwrap();
    assert_eq!(to_buffer(&sent), Some(MysqlBuffer::Time(a_time())));
}

#[test]
fn what_has_no_form_or_type_is_told() {
    assert!(is_written_as(MysqlType::Short, &Some(MysqlBind::Bytes(vec![1, 2]))));
    assert!(!is_written_as(MysqlType::Short, &Some(MysqlBind::Bytes(vec![1]))));
    assert!(!is_written_as(MysqlType::Bit, &Some(MysqlBind::Bytes(vec![1]))));
    assert!(!is_written_as(MysqlType::Time, &Some(MysqlBind::Bytes(vec![1]))));
    assert!(is_written_as(MysqlType::Time, &Some(MysqlBind::Time(a_time()))));
    assert!(!is_written_as(MysqlType::String, &Some(MysqlBind::Time(a_time()))));
    assert!(is_written_as(MysqlType::Bit, &None));
    let late = MysqlTime { second_part: 1 << 32, ..a_time() };
    assert!(!is_written_as(MysqlType::Time, &Some(MysqlBind::Time(late))));
    let early = || MysqlTime { hour: 256, second_part: 1 << 32, ..a_time() };
    assert!(is_written_as(MysqlType::Time, &Some(MysqlBind::Time(early()))));
    assert!(matches!(
        to_value(MysqlType::Time, Some(MysqlBind::Time(early())), ByteOrder::LittleEndian),
        Err(QueryError::SerializationError(WriteError::OutOfRange))
    ));
    assert!(can_convert(ColumnType::Json));
    assert!(!can_convert(ColumnType::Geometry));
    assert!(!can_convert(ColumnType::EnumType));
}
