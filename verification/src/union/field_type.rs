//! The fields of a composite: the SQL type that a Rust type takes there, and
//! how one field is written and read.

use vstd::prelude::*;

use crate::backend::{HasSqlType, Turso, TursoType};
use crate::date_and_time::{NaiveDate, NaiveDateTime, NaiveTime, UtcDateTime};
use crate::deserialize;
use crate::deserialize::FromSql;
use crate::error::{ReadError, ReadErrorView, WriteError};
use crate::serialize;
use crate::serialize::{write_value, ToSql};
use crate::sql_types;
use crate::types::RealBits;
use crate::uuid::Uuid;
use crate::value::{TursoValue, Value, ValueView};

verus! {

/// A type that can be a field, with the SQL type that it is stored as unless
/// the field says otherwise.
///
/// A list of strings has none: that it is stored as JSON is a matter of the
/// fields that do so.
pub trait TursoFieldType {
    type SqlType;
}

impl TursoFieldType for i16 {
    type SqlType = sql_types::SmallInt;
}

impl TursoFieldType for i32 {
    type SqlType = sql_types::Integer;
}

impl TursoFieldType for i64 {
    type SqlType = sql_types::BigInt;
}

impl TursoFieldType for bool {
    type SqlType = sql_types::Bool;
}

impl TursoFieldType for RealBits {
    type SqlType = sql_types::Double;
}

impl TursoFieldType for String {
    type SqlType = sql_types::Text;
}

impl TursoFieldType for Vec<u8> {
    type SqlType = sql_types::Binary;
}

impl TursoFieldType for Uuid {
    type SqlType = sql_types::Uuid;
}

impl TursoFieldType for NaiveDate {
    type SqlType = sql_types::Date;
}

impl TursoFieldType for NaiveTime {
    type SqlType = sql_types::Time;
}

impl TursoFieldType for NaiveDateTime {
    type SqlType = sql_types::Timestamp;
}

impl TursoFieldType for UtcDateTime {
    type SqlType = sql_types::Timestamptz;
}

/// An optional field is the nullable form of its inner field.
impl<T: TursoFieldType> TursoFieldType for Option<T> {
    type SqlType = sql_types::Nullable<T::SqlType>;
}

/// The keyword that declares a storage class. A class that is unknown is
/// declared as one that takes every value.
pub open spec fn class_keyword(class: TursoType) -> Seq<char> {
    match class {
        TursoType::Integer => "INT"@,
        TursoType::Real => "REAL"@,
        TursoType::Text => "TEXT"@,
        TursoType::Binary => "BLOB"@,
        TursoType::Null => "ANY"@,
    }
}

/// The keyword that declares a field of the SQL type `ST`.
pub fn ddl_type_name<ST>() -> (keyword: &'static str) where Turso: HasSqlType<ST>
    ensures
        keyword@ == class_keyword(<Turso as HasSqlType<ST>>::class_of()),
{
    match <Turso as HasSqlType<ST>>::metadata() {
        TursoType::Integer => "INT",
        TursoType::Real => "REAL",
        TursoType::Text => "TEXT",
        TursoType::Binary => "BLOB",
        TursoType::Null => "ANY",
    }
}

/// The value that a field puts into its composite's record.
pub fn encode_field<ST, T: ToSql<ST> + ?Sized>(value: &T) -> (r: Result<Value, WriteError>)
    ensures
        serialize::write_outcome(r) == value.written(),
{
    write_value::<ST, T>(value)
}

/// What a field reads from its value in the record: NULL goes to the type as
/// NULL, not as a value of the wrong storage class.
pub open spec fn field_read<ST, T: FromSql<ST>>(v: ValueView) -> Result<T::V, ReadErrorView> {
    match v {
        ValueView::Null => T::read_null(),
        _ => T::read(v),
    }
}

/// Reads a field from its value in the composite's record.
pub fn decode_field<ST, T: FromSql<ST>>(value: &Value) -> (r: Result<T, ReadError>)
    ensures
        deserialize::read_outcome(r) == field_read::<ST, T>(value@),
{
    match value {
        Value::Null => T::from_nullable_sql(None),
        other => T::from_nullable_sql(Some(TursoValue::new(other))),
    }
}

/// An optional field reads back as it was written, wherever its inner type
/// does and writes no NULL of its own. No value stands for none but NULL.
pub proof fn optional_fields_read_back<ST, T: ToSql<ST> + FromSql<ST>>(field: Option<T>)
    requires
        field matches Some(inner) ==> (inner.written() matches Ok(v) && v != ValueView::Null
            && T::read(v) == Ok::<T::V, ReadErrorView>(inner.deep_view())),
    ensures
        field.written() matches Ok(v) && field_read::<sql_types::Nullable<ST>, Option<T>>(v) == Ok::<
            Option<T::V>,
            ReadErrorView,
        >(field.deep_view()),
{
}

} // verus!
