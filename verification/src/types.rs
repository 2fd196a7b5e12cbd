//! How the scalar types are written and read.

use vstd::prelude::*;

use crate::bind::TursoBindBuffer;
use crate::deserialize::FromSql;
use crate::error::{mismatch, ReadError, ReadErrorView, WriteError, WriteErrorView};
use crate::serialize::{IsNull, ToSql};
use crate::sql_types::{BigInt, Binary, Bool, Double, Float, Integer, SmallInt, Text};
use crate::value::{TursoValue, Value, ValueView};

verus! {

/// What an integer type reads from a value: an integer that fits.
pub open spec fn read_integer(
    v: ValueView,
    low: int,
    high: int,
    target: Seq<char>,
) -> Result<i64, ReadErrorView> {
    match v {
        ValueView::Integer(n) => if low <= n <= high {
            Ok(n)
        } else {
            Err(ReadErrorView::OutOfRange { value: n, target })
        },
        _ => Err(ReadErrorView::Mismatch { expected: target, got: v }),
    }
}

impl ToSql<SmallInt> for i16 {
    open spec fn written(&self) -> Result<ValueView, WriteErrorView> {
        Ok(ValueView::Integer(*self as i64))
    }

    fn to_sql(&self, out: &mut TursoBindBuffer) -> (r: Result<IsNull, WriteError>) {
        out.set_value(TursoBindBuffer::from(*self));
        Ok(IsNull::No)
    }
}

impl FromSql<SmallInt> for i16 {
    open spec fn read(v: ValueView) -> Result<i16, ReadErrorView> {
        match read_integer(v, i16::MIN as int, i16::MAX as int, "i16"@) {
            Ok(n) => Ok(n as i16),
            Err(e) => Err(e),
        }
    }

    open spec fn read_null() -> Result<i16, ReadErrorView> {
        Err(ReadErrorView::UnexpectedNull)
    }

    fn from_sql(v: TursoValue<'_>) -> (r: Result<Self, ReadError>) {
        match v.as_turso() {
            Value::Integer(n) => {
                if i16::MIN as i64 <= *n && *n <= i16::MAX as i64 {
                    Ok(*n as i16)
                } else {
                    Err(ReadError::OutOfRange { value: *n, target: "i16" })
                }
            },
            other => Err(mismatch("i16", other)),
        }
    }

    fn from_nullable_sql(v: Option<TursoValue<'_>>) -> (r: Result<Self, ReadError>) {
        match v {
            Some(inner) => <i16 as FromSql<SmallInt>>::from_sql(inner),
            None => Err(ReadError::UnexpectedNull),
        }
    }
}

impl ToSql<Integer> for i32 {
    open spec fn written(&self) -> Result<ValueView, WriteErrorView> {
        Ok(ValueView::Integer(*self as i64))
    }

    fn to_sql(&self, out: &mut TursoBindBuffer) -> (r: Result<IsNull, WriteError>) {
        out.set_value(TursoBindBuffer::from(*self));
        Ok(IsNull::No)
    }
}

impl FromSql<Integer> for i32 {
    open spec fn read(v: ValueView) -> Result<i32, ReadErrorView> {
        match read_integer(v, i32::MIN as int, i32::MAX as int, "i32"@) {
            Ok(n) => Ok(n as i32),
            Err(e) => Err(e),
        }
    }

    open spec fn read_null() -> Result<i32, ReadErrorView> {
        Err(ReadErrorView::UnexpectedNull)
    }

    fn from_sql(v: TursoValue<'_>) -> (r: Result<Self, ReadError>) {
        match v.as_turso() {
            Value::Integer(n) => {
                if i32::MIN as i64 <= *n && *n <= i32::MAX as i64 {
                    Ok(*n as i32)
                } else {
                    Err(ReadError::OutOfRange { value: *n, target: "i32" })
                }
            },
            other => Err(mismatch("i32", other)),
        }
    }

    fn from_nullable_sql(v: Option<TursoValue<'_>>) -> (r: Result<Self, ReadError>) {
        match v {
            Some(inner) => <i32 as FromSql<Integer>>::from_sql(inner),
            None => Err(ReadError::UnexpectedNull),
        }
    }
}

impl ToSql<BigInt> for i64 {
    open spec fn written(&self) -> Result<ValueView, WriteErrorView> {
        Ok(ValueView::Integer(*self))
    }

    fn to_sql(&self, out: &mut TursoBindBuffer) -> (r: Result<IsNull, WriteError>) {
        out.set_value(TursoBindBuffer::from(*self));
        Ok(IsNull::No)
    }
}

impl FromSql<BigInt> for i64 {
    open spec fn read(v: ValueView) -> Result<i64, ReadErrorView> {
        match v {
            ValueView::Integer(n) => Ok(n),
            _ => Err(ReadErrorView::Mismatch { expected: "Integer"@, got: v }),
        }
    }

    open spec fn read_null() -> Result<i64, ReadErrorView> {
        Err(ReadErrorView::UnexpectedNull)
    }

    fn from_sql(v: TursoValue<'_>) -> (r: Result<Self, ReadError>) {
        match v.as_turso() {
            Value::Integer(n) => Ok(*n),
            other => Err(mismatch("Integer", other)),
        }
    }

    fn from_nullable_sql(v: Option<TursoValue<'_>>) -> (r: Result<Self, ReadError>) {
        match v {
            Some(inner) => <i64 as FromSql<BigInt>>::from_sql(inner),
            None => Err(ReadError::UnexpectedNull),
        }
    }
}

impl ToSql<Bool> for bool {
    open spec fn written(&self) -> Result<ValueView, WriteErrorView> {
        Ok(ValueView::Integer(
            if *self {
                1
            } else {
                0
            },
        ))
    }

    fn to_sql(&self, out: &mut TursoBindBuffer) -> (r: Result<IsNull, WriteError>) {
        out.set_value(TursoBindBuffer::from(*self));
        Ok(IsNull::No)
    }
}

impl FromSql<Bool> for bool {
    open spec fn read(v: ValueView) -> Result<bool, ReadErrorView> {
        match v {
            ValueView::Integer(n) => Ok(n != 0),
            _ => Err(ReadErrorView::Mismatch { expected: "Integer(0|1)"@, got: v }),
        }
    }

    open spec fn read_null() -> Result<bool, ReadErrorView> {
        Err(ReadErrorView::UnexpectedNull)
    }

    fn from_sql(v: TursoValue<'_>) -> (r: Result<Self, ReadError>) {
        match v.as_turso() {
            Value::Integer(n) => Ok(*n != 0),
            other => Err(mismatch("Integer(0|1)", other)),
        }
    }

    fn from_nullable_sql(v: Option<TursoValue<'_>>) -> (r: Result<Self, ReadError>) {
        match v {
            Some(inner) => <bool as FromSql<Bool>>::from_sql(inner),
            None => Err(ReadError::UnexpectedNull),
        }
    }
}

impl ToSql<Text> for str {
    open spec fn written(&self) -> Result<ValueView, WriteErrorView> {
        Ok(ValueView::Text(self@))
    }

    fn to_sql(&self, out: &mut TursoBindBuffer) -> (r: Result<IsNull, WriteError>) {
        out.set_value(TursoBindBuffer::from(self));
        Ok(IsNull::No)
    }
}

impl ToSql<Text> for String {
    open spec fn written(&self) -> Result<ValueView, WriteErrorView> {
        Ok(ValueView::Text(self@))
    }

    fn to_sql(&self, out: &mut TursoBindBuffer) -> (r: Result<IsNull, WriteError>) {
        out.set_value(TursoBindBuffer::from(self.as_str()));
        Ok(IsNull::No)
    }
}

impl FromSql<Text> for String {
    open spec fn read(v: ValueView) -> Result<Seq<char>, ReadErrorView> {
        match v {
            ValueView::Text(s) => Ok(s),
            _ => Err(ReadErrorView::Mismatch { expected: "Text"@, got: v }),
        }
    }

    open spec fn read_null() -> Result<Seq<char>, ReadErrorView> {
        Err(ReadErrorView::UnexpectedNull)
    }

    fn from_sql(v: TursoValue<'_>) -> (r: Result<Self, ReadError>) {
        match v.as_turso() {
            Value::Text(s) => Ok(s.clone()),
            other => Err(mismatch("Text", other)),
        }
    }

    fn from_nullable_sql(v: Option<TursoValue<'_>>) -> (r: Result<Self, ReadError>) {
        match v {
            Some(inner) => <String as FromSql<Text>>::from_sql(inner),
            None => Err(ReadError::UnexpectedNull),
        }
    }
}

impl ToSql<Binary> for [u8] {
    open spec fn written(&self) -> Result<ValueView, WriteErrorView> {
        Ok(ValueView::Blob(self@))
    }

    fn to_sql(&self, out: &mut TursoBindBuffer) -> (r: Result<IsNull, WriteError>) {
        out.set_value(TursoBindBuffer::from(self));
        Ok(IsNull::No)
    }
}

impl ToSql<Binary> for Vec<u8> {
    open spec fn written(&self) -> Result<ValueView, WriteErrorView> {
        Ok(ValueView::Blob(self@))
    }

    fn to_sql(&self, out: &mut TursoBindBuffer) -> (r: Result<IsNull, WriteError>) {
        out.set_value(TursoBindBuffer::from(self.as_slice()));
        Ok(IsNull::No)
    }
}

impl FromSql<Binary> for Vec<u8> {
    open spec fn read(v: ValueView) -> Result<Seq<u8>, ReadErrorView> {
        match v {
            ValueView::Blob(b) => Ok(b),
            _ => Err(ReadErrorView::Mismatch { expected: "Blob"@, got: v }),
        }
    }

    open spec fn read_null() -> Result<Seq<u8>, ReadErrorView> {
        Err(ReadErrorView::UnexpectedNull)
    }

    fn from_sql(v: TursoValue<'_>) -> (r: Result<Self, ReadError>) {
        match v.as_turso() {
            Value::Blob(b) => {
                let copy: Vec<u8> = b.clone();
                assert(copy.deep_view() =~= b@);
                Ok(copy)
            },
            other => Err(mismatch("Blob", other)),
        }
    }

    fn from_nullable_sql(v: Option<TursoValue<'_>>) -> (r: Result<Self, ReadError>) {
        match v {
            Some(inner) => <Vec<u8> as FromSql<Binary>>::from_sql(inner),
            None => Err(ReadError::UnexpectedNull),
        }
    }
}

/// A 64-bit float, held as its IEEE-754 bit pattern.
#[derive(Debug, Clone, Copy, PartialEq, Eq, Structural)]
pub struct RealBits(pub u64);

impl ToSql<Double> for RealBits {
    open spec fn written(&self) -> Result<ValueView, WriteErrorView> {
        Ok(ValueView::Real(self.0))
    }

    fn to_sql(&self, out: &mut TursoBindBuffer) -> (r: Result<IsNull, WriteError>) {
        out.set_value(TursoBindBuffer::from(*self));
        Ok(IsNull::No)
    }
}

/// A 32-bit float is stored as the 64-bit one of the same value.
impl ToSql<Float> for RealBits {
    open spec fn written(&self) -> Result<ValueView, WriteErrorView> {
        Ok(ValueView::Real(self.0))
    }

    fn to_sql(&self, out: &mut TursoBindBuffer) -> (r: Result<IsNull, WriteError>) {
        out.set_value(TursoBindBuffer::from(*self));
        Ok(IsNull::No)
    }
}

// ---------------------------------------------------------------------------
// What is written is read back
// ---------------------------------------------------------------------------

/// A small integer, an integer and a large integer are read back as they were
/// written.
pub proof fn integers_read_back(a: i16, b: i32, c: i64)
    ensures
        <i16 as FromSql<SmallInt>>::read(<i16 as ToSql<SmallInt>>::written(&a)->Ok_0) == Ok::<
            i16,
            ReadErrorView,
        >(a),
        <i32 as FromSql<Integer>>::read(<i32 as ToSql<Integer>>::written(&b)->Ok_0) == Ok::<
            i32,
            ReadErrorView,
        >(b),
        <i64 as FromSql<BigInt>>::read(<i64 as ToSql<BigInt>>::written(&c)->Ok_0) == Ok::<
            i64,
            ReadErrorView,
        >(c),
{
}

/// A truth value is read back as it was written.
pub proof fn truth_values_read_back(b: bool)
    ensures
        <bool as FromSql<Bool>>::read(<bool as ToSql<Bool>>::written(&b)->Ok_0) == Ok::<
            bool,
            ReadErrorView,
        >(b),
{
}

/// A text and a byte string are read back as they were written.
pub proof fn texts_and_blobs_read_back(s: String, b: Vec<u8>)
    ensures
        <String as FromSql<Text>>::read(<String as ToSql<Text>>::written(&s)->Ok_0) == Ok::<
            Seq<char>,
            ReadErrorView,
        >(s@),
        <Vec<u8> as FromSql<Binary>>::read(<Vec<u8> as ToSql<Binary>>::written(&b)->Ok_0) == Ok::<
            Seq<u8>,
            ReadErrorView,
        >(b@),
{
}

} // verus!
