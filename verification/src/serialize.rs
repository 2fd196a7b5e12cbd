//! Writing a Rust value as a bind.

use vstd::prelude::*;

use crate::bind::TursoBindBuffer;
use crate::error::{WriteError, WriteErrorView};
use crate::sql_types::Nullable;
use crate::value::{Value, ValueView};

verus! {

/// Whether a value was NULL.
#[derive(Debug, Clone, Copy, PartialEq, Eq, Structural)]
pub enum IsNull {
    Yes,
    No,
}

/// A value that can be written as the SQL type `ST`.
pub trait ToSql<ST> {
    /// What is written of the value, or why nothing is.
    spec fn written(&self) -> Result<ValueView, WriteErrorView>;

    /// Writes the value into `out`, unless it is NULL.
    fn to_sql(&self, out: &mut TursoBindBuffer) -> (r: Result<IsNull, WriteError>)
        ensures
            match r {
                Ok(IsNull::No) => self.written() == Ok::<_, WriteErrorView>(final(out)@),
                Ok(IsNull::Yes) => self.written() == Ok::<_, WriteErrorView>(ValueView::Null),
                Err(e) => self.written() == Err::<ValueView, _>(e@),
            },
    ;
}

/// What a writing came to.
pub open spec fn write_outcome(r: Result<Value, WriteError>) -> Result<ValueView, WriteErrorView> {
    match r {
        Ok(v) => Ok(v@),
        Err(e) => Err(e@),
    }
}

/// Writes a value on its own: NULL where it was NULL, and else what it put
/// into a buffer.
pub fn write_value<ST, T: ToSql<ST> + ?Sized>(value: &T) -> (r: Result<Value, WriteError>)
    ensures
        write_outcome(r) == value.written(),
{
    let mut out: TursoBindBuffer = TursoBindBuffer::default();
    match value.to_sql(&mut out) {
        Ok(IsNull::Yes) => Ok(Value::Null),
        Ok(IsNull::No) => Ok(out.into_value()),
        Err(e) => Err(e),
    }
}

/// An optional value is written as NULL where there is none.
impl<ST, T: ToSql<ST>> ToSql<Nullable<ST>> for Option<T> {
    open spec fn written(&self) -> Result<ValueView, WriteErrorView> {
        match *self {
            Some(inner) => inner.written(),
            None => Ok(ValueView::Null),
        }
    }

    fn to_sql(&self, out: &mut TursoBindBuffer) -> (r: Result<IsNull, WriteError>) {
        match self {
            Some(inner) => inner.to_sql(out),
            None => Ok(IsNull::Yes),
        }
    }
}

} // verus!
