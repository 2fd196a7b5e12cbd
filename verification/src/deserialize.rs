//! Reading a Rust value from a cell.

use vstd::prelude::*;

use crate::error::{ReadError, ReadErrorView};
use crate::sql_types::Nullable;
use crate::value::{TursoValue, ValueView};

verus! {

/// A value that can be read from the SQL type `ST`.
pub trait FromSql<ST>: DeepView + Sized {
    /// What is read from a value that is not NULL, or why nothing is.
    spec fn read(v: ValueView) -> Result<Self::V, ReadErrorView>;

    /// What is read from NULL, or why nothing is.
    spec fn read_null() -> Result<Self::V, ReadErrorView>;

    /// Reads a value that is not NULL.
    fn from_sql(v: TursoValue<'_>) -> (r: Result<Self, ReadError>)
        ensures
            read_outcome(r) == Self::read(v@),
    ;

    /// Reads a value, or NULL where there is none.
    fn from_nullable_sql(v: Option<TursoValue<'_>>) -> (r: Result<Self, ReadError>)
        ensures
            read_outcome(r) == (match v {
                Some(inner) => Self::read(inner@),
                None => Self::read_null(),
            }),
    ;
}

/// What a reading came to.
pub open spec fn read_outcome<T: DeepView>(r: Result<T, ReadError>) -> Result<
    T::V,
    ReadErrorView,
> {
    match r {
        Ok(x) => Ok(x.deep_view()),
        Err(e) => Err(e@),
    }
}

/// An optional value is none where NULL is read.
impl<ST, T: FromSql<ST>> FromSql<Nullable<ST>> for Option<T> {
    open spec fn read(v: ValueView) -> Result<Option<T::V>, ReadErrorView> {
        match T::read(v) {
            Ok(x) => Ok(Some(x)),
            Err(e) => Err(e),
        }
    }

    open spec fn read_null() -> Result<Option<T::V>, ReadErrorView> {
        Ok(None)
    }

    fn from_sql(v: TursoValue<'_>) -> (r: Result<Self, ReadError>) {
        match T::from_sql(v) {
            Ok(x) => Ok(Some(x)),
            Err(e) => Err(e),
        }
    }

    fn from_nullable_sql(v: Option<TursoValue<'_>>) -> (r: Result<Self, ReadError>) {
        match v {
            Some(inner) => match T::from_sql(inner) {
                Ok(x) => Ok(Some(x)),
                Err(e) => Err(e),
            },
            None => Ok(None),
        }
    }
}

} // verus!
