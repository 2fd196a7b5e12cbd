//! The values a Turso column can hold.

use vstd::prelude::*;

verus! {

/// One cell: NULL or a value of one of the four storage classes.
///
/// A `Real` is held as its IEEE-754 bit pattern, so that a value can be
/// compared and moved about without doing arithmetic on it.
#[derive(Debug, PartialEq, Eq)]
pub enum Value {
    Null,
    Integer(i64),
    Real(u64),
    Text(String),
    Blob(Vec<u8>),
}

/// What a [`Value`] says, with its text as characters and its blob as bytes.
#[verifier::ext_equal]
pub enum ValueView {
    Null,
    Integer(i64),
    Real(u64),
    Text(Seq<char>),
    Blob(Seq<u8>),
}

impl View for Value {
    type V = ValueView;

    open spec fn view(&self) -> ValueView {
        match *self {
            Value::Null => ValueView::Null,
            Value::Integer(n) => ValueView::Integer(n),
            Value::Real(bits) => ValueView::Real(bits),
            Value::Text(s) => ValueView::Text(s@),
            Value::Blob(b) => ValueView::Blob(b@),
        }
    }
}

impl Clone for Value {
    fn clone(&self) -> (copy: Self)
        ensures
            copy@ == self@,
    {
        match self {
            Value::Null => Value::Null,
            Value::Integer(n) => Value::Integer(*n),
            Value::Real(bits) => Value::Real(*bits),
            Value::Text(s) => Value::Text(s.clone()),
            Value::Blob(b) => {
                let copy = b.clone();
                assert(copy@ =~= b@);
                Value::Blob(copy)
            },
        }
    }
}

/// The views of a sequence of values, in order.
pub open spec fn views(values: Seq<Value>) -> Seq<ValueView> {
    Seq::new(values.len(), |i: int| values[i]@)
}

/// Whether a bit pattern is one of the NaNs: all exponent bits set and a
/// fraction other than zero, under either sign.
pub open spec fn is_nan(bits: u64) -> bool {
    0x7ff0_0000_0000_0000 < bits < 0x8000_0000_0000_0000 || bits > 0xfff0_0000_0000_0000
}

/// Tells the NaN bit patterns from all others.
pub fn real_is_nan(bits: u64) -> (nan: bool)
    ensures
        nan == is_nan(bits),
{
    (0x7ff0_0000_0000_0000 < bits && bits < 0x8000_0000_0000_0000) || bits > 0xfff0_0000_0000_0000
}

/// A borrowed cell of a query result, or a value pulled out of a record.
#[derive(Debug, Clone, Copy)]
pub struct TursoValue<'a> {
    inner: &'a Value,
}

impl<'a> View for TursoValue<'a> {
    type V = ValueView;

    closed spec fn view(&self) -> ValueView {
        self.inner@
    }
}

impl<'a> TursoValue<'a> {
    /// Wraps a borrowed value.
    pub fn new(inner: &'a Value) -> (wrapped: Self)
        ensures
            wrapped@ == inner@,
    {
        TursoValue { inner }
    }

    /// The value underneath.
    pub fn as_turso(&self) -> (inner: &'a Value)
        ensures
            inner@ == self@,
    {
        self.inner
    }
}

} // verus!
