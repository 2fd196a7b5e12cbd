//! Binds: how a value reaches the list that is handed to the engine.

use vstd::prelude::*;
use vstd::std_specs::convert::FromSpecImpl;

use crate::backend::TursoType;
use crate::error::QueryError;
use crate::serialize::{write_value, ToSql};
use crate::types::RealBits;
use crate::value;
use crate::value::{Value, ValueView};

verus! {

/// The scratchpad into which one value is written.
#[derive(Debug)]
pub struct TursoBindBuffer {
    inner: Value,
}

impl View for TursoBindBuffer {
    type V = ValueView;

    closed spec fn view(&self) -> ValueView {
        self.inner@
    }
}

impl Default for TursoBindBuffer {
    fn default() -> (buffer: Self)
        ensures
            buffer@ == ValueView::Null,
    {
        TursoBindBuffer { inner: Value::Null }
    }
}

impl TursoBindBuffer {
    /// The value that was written.
    pub fn into_value(self) -> (inner: Value)
        ensures
            inner@ == self@,
    {
        self.inner
    }

    /// Replaces what the buffer holds.
    pub fn set_value(&mut self, buffer: TursoBindBuffer)
        ensures
            final(self)@ == buffer@,
    {
        self.inner = buffer.inner;
    }
}

/// A small integer is written as an integer.
impl From<i16> for TursoBindBuffer {
    fn from(n: i16) -> (buffer: Self)
        ensures
            buffer@ == ValueView::Integer(n as i64),
    {
        TursoBindBuffer { inner: Value::Integer(n as i64) }
    }
}

impl FromSpecImpl<i16> for TursoBindBuffer {
    open spec fn obeys_from_spec() -> bool {
        true
    }

    closed spec fn from_spec(n: i16) -> TursoBindBuffer {
        TursoBindBuffer { inner: Value::Integer(n as i64) }
    }
}

/// An integer is written as an integer.
impl From<i32> for TursoBindBuffer {
    fn from(n: i32) -> (buffer: Self)
        ensures
            buffer@ == ValueView::Integer(n as i64),
    {
        TursoBindBuffer { inner: Value::Integer(n as i64) }
    }
}

impl FromSpecImpl<i32> for TursoBindBuffer {
    open spec fn obeys_from_spec() -> bool {
        true
    }

    closed spec fn from_spec(n: i32) -> TursoBindBuffer {
        TursoBindBuffer { inner: Value::Integer(n as i64) }
    }
}

/// A large integer is written as an integer.
impl From<i64> for TursoBindBuffer {
    fn from(n: i64) -> (buffer: Self)
        ensures
            buffer@ == ValueView::Integer(n),
    {
        TursoBindBuffer { inner: Value::Integer(n) }
    }
}

impl FromSpecImpl<i64> for TursoBindBuffer {
    open spec fn obeys_from_spec() -> bool {
        true
    }

    closed spec fn from_spec(n: i64) -> TursoBindBuffer {
        TursoBindBuffer { inner: Value::Integer(n) }
    }
}

/// A truth value is written as 0 or 1.
impl From<bool> for TursoBindBuffer {
    fn from(b: bool) -> (buffer: Self)
        ensures
            buffer@ == ValueView::Integer(if b {
                1
            } else {
                0
            }),
    {
        TursoBindBuffer {
            inner: Value::Integer(
                if b {
                    1
                } else {
                    0
                },
            ),
        }
    }
}

impl FromSpecImpl<bool> for TursoBindBuffer {
    open spec fn obeys_from_spec() -> bool {
        true
    }

    closed spec fn from_spec(b: bool) -> TursoBindBuffer {
        TursoBindBuffer {
            inner: Value::Integer(
                if b {
                    1
                } else {
                    0
                },
            ),
        }
    }
}

/// A string is written as text.
impl From<String> for TursoBindBuffer {
    fn from(s: String) -> (buffer: Self)
        ensures
            buffer@ == ValueView::Text(s@),
    {
        TursoBindBuffer { inner: Value::Text(s) }
    }
}

impl FromSpecImpl<String> for TursoBindBuffer {
    open spec fn obeys_from_spec() -> bool {
        true
    }

    closed spec fn from_spec(s: String) -> TursoBindBuffer {
        TursoBindBuffer { inner: Value::Text(s) }
    }
}

/// Bytes are written as a blob.
impl From<Vec<u8>> for TursoBindBuffer {
    fn from(b: Vec<u8>) -> (buffer: Self)
        ensures
            buffer@ == ValueView::Blob(b@),
    {
        TursoBindBuffer { inner: Value::Blob(b) }
    }
}

impl FromSpecImpl<Vec<u8>> for TursoBindBuffer {
    open spec fn obeys_from_spec() -> bool {
        true
    }

    closed spec fn from_spec(b: Vec<u8>) -> TursoBindBuffer {
        TursoBindBuffer { inner: Value::Blob(b) }
    }
}

/// A float is written as a real.
impl From<RealBits> for TursoBindBuffer {
    fn from(f: RealBits) -> (buffer: Self)
        ensures
            buffer@ == ValueView::Real(f.0),
    {
        TursoBindBuffer { inner: Value::Real(f.0) }
    }
}

impl FromSpecImpl<RealBits> for TursoBindBuffer {
    open spec fn obeys_from_spec() -> bool {
        true
    }

    closed spec fn from_spec(f: RealBits) -> TursoBindBuffer {
        TursoBindBuffer { inner: Value::Real(f.0) }
    }
}

/// A borrowed string is written as text.
impl From<&str> for TursoBindBuffer {
    fn from(s: &str) -> (buffer: Self)
        ensures
            buffer@ == ValueView::Text(s@),
    {
        TursoBindBuffer { inner: Value::Text(s.to_owned()) }
    }
}

impl FromSpecImpl<&str> for TursoBindBuffer {
    open spec fn obeys_from_spec() -> bool {
        false
    }

    open spec fn from_spec(s: &str) -> TursoBindBuffer {
        arbitrary()
    }
}

/// Borrowed bytes are written as a blob.
impl From<&[u8]> for TursoBindBuffer {
    fn from(b: &[u8]) -> (buffer: Self)
        ensures
            buffer@ == ValueView::Blob(b@),
    {
        TursoBindBuffer { inner: Value::Blob(vstd::slice::slice_to_vec(b)) }
    }
}

impl FromSpecImpl<&[u8]> for TursoBindBuffer {
    open spec fn obeys_from_spec() -> bool {
        false
    }

    open spec fn from_spec(b: &[u8]) -> TursoBindBuffer {
        arbitrary()
    }
}

/// The values bound so far, in order.
#[derive(Debug)]
pub struct TursoBindCollector {
    binds: Vec<Value>,
}

impl View for TursoBindCollector {
    type V = Seq<ValueView>;

    closed spec fn view(&self) -> Seq<ValueView> {
        value::views(self.binds@)
    }
}

impl Default for TursoBindCollector {
    fn default() -> (collector: Self)
        ensures
            collector@ == Seq::<ValueView>::empty(),
    {
        let collector = TursoBindCollector { binds: Vec::new() };
        assert(collector@ =~= Seq::<ValueView>::empty());
        collector
    }
}

impl TursoBindCollector {
    /// Binds a value. One that refuses to be written is an error and binds
    /// nothing.
    pub fn push_bound_value<ST, T: ToSql<ST> + ?Sized>(&mut self, bind: &T) -> (r: Result<(), QueryError>)
        ensures
            match bind.written() {
                Ok(v) => r is Ok && final(self)@ == old(self)@.push(v),
                Err(e) => (r matches Err(QueryError::SerializationError(reason)) && reason@ == e)
                    && final(self)@ == old(self)@,
            },
    {
        match write_value::<ST, T>(bind) {
            Ok(v) => {
                self.binds.push(v);
                assert(self@ =~= old(self)@.push(v@));
                Ok(())
            },
            Err(e) => Err(QueryError::SerializationError(e)),
        }
    }

    /// Binds NULL, whatever the storage class it stands in for.
    pub fn push_null_value(&mut self, class: TursoType) -> (r: Result<(), QueryError>)
        ensures
            r is Ok,
            final(self)@ == old(self)@.push(ValueView::Null),
    {
        self.binds.push(Value::Null);
        assert(self@ =~= old(self)@.push(ValueView::Null));
        Ok(())
    }

    /// The values bound, in order.
    pub fn into_values(self) -> (binds: Vec<Value>)
        ensures
            value::views(binds@) == self@,
    {
        self.binds
    }
}

} // verus!
