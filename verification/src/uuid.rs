//! UUIDs as blobs of sixteen bytes.

use vstd::prelude::*;

use crate::bind::TursoBindBuffer;
use crate::deserialize::FromSql;
use crate::error::{mismatch, ReadError, ReadErrorView, WriteError, WriteErrorView};
use crate::serialize::{IsNull, ToSql};
use crate::sql_types::Binary;
use crate::value::{TursoValue, Value, ValueView};

verus! {

/// A UUID: its sixteen bytes.
#[derive(Debug, Clone, Copy, PartialEq, Eq)]
pub struct Uuid {
    bytes: [u8; 16],
}

impl View for Uuid {
    type V = Seq<u8>;

    closed spec fn view(&self) -> Seq<u8> {
        self.bytes@
    }
}

impl DeepView for Uuid {
    type V = Seq<u8>;

    open spec fn deep_view(&self) -> Seq<u8> {
        self@
    }
}

/// Why the `uuid` crate refused some bytes.
#[verifier::external_type_specification]
#[verifier::external_body]
pub struct ExUuidError(uuid::Error);

/// Calls `uuid::Uuid::from_slice`: sixteen bytes are a UUID of those bytes,
/// and any other number of bytes is refused.
#[verifier::external_body]
fn uuid_from_slice(bytes: &[u8]) -> (r: Result<[u8; 16], uuid::Error>)
    ensures
        r is Ok <==> bytes@.len() == 16,
        r matches Ok(id) ==> id@ == bytes@,
{
    uuid::Uuid::from_slice(bytes).map(|id| id.into_bytes())
}

impl Uuid {
    /// The UUID of these bytes.
    pub fn from_bytes(bytes: [u8; 16]) -> (id: Uuid)
        ensures
            id@ == bytes@,
    {
        Uuid { bytes }
    }

    /// The UUID of these bytes, where there are sixteen.
    pub fn from_slice(bytes: &[u8]) -> (r: Result<Uuid, ReadError>)
        ensures
            match r {
                Ok(id) => bytes@.len() == 16 && id@ == bytes@,
                Err(e) => bytes@.len() != 16 && e@ == ReadErrorView::UuidLength(bytes@.len()),
            },
    {
        match uuid_from_slice(bytes) {
            Ok(id) => Ok(Uuid { bytes: id }),
            Err(_) => Err(ReadError::UuidLength(bytes.len())),
        }
    }

    /// The sixteen bytes.
    pub fn as_bytes(&self) -> (bytes: &[u8])
        ensures
            bytes@ == self@,
    {
        self.bytes.as_slice()
    }
}

impl ToSql<Binary> for Uuid {
    open spec fn written(&self) -> Result<ValueView, WriteErrorView> {
        Ok(ValueView::Blob(self@))
    }

    fn to_sql(&self, out: &mut TursoBindBuffer) -> (r: Result<IsNull, WriteError>) {
        out.set_value(TursoBindBuffer::from(self.as_bytes()));
        Ok(IsNull::No)
    }
}

impl FromSql<Binary> for Uuid {
    open spec fn read(v: ValueView) -> Result<Seq<u8>, ReadErrorView> {
        match v {
            ValueView::Blob(b) => if b.len() == 16 {
                Ok(b)
            } else {
                Err(ReadErrorView::UuidLength(b.len()))
            },
            _ => Err(ReadErrorView::Mismatch { expected: "Blob"@, got: v }),
        }
    }

    open spec fn read_null() -> Result<Seq<u8>, ReadErrorView> {
        Err(ReadErrorView::UnexpectedNull)
    }

    fn from_sql(v: TursoValue<'_>) -> (r: Result<Self, ReadError>) {
        match v.as_turso() {
            Value::Blob(b) => Uuid::from_slice(b.as_slice()),
            other => Err(mismatch("Blob", other)),
        }
    }

    fn from_nullable_sql(v: Option<TursoValue<'_>>) -> (r: Result<Self, ReadError>) {
        match v {
            Some(inner) => <Uuid as FromSql<Binary>>::from_sql(inner),
            None => Err(ReadError::UnexpectedNull),
        }
    }
}

/// A UUID is read back as it was written.
pub proof fn uuids_read_back(id: Uuid)
    ensures
        <Uuid as FromSql<Binary>>::read(<Uuid as ToSql<Binary>>::written(&id)->Ok_0) == Ok::<
            Seq<u8>,
            ReadErrorView,
        >(id@),
{
}

} // verus!
