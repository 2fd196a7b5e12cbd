//! String lists as a JSON array in a TEXT column.
//!
//! JSON is unambiguous for arbitrary strings: no separator has to be
//! forbidden. On the way back it is an array of strings or it is an error; a
//! field that cannot be read never decodes to an empty list.

use vstd::prelude::*;

use crate::bind::TursoBindBuffer;
use crate::deserialize::{read_outcome, FromSql};
use crate::error::{mismatch, ReadError, ReadErrorView, WriteError, WriteErrorView};
use crate::row;
use crate::serialize::{IsNull, ToSql};
use crate::sql_types::Text;
use crate::value::{TursoValue, Value, ValueView};

verus! {

/// The JSON array that `serde_json` makes of a list of strings.
pub uninterp spec fn json_of(items: Seq<Seq<char>>) -> Seq<char>;

/// The list of strings that `serde_json` reads from a text, where it reads
/// one.
pub uninterp spec fn list_in_json(text: Seq<char>) -> Option<Seq<Seq<char>>>;

/// Calls `serde_json::to_string` on a list of strings. It fails only where a
/// value refuses to be serialised or a map has keys that are no strings, of
/// which a list of strings has neither. What it writes depends on the strings
/// alone, and `serde_json` reads the same strings back from it.
#[verifier::external_body]
fn list_to_json(items: &[String]) -> (r: Result<String, serde_json::Error>)
    ensures
        r is Ok,
        r->Ok_0@ == json_of(row::name_views(items@)),
        list_in_json(r->Ok_0@) == Some(row::name_views(items@)),
{
    serde_json::to_string(items)
}

/// Calls `serde_json::from_str` for a list of strings. Whether the text is a
/// JSON array of strings, and which, depends on the text alone.
#[verifier::external_body]
fn list_from_json(text: &str) -> (r: Result<Vec<String>, serde_json::Error>)
    ensures
        r matches Ok(items) ==> list_in_json(text@) == Some(row::name_views(items@)),
        r is Err ==> list_in_json(text@) is None,
{
    serde_json::from_str(text)
}

/// Writes a string list as a JSON array, from which [`decode`] reads the same
/// list, whatever its strings hold.
pub fn encode(items: &[String]) -> (r: Result<String, WriteError>)
    ensures
        r matches Ok(text) && text@ == json_of(row::name_views(items@)) && list_in_json(text@)
            == Some(row::name_views(items@)),
{
    match list_to_json(items) {
        Ok(text) => Ok(text),
        Err(reason) => Err(WriteError::Json(reason)),
    }
}

/// What is read where `text` holds the list `found`.
pub open spec fn read_list(text: Seq<char>, found: Option<Seq<Seq<char>>>) -> Result<
    Seq<Seq<char>>,
    ReadErrorView,
> {
    match found {
        Some(items) => Ok(items),
        None => Err(ReadErrorView::Json { text }),
    }
}

/// Hands on a list that was parsed from `text`, or the error that it was not.
pub fn parsed_list(text: &str, parsed: Result<Vec<String>, serde_json::Error>) -> (r: Result<
    Vec<String>,
    ReadError,
>)
    ensures
        read_outcome(r) == read_list(
            text@,
            match parsed {
                Ok(items) => Some(row::name_views(items@)),
                Err(_) => None,
            },
        ),
{
    match parsed {
        Ok(items) => {
            assert(items.deep_view() =~= row::name_views(items@));
            Ok(items)
        },
        Err(reason) => Err(ReadError::Json { text: text.to_owned(), reason }),
    }
}

/// Reads a string list from a JSON array.
pub fn decode(text: &str) -> (r: Result<Vec<String>, ReadError>)
    ensures
        read_outcome(r) == read_list(text@, list_in_json(text@)),
{
    parsed_list(text, list_from_json(text))
}

/// A string list is written as text.
impl ToSql<Text> for Vec<String> {
    open spec fn written(&self) -> Result<ValueView, WriteErrorView> {
        Ok(ValueView::Text(json_of(row::name_views(self@))))
    }

    fn to_sql(&self, out: &mut TursoBindBuffer) -> (r: Result<IsNull, WriteError>) {
        match encode(self.as_slice()) {
            Ok(text) => {
                out.set_value(TursoBindBuffer::from(text));
                Ok(IsNull::No)
            },
            Err(e) => Err(e),
        }
    }
}

impl FromSql<Text> for Vec<String> {
    open spec fn read(v: ValueView) -> Result<Seq<Seq<char>>, ReadErrorView> {
        match v {
            ValueView::Text(s) => read_list(s, list_in_json(s)),
            _ => Err(ReadErrorView::Mismatch { expected: "Text (JSON string array)"@, got: v }),
        }
    }

    open spec fn read_null() -> Result<Seq<Seq<char>>, ReadErrorView> {
        Err(ReadErrorView::UnexpectedNull)
    }

    fn from_sql(v: TursoValue<'_>) -> (r: Result<Self, ReadError>) {
        match v.as_turso() {
            Value::Text(s) => decode(s.as_str()),
            other => Err(mismatch("Text (JSON string array)", other)),
        }
    }

    fn from_nullable_sql(v: Option<TursoValue<'_>>) -> (r: Result<Self, ReadError>) {
        match v {
            Some(inner) => <Vec<String> as FromSql<Text>>::from_sql(inner),
            None => Err(ReadError::UnexpectedNull),
        }
    }
}

/// A list is read exactly where the text holds one, and as that; else the
/// text is named in the error. A value that is no text is named too.
pub proof fn lists_are_read_from_their_text(v: ValueView)
    ensures
        match v {
            ValueView::Text(s) => match list_in_json(s) {
                Some(items) => <Vec<String> as FromSql<Text>>::read(v) == Ok::<_, ReadErrorView>(
                    items,
                ),
                None => <Vec<String> as FromSql<Text>>::read(v) == Err::<Seq<Seq<char>>, _>(
                    ReadErrorView::Json { text: s },
                ),
            },
            _ => <Vec<String> as FromSql<Text>>::read(v) == Err::<Seq<Seq<char>>, _>(
                ReadErrorView::Mismatch { expected: "Text (JSON string array)"@, got: v },
            ),
        },
        <Vec<String> as FromSql<Text>>::read_null() == Err::<Seq<Seq<char>>, _>(
            ReadErrorView::UnexpectedNull,
        ),
{
}

/// A list is written as its own text and read back from it, wherever that text
/// holds it.
pub proof fn lists_read_back(list: Vec<String>)
    ensures
        list_in_json(json_of(row::name_views(list@))) == Some(row::name_views(list@)) ==> (
        <Vec<String> as ToSql<Text>>::written(&list) matches Ok(v) && <Vec<String> as FromSql<
            Text,
        >>::read(v) == Ok::<_, ReadErrorView>(row::name_views(list@))),
{
}

} // verus!
