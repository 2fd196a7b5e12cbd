//! What reading a result comes to, call by call.

use vstd::prelude::*;

use crate::connection;
use crate::connection::{RowAnswer, RowStream};
use crate::deserialize::FromSql;
use crate::error::{QueryError, ReadError, ReadErrorView, WriteError};
use crate::mysql::row::{MysqlField, MysqlRow};
use crate::pg::{PgField, PgRow};
use crate::row;
use crate::row::{TursoField, TursoRow};
use crate::serialize::ToSql;
use crate::string_list;
use crate::union::field_type;
use crate::union::schema::ValueKind;
use crate::value::{TursoValue, Value};

verus! {

/// A field that is found by its position has the name and the value that stand
/// there, and a NULL is no value.
pub proof fn fields_have_the_name_and_value_of_their_position(
    row: TursoRow,
    index: usize,
    field: Option<TursoField<'_>>,
    name: Option<&str>,
    v: Option<TursoValue<'_>>,
    count: usize,
)
    requires
        row@.names.len() == row@.values.len(),
        call_ensures(TursoRow::field_count, (&row,), count),
        call_ensures(TursoRow::get::<usize>, (&row, index), field),
        field matches Some(f) ==> call_ensures(TursoField::field_name, (&f,), name) && call_ensures(
            TursoField::value,
            (&f,),
            v,
        ),
    ensures
        count == row@.values.len(),
        field is Some <==> index < count,
        field is Some ==> (name matches Some(text) && text@ == row@.names[index as int]),
        field is Some ==> (v is None <==> row@.values[index as int] is Null),
        field is Some && v is Some ==> v->0@ == row@.values[index as int],
{
}

/// A field that is found by a name is the first of that name.
pub proof fn fields_are_the_first_of_their_name(
    row: TursoRow,
    wanted: &str,
    field: Option<TursoField<'_>>,
)
    requires
        call_ensures(TursoRow::get::<&str>, (&row, wanted), field),
    ensures
        field is None <==> !row@.names.contains(wanted@),
        field matches Some(f) ==> f.row_view() == row@ && row@.names[f.position()] == wanted@
            && forall|k: int| 0 <= k < f.position() ==> row@.names[k] != wanted@,
{
    row::first_position_is_first(row@.names, wanted@);
}

/// The cells of a row of the PostgreSQL driver are found with their names.
pub proof fn pg_cells_are_found_with_their_names(
    row: PgRow,
    index: usize,
    field: Option<PgField<'_>>,
)
    requires
        row.well_formed(),
        call_ensures(PgRow::get::<usize>, (&row, index), field),
    ensures
        field is Some <==> index < row.cells@.len(),
        field matches Some(f) ==> *f.cell == row.cells@[index as int] && f.name@
            == row.names@[index as int]@,
{
}

/// The cells of a row of the MySQL driver are found with their names and
/// columns, unless they are gone.
pub proof fn mysql_cells_are_found_with_their_names(
    row: MysqlRow,
    index: usize,
    field: Option<MysqlField<'_>>,
)
    requires
        row.well_formed(),
        call_ensures(MysqlRow::get::<usize>, (&row, index), field),
    ensures
        field is Some <==> index < row.columns@.len() && row.cells@[index as int] is Some,
        field matches Some(f) ==> *f.column == row.columns@[index as int] && f.name@
            == row.names@[index as int]@ && (f.value is None <==> row.cells@[index as int]->0 is Null),
{
}

/// A stream goes on while rows are read. It is at its end where the engine has
/// no more, and behind the first failure, which is told once; and then it
/// stays there.
pub proof fn streams_end_once(
    stream: &mut RowStream,
    answer: RowAnswer,
    item: Option<Result<TursoRow, QueryError>>,
    later: &mut RowStream,
    more: RowAnswer,
    next: Option<Result<TursoRow, QueryError>>,
)
    requires
        call_ensures(RowStream::next_row, (stream, answer), item),
        *old(later) == *final(stream),
        call_ensures(RowStream::next_row, (later, more), next),
    ensures
        old(stream).columns() is None ==> item is None && next is None,
        old(stream).columns() is Some && answer is Done ==> item is None && next is None,
        old(stream).columns() is Some ==> (answer matches RowAnswer::Failed(e) ==> next is None
            && (item matches Some(Err(QueryError::DatabaseError(_, info))) && info.0 == e.message)),
        old(stream).columns() is Some ==> (answer matches RowAnswer::Row(cells) ==> (item matches Some(
            Ok(r),
        ) ==> r@.values.len() == cells@.len() && Some(r@.names) == old(stream).columns() && forall|
            i: int,
        |
            0 <= i < cells@.len() ==> (#[trigger] cells@[i] matches Ok(v) && r@.values[i] == v@))),
        old(stream).columns() is Some ==> (answer matches RowAnswer::Row(cells) ==> ((
        item matches Some(Ok(_))) <==> forall|i: int|
            0 <= i < cells@.len() ==> (#[trigger] cells@[i]) is Ok)),
        (item matches Some(Err(_))) ==> next is None,
{
    if let RowAnswer::Row(cells) = answer {
        connection::the_first_failure_is_reported(cells@, cells@.len() as int);
    }
}

/// A storage class is told by its name.
pub proof fn classes_are_told_by_name(v: Value, kind: ValueKind, name: &'static str)
    requires
        call_ensures(ValueKind::of, (&v,), kind),
        call_ensures(ValueKind::as_str, (&kind,), name),
    ensures
        v@ is Null ==> name@ == "NULL"@,
        v@ is Integer ==> name@ == "INTEGER"@,
        v@ is Real ==> name@ == "REAL"@,
        v@ is Text ==> name@ == "TEXT"@,
        v@ is Blob ==> name@ == "BLOB"@,
{
}

/// A field of a composite is written as a bind is, and read as a cell is: NULL
/// as NULL, and any other value as itself.
pub proof fn fields_are_written_and_read_as_cells<ST, T: ToSql<ST> + FromSql<ST>>(
    field: &T,
    written: Result<Value, WriteError>,
    v: &Value,
    read: Result<T, ReadError>,
)
    requires
        call_ensures(field_type::encode_field::<ST, T>, (field,), written),
        call_ensures(field_type::decode_field::<ST, T>, (v,), read),
    ensures
        written is Ok <==> field.written() is Ok,
        written matches Ok(w) ==> field.written()->Ok_0 == w@,
        v@ is Null ==> (match read {
            Ok(x) => T::read_null() == Ok::<_, ReadErrorView>(x.deep_view()),
            Err(e) => T::read_null() == Err::<T::V, _>(e@),
        }),
        v@ !is Null ==> (match read {
            Ok(x) => T::read(v@) == Ok::<_, ReadErrorView>(x.deep_view()),
            Err(e) => T::read(v@) == Err::<T::V, _>(e@),
        }),
{
}

/// A position is found below the number of fields, and a name where it stands
/// first.
pub proof fn positions_are_found(
    count: usize,
    i: usize,
    position: Option<usize>,
    names: &[String],
    wanted: &str,
    found: Option<usize>,
)
    requires
        call_ensures(row::position_in, (count, i), position),
        call_ensures(row::position_of, (names, wanted), found),
    ensures
        position is Some <==> i < count,
        position matches Some(p) ==> p == i,
        found matches Some(p) ==> p < names@.len() && names@[p as int]@ == wanted@ && forall|k: int|
            0 <= k < p ==> (#[trigger] names@[k])@ != wanted@,
        found is None ==> forall|k: int|
            0 <= k < names@.len() ==> (#[trigger] names@[k])@ != wanted@,
{
    let all = row::name_views(names@);
    row::first_position_is_first(all, wanted@);
    assert forall|k: int| 0 <= k < names@.len() implies (#[trigger] names@[k])@ == all[k] by {}
}

/// A stream is open until its end.
pub proof fn streams_are_open_until_their_end(
    names: Vec<String>,
    fresh: RowStream,
    open: bool,
    stream: &mut RowStream,
    item: Option<Result<TursoRow, QueryError>>,
    still: bool,
)
    requires
        call_ensures(RowStream::new, (names,), fresh),
        call_ensures(RowStream::is_open, (&fresh,), open),
        *old(stream) == fresh,
        call_ensures(RowStream::next_row, (stream, RowAnswer::Done), item),
        call_ensures(RowStream::is_open, (&*final(stream),), still),
    ensures
        open && !still && item is None,
{
}

/// A value that is wrapped is the value underneath.
pub proof fn wrapped_values_are_themselves(v: &Value, wrapped: TursoValue<'_>, inner: &Value)
    requires
        call_ensures(TursoValue::new, (v,), wrapped),
        call_ensures(TursoValue::as_turso, (&wrapped,), inner),
    ensures
        wrapped@ == v@ && inner@ == v@,
{
}

/// A list that was parsed is handed on, and one that was not names its text.
pub proof fn parsed_lists_are_handed_on(
    text: &str,
    parsed: Result<Vec<String>, serde_json::Error>,
    r: Result<Vec<String>, ReadError>,
)
    requires
        call_ensures(string_list::parsed_list, (text, parsed), r),
    ensures
        parsed is Ok <==> r is Ok,
        parsed matches Ok(items) ==> r->Ok_0.deep_view() == row::name_views(items@),
        r matches Err(e) ==> e@ == (ReadErrorView::Json { text: text@ }),
{
}

} // verus!
