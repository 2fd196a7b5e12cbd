//! What one call writes, another reads back.

use vstd::prelude::*;

use crate::bind::TursoBindBuffer;
use crate::date_and_time;
use crate::date_and_time::{NaiveDate, NaiveDateTime, NaiveTime, UtcDateTime};
use crate::deserialize::FromSql;
use crate::error::{ReadError, WriteError};
use crate::row;
use crate::serialize::{IsNull, ToSql};
use crate::sql_types::{BigInt, Binary, Bool, Integer, SmallInt, Text};
use crate::string_list;
use crate::union::ddl;
use crate::union::ddl::TypeDecl;
use crate::union::ddl_laws;
use crate::union::wire;
use crate::union::wire::WireError;
use crate::uuid::Uuid;
use crate::value;
use crate::value::{TursoValue, Value, ValueView};

verus! {

/// A UNION value is decoded as it was encoded, but for a NaN, which is NULL.
pub proof fn unions_come_back(
    tag: u8,
    outer: Value,
    out: Vec<u8>,
    buf: &[u8],
    r: Result<(u8, Value), WireError>,
)
    requires
        wire::serial_fits(outer@),
        call_ensures(wire::encode_union, (tag, outer), out),
        buf@ == out@,
        call_ensures(wire::decode_union, (buf,), r),
    ensures
        r matches Ok((t, v)) && t == tag && (v@ == outer@ || outer@ is Real && v@ is Null),
        outer@ matches ValueView::Real(bits) ==> (r->Ok_0.1@ is Null <==> (bits % 0x8000_0000_0000_0000)
            > 0x7ff0_0000_0000_0000),
{
    wire::union_reads_back(tag, outer@);
}

/// A record is decoded as it was encoded, value by value, but for the NaNs.
pub proof fn records_come_back(
    values: &[Value],
    out: Vec<u8>,
    buf: &[u8],
    r: Result<Vec<Value>, WireError>,
)
    requires
        wire::recordable(value::views(values@)),
        call_ensures(wire::encode_record, (values,), out),
        buf@ == out@,
        call_ensures(wire::decode_record, (buf,), r),
    ensures
        r matches Ok(read) && read@.len() == values@.len() && forall|i: int|
            0 <= i < values@.len() ==> (#[trigger] read@[i])@ == values@[i]@ || values@[i]@ is Real
                && read@[i]@ is Null,
{
    wire::record_reads_back(value::views(values@));
    let read = r->Ok_0;
    assert(value::views(read@).len() == read@.len());
    assert(wire::all_stored(value::views(values@)).len() == values@.len());
    assert forall|i: int| 0 <= i < values@.len() implies (#[trigger] read@[i])@ == values@[i]@
        || values@[i]@ is Real && read@[i]@ is Null by {
        assert(value::views(read@)[i] == read@[i]@);
        assert(value::views(values@)[i] == values@[i]@);
        assert(wire::all_stored(value::views(values@))[i] == wire::stored(values@[i]@));
    }
}

/// A varint is read as the number that was written, with its own length,
/// whatever follows it.
pub proof fn varints_come_back(
    out: &mut Vec<u8>,
    v: u64,
    rest: Seq<u8>,
    buf: &[u8],
    r: Result<(u64, usize), WireError>,
)
    requires
        old(out)@.len() == 0,
        call_ensures(wire::write_varint, (out, v), ()),
        buf@ == final(out)@ + rest,
        call_ensures(wire::read_varint, (buf,), r),
    ensures
        r matches Ok((read, used)) && read == v && used == final(out)@.len(),
{
    assert(final(out)@ =~= wire::varint(v as nat));
    wire::varint_reads_back(v as nat, rest);
    wire::varint_has_its_width(v as nat);
}

/// A declaration that was rendered is parsed as it was, provided that its
/// names and types are plain.
pub proof fn declarations_come_back(decl: TypeDecl, line: String, sql: &str, decls: Vec<TypeDecl>)
    requires
        ddl_laws::plain_decl(decl@),
        call_ensures(TypeDecl::render, (&decl,), line),
        sql@ == line@,
        call_ensures(ddl::parse_create_types, (sql,), decls),
    ensures
        decls@.len() == 1,
        decls@[0]@ == decl@,
{
    ddl_laws::renderings_read_back(decl@);
    assert(ddl::decl_views(decls@).len() == 1);
    assert(ddl::decl_views(decls@)[0] == decl@);
}

/// A date and a time are read from the text that is made of them.
pub proof fn dates_and_times_come_back(
    date: NaiveDate,
    date_text: String,
    given_date: &str,
    read_date: Option<NaiveDate>,
    time: NaiveTime,
    time_text: String,
    given_time: &str,
    read_time: Option<NaiveTime>,
)
    requires
        call_ensures(date_and_time::date_text, (date,), date_text),
        given_date@ == date_text@,
        call_ensures(date_and_time::parse_date, (given_date,), read_date),
        call_ensures(date_and_time::time_text, (time,), time_text),
        given_time@ == time_text@,
        call_ensures(date_and_time::parse_time, (given_time,), read_time),
    ensures
        read_date matches Some(d) && d.parts() == date.parts(),
        read_time matches Some(t) && t.parts() == time.parts(),
{
}

/// A timestamp is read from the text that is made of it, and a point in time
/// as its timestamp in UTC.
pub proof fn timestamps_come_back(
    stamp: NaiveDateTime,
    text: String,
    given: &str,
    read: Option<NaiveDateTime>,
    point: UtcDateTime,
    point_text: String,
    given_point: &str,
    read_point: Option<NaiveDateTime>,
)
    requires
        call_ensures(date_and_time::timestamp_text, (stamp,), text),
        given@ == text@,
        call_ensures(date_and_time::parse_naive_datetime, (given,), read),
        call_ensures(date_and_time::timestamptz_text, (point,), point_text),
        given_point@ == point_text@,
        call_ensures(date_and_time::parse_naive_datetime, (given_point,), read_point),
    ensures
        read matches Some(s) && s.parts() == stamp.parts(),
        read_point matches Some(s) && s.parts() == point.utc.parts(),
{
}

/// A list of strings is read from the text that is made of it.
pub proof fn string_lists_come_back(
    items: &[String],
    written: Result<String, WriteError>,
    text: &str,
    read: Result<Vec<String>, ReadError>,
)
    requires
        call_ensures(string_list::encode, (items,), written),
        written matches Ok(made) && text@ == made@,
        call_ensures(string_list::decode, (text,), read),
    ensures
        read matches Ok(list) && list@.len() == items@.len() && forall|i: int|
            0 <= i < items@.len() ==> (#[trigger] list@[i])@ == items@[i]@,
{
    let list = read->Ok_0;
    assert(list.deep_view() == row::name_views(items@));
    assert(list.deep_view().len() == list@.len());
    assert forall|i: int| 0 <= i < items@.len() implies (#[trigger] list@[i])@ == items@[i]@ by {
        assert(list.deep_view()[i] == list@[i]@);
        assert(row::name_views(items@)[i] == items@[i]@);
    }
}

/// An integer is bound as itself, and read as itself by its type.
pub proof fn integers_come_back(
    a: i16,
    out_a: &mut TursoBindBuffer,
    w_a: Result<IsNull, WriteError>,
    v_a: TursoValue<'_>,
    r_a: Result<i16, ReadError>,
    b: i32,
    out_b: &mut TursoBindBuffer,
    w_b: Result<IsNull, WriteError>,
    v_b: TursoValue<'_>,
    r_b: Result<i32, ReadError>,
    c: i64,
    out_c: &mut TursoBindBuffer,
    w_c: Result<IsNull, WriteError>,
    v_c: TursoValue<'_>,
    r_c: Result<i64, ReadError>,
)
    requires
        call_ensures(<i16 as ToSql<SmallInt>>::to_sql, (&a, out_a), w_a),
        v_a@ == final(out_a)@,
        call_ensures(<i16 as FromSql<SmallInt>>::from_sql, (v_a,), r_a),
        call_ensures(<i32 as ToSql<Integer>>::to_sql, (&b, out_b), w_b),
        v_b@ == final(out_b)@,
        call_ensures(<i32 as FromSql<Integer>>::from_sql, (v_b,), r_b),
        call_ensures(<i64 as ToSql<BigInt>>::to_sql, (&c, out_c), w_c),
        v_c@ == final(out_c)@,
        call_ensures(<i64 as FromSql<BigInt>>::from_sql, (v_c,), r_c),
    ensures
        v_a@ == ValueView::Integer(a as i64) && r_a == Ok::<_, ReadError>(a),
        v_b@ == ValueView::Integer(b as i64) && r_b == Ok::<_, ReadError>(b),
        v_c@ == ValueView::Integer(c) && r_c == Ok::<_, ReadError>(c),
        w_a == Ok::<_, WriteError>(IsNull::No) && w_b == Ok::<_, WriteError>(IsNull::No) && w_c
            == Ok::<_, WriteError>(IsNull::No),
{
}

/// A truth value is bound as 0 or 1 and read as itself, and a UUID is bound by
/// its sixteen bytes, from which it is read.
pub proof fn truth_values_and_uuids_come_back(
    a: bool,
    out_a: &mut TursoBindBuffer,
    w_a: Result<IsNull, WriteError>,
    v_a: TursoValue<'_>,
    r_a: Result<bool, ReadError>,
    id: Uuid,
    out_id: &mut TursoBindBuffer,
    w_id: Result<IsNull, WriteError>,
    v_id: TursoValue<'_>,
    r_id: Result<Uuid, ReadError>,
)
    requires
        call_ensures(<bool as ToSql<Bool>>::to_sql, (&a, out_a), w_a),
        v_a@ == final(out_a)@,
        call_ensures(<bool as FromSql<Bool>>::from_sql, (v_a,), r_a),
        call_ensures(<Uuid as ToSql<Binary>>::to_sql, (&id, out_id), w_id),
        v_id@ == final(out_id)@,
        call_ensures(<Uuid as FromSql<Binary>>::from_sql, (v_id,), r_id),
    ensures
        v_a@ == ValueView::Integer(if a {
            1
        } else {
            0
        }),
        r_a == Ok::<_, ReadError>(a),
        v_id@ == ValueView::Blob(id@),
        id@.len() == 16 ==> (r_id matches Ok(read) && read@ == id@),
{
}

/// Texts and byte strings are bound as themselves and read as themselves.
pub proof fn texts_and_bytes_come_back(
    s: String,
    out_s: &mut TursoBindBuffer,
    w_s: Result<IsNull, WriteError>,
    v_s: TursoValue<'_>,
    r_s: Result<String, ReadError>,
    b: Vec<u8>,
    out_b: &mut TursoBindBuffer,
    w_b: Result<IsNull, WriteError>,
    v_b: TursoValue<'_>,
    r_b: Result<Vec<u8>, ReadError>,
)
    requires
        call_ensures(<String as ToSql<Text>>::to_sql, (&s, out_s), w_s),
        v_s@ == final(out_s)@,
        call_ensures(<String as FromSql<Text>>::from_sql, (v_s,), r_s),
        call_ensures(<Vec<u8> as ToSql<Binary>>::to_sql, (&b, out_b), w_b),
        v_b@ == final(out_b)@,
        call_ensures(<Vec<u8> as FromSql<Binary>>::from_sql, (v_b,), r_b),
    ensures
        v_s@ == ValueView::Text(s@) && (r_s matches Ok(read) && read@ == s@),
        v_b@ == ValueView::Blob(b@) && (r_b matches Ok(read) && read@ == b@),
{
    if let Ok(read) = r_b {
        assert(read.deep_view() =~= read@);
    }
}

} // verus!
