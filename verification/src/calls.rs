//! How calls relate to each other and to their arguments, for the functions
//! that decide or convert something in one step.

use vstd::prelude::*;

use crate::array_comparison;
use crate::backend::{HasSqlType, Turso, TursoType};
use crate::date_and_time;
use crate::date_and_time::{NaiveDate, NaiveDateTime, NaiveTime, TimestampSource, UtcDateTime};
use crate::error;
use crate::error::{ConnectionError, QueryError, ReadError, ReadErrorView, TursoDbError, TursoError};
use crate::expr;
use crate::expr::Call;
use crate::mysql::cancel_token::MysqlCancelToken;
use crate::mysql::row;
use crate::mysql::row::{BufferView, ColumnType, MysqlBuffer, MysqlCell, MysqlType};
use crate::mysql::serialize;
use crate::mysql::serialize::{ByteOrder, MysqlBind, ToSqlHelper};
use crate::pg;
use crate::probe::TypeCheckError;
use crate::query;
use crate::query::{Expression, QueryFragment};
use crate::sql_types;
use crate::text;
use crate::union::display;
use crate::union::display::Piece;
use crate::union::field_type;
use crate::union::schema;
use crate::union::wire;
use crate::union::wire::WireError;
use crate::uuid::Uuid;
use crate::value;
use crate::value::{Value, ValueView};

verus! {

/// The engine's message is kept in every error that is made of its errors.
pub proof fn messages_are_kept(e: TursoError, failed: QueryError, refused: ConnectionError)
    requires
        call_ensures(error::turso_to_diesel, (e,), failed),
        call_ensures(error::turso_to_connection, (e,), refused),
    ensures
        failed matches QueryError::DatabaseError(_, info) && info.0 == e.message,
        refused == ConnectionError::BadConnection(e.message),
{
}

/// The engine tells nothing of a failure but its message.
pub proof fn failures_have_a_message_and_nothing_else(
    info: TursoDbError,
    message: &str,
    details: Option<&str>,
    hint: Option<&str>,
    table: Option<&str>,
    column: Option<&str>,
    constraint: Option<&str>,
    position: Option<i32>,
)
    requires
        call_ensures(TursoDbError::message, (&info,), message),
        call_ensures(TursoDbError::details, (&info,), details),
        call_ensures(TursoDbError::hint, (&info,), hint),
        call_ensures(TursoDbError::table_name, (&info,), table),
        call_ensures(TursoDbError::column_name, (&info,), column),
        call_ensures(TursoDbError::constraint_name, (&info,), constraint),
        call_ensures(TursoDbError::statement_position, (&info,), position),
    ensures
        message@ == info.0@,
        details is None && hint is None && table is None && column is None && constraint is None
            && position is None,
{
}

/// A query is cancelled by the number of its connection.
pub proof fn queries_are_killed_by_number(token: MysqlCancelToken, sql: String)
    requires
        call_ensures(MysqlCancelToken::cancel_query_sql, (&token,), sql),
    ensures
        sql@.len() > 12,
        sql@.take(11) == "KILL QUERY "@,
        sql@.last() == ';',
        text::digits_value(sql@.subrange(11, sql@.len() - 1)) == token.kill_id,
{
    reveal_strlit("KILL QUERY ");
    reveal_strlit(";");
    text::decimals_spell_their_number(token.kill_id as nat);
    let number = text::decimal(token.kill_id as nat);
    assert(sql@.take(11) =~= "KILL QUERY "@);
    assert(sql@.subrange(11, sql@.len() - 1) =~= number);
}

/// Values are read of every type whose object id is known.
pub proof fn known_types_are_accepted(oid: u32, yes: bool)
    requires
        call_ensures(pg::accepts, (oid,), yes),
    ensures
        !yes <==> oid == 0,
{
}

/// A timestamp that is text is read as one, a number is a Julian day, and
/// anything else is neither; and of a Julian day the one that was looked up is
/// what is read.
pub proof fn timestamps_are_text_or_julian_days(
    v: Value,
    source: TimestampSource,
    julian: Option<NaiveDateTime>,
    r: Result<NaiveDateTime, ReadError>,
)
    requires
        call_ensures(date_and_time::decode_naive_datetime, (&v,), source),
        call_ensures(date_and_time::timestamp_read, (&v, julian), r),
    ensures
        source matches TimestampSource::Stamp(stamp) ==> v@ is Text && (r matches Ok(read)
            && read.parts() == stamp.parts()),
        source matches TimestampSource::JulianDay(bits) ==> v@ == ValueView::Real(bits),
        source matches TimestampSource::JulianDayNumber(n) ==> v@ == ValueView::Integer(n),
        v@ matches ValueView::Real(bits) ==> source == TimestampSource::JulianDay(bits),
        v@ matches ValueView::Integer(n) ==> source == TimestampSource::JulianDayNumber(n),
        v@ is Null || v@ is Blob ==> source is Unreadable,
        source is JulianDay || source is JulianDayNumber ==> (match julian {
            Some(stamp) => r matches Ok(read) && read.parts() == stamp.parts(),
            None => r is Err,
        }),
        source is Unreadable ==> r is Err,
        r matches Err(e) ==> e@ == (ReadErrorView::Temporal { expected: "datetime"@, got: v@ }),
{
}

/// A date and a time are made of their parts where they are of the calendar
/// and of the clock, and a point in time of its timestamp.
pub proof fn dates_and_times_are_made_of_their_parts(
    date: (i32, u32, u32),
    time: (u32, u32, u32, u32),
    stamp: NaiveDateTime,
    made_date: Option<NaiveDate>,
    made_time: Option<NaiveTime>,
    point: UtcDateTime,
)
    requires
        call_ensures(NaiveDate::new, date, made_date),
        call_ensures(NaiveTime::new, time, made_time),
        call_ensures(date_and_time::utc_from_timestamp, (stamp,), point),
    ensures
        made_date is Some <==> -262143 <= date.0 <= 262142 && 1 <= date.1 <= 12 && 1 <= date.2
            <= date_and_time::days_in(date.0 as int, date.1 as int),
        made_date matches Some(d) ==> d.parts() == date,
        made_time is Some <==> date_and_time::valid_time(time),
        made_time matches Some(t) ==> t.parts() == time,
        point.utc == stamp,
{
}

/// The scalar functions have their own names, and their arguments in order.
pub proof fn scalar_functions_have_their_names<
    ST,
    A: Expression<SqlType = ST> + QueryFragment,
    B: Expression<SqlType = ST> + QueryFragment,
>(a: A, b: B, larger: Call<A, B, ST>, smaller: Call<A, B, ST>)
    requires
        call_ensures(expr::max2::<ST, A, B>, (a, b), larger),
        call_ensures(expr::min2::<ST, A, B>, (a, b), smaller),
    ensures
        larger.sql() == "max"@ + "("@ + a.sql() + ", "@ + b.sql() + ")"@,
        smaller.sql() == "min"@ + "("@ + a.sql() + ", "@ + b.sql() + ")"@,
        larger.binds() == query::chained(a.binds(), b.binds()),
        smaller.binds() == query::chained(a.binds(), b.binds()),
{
}

/// A UUID is sixteen bytes, and keeps them.
pub proof fn uuids_are_sixteen_bytes(bytes: &[u8], r: Result<Uuid, ReadError>)
    requires
        call_ensures(Uuid::from_slice, (bytes,), r),
    ensures
        r is Ok <==> bytes@.len() == 16,
        r matches Ok(id) ==> id@ == bytes@,
        r matches Err(e) ==> e@ == ReadErrorView::UuidLength(bytes@.len()),
{
}

/// A number takes one byte to seven bits, and nine at most.
pub proof fn varints_take_a_byte_to_seven_bits(v: u64, n: u64)
    requires
        call_ensures(wire::varint_len, (v,), n),
    ensures
        n == wire::varint(v as nat).len(),
        1 <= n <= 9,
        v < 0x80 ==> n == 1,
        v >= 0x100_0000_0000_0000 <==> n == 9,
{
    wire::varint_has_its_width(v as nat);
}

/// The storage class that each SQL type is told to have.
pub proof fn sql_types_have_their_classes(
    a: TursoType,
    b: TursoType,
    c: TursoType,
    d: TursoType,
    e: TursoType,
    f: TursoType,
    g: TursoType,
    h: TursoType,
    i: TursoType,
    j: TursoType,
    k: TursoType,
    l: TursoType,
)
    requires
        call_ensures(<Turso as HasSqlType<sql_types::SmallInt>>::metadata, (), a),
        call_ensures(<Turso as HasSqlType<sql_types::Integer>>::metadata, (), b),
        call_ensures(<Turso as HasSqlType<sql_types::BigInt>>::metadata, (), c),
        call_ensures(<Turso as HasSqlType<sql_types::Bool>>::metadata, (), d),
        call_ensures(<Turso as HasSqlType<sql_types::Float>>::metadata, (), e),
        call_ensures(<Turso as HasSqlType<sql_types::Double>>::metadata, (), f),
        call_ensures(<Turso as HasSqlType<sql_types::Text>>::metadata, (), g),
        call_ensures(<Turso as HasSqlType<sql_types::Binary>>::metadata, (), h),
        call_ensures(<Turso as HasSqlType<sql_types::Date>>::metadata, (), i),
        call_ensures(<Turso as HasSqlType<sql_types::Time>>::metadata, (), j),
        call_ensures(<Turso as HasSqlType<sql_types::Timestamp>>::metadata, (), k),
        call_ensures(<Turso as HasSqlType<sql_types::Timestamptz>>::metadata, (), l),
    ensures
        a == TursoType::Integer && b == TursoType::Integer && c == TursoType::Integer && d
            == TursoType::Integer,
        e == TursoType::Real && f == TursoType::Real,
        g == TursoType::Text && i == TursoType::Text && j == TursoType::Text && k == TursoType::Text
            && l == TursoType::Text,
        h == TursoType::Binary,
{
}

/// The elements of a packed list are decoded by the class of their type.
pub proof fn elements_are_decoded_by_class<ST>(class: TursoType, sql: Option<&'static str>) where
    Turso: HasSqlType<ST>,

    requires
        call_ensures(<Turso as HasSqlType<ST>>::metadata, (), class),
        call_ensures(array_comparison::decode_expr::<ST>, (), sql),
    ensures
        class == TursoType::Integer ==> (sql matches Some(s) && s@ == "value"@),
        class == TursoType::Binary ==> (sql matches Some(s) && s@ == "unhex(value)"@),
        class == TursoType::Text ==> (sql matches Some(s) && s@ == "CAST(unhex(value) AS TEXT)"@),
        class == TursoType::Real || class == TursoType::Null ==> sql is None,
{
}

/// What a reader gets of a cell of a whole number is bound as the same number.
pub proof fn whole_numbers_are_bound_as_they_were_read(
    x: i64,
    buffer: Option<MysqlBuffer>,
    bytes: Vec<u8>,
    r: Result<MysqlCell, QueryError>,
)
    requires
        call_ensures(row::to_buffer, (&MysqlCell::Int(x),), buffer),
        buffer matches Some(b) && b@ == BufferView::Bytes(bytes@),
        call_ensures(
            serialize::to_value,
            (MysqlType::LongLong, Some(MysqlBind::Bytes(bytes)), ByteOrder::LittleEndian),
            r,
        ),
    ensures
        bytes@.len() == 8,
        r == Ok::<_, QueryError>(MysqlCell::Int(x)),
{
    row::numbers_are_spelled_by_their_bytes(MysqlCell::Int(x));
    serialize::types_have_their_forms(MysqlType::LongLong, bytes, arbitrary());
    serialize::integers_read_back(MysqlCell::Int(x), bytes);
}

/// A column can come in a result exactly where it is of a type that readers
/// know.
pub proof fn known_columns_can_come(column_type: ColumnType, yes: bool)
    requires
        call_ensures(row::can_convert, (column_type,), yes),
    ensures
        !yes <==> column_type is Null || column_type is NewDate || column_type is VarChar
            || column_type is Timestamp2 || column_type is DateTime2 || column_type is Time2
            || column_type is TypedArray || column_type is Vector || column_type is Unknown
            || column_type is EnumType || column_type is SetType || column_type is Geometry,
{
    assert(yes == (row::type_of_column(column_type, 0) is Some));
}

/// Two texts are the same where they have the same characters, and a text
/// holds another where it is made of it and what stands on either side.
pub proof fn texts_are_compared_by_their_characters(
    a: &str,
    b: &str,
    same: bool,
    part: &str,
    before: Seq<char>,
    after: Seq<char>,
    held: bool,
)
    requires
        call_ensures(text::same_text, (a, b), same),
        call_ensures(text::contains_text, (a, part), held),
    ensures
        same <==> a@ == b@,
        a@ == before + part@ + after ==> held,
        held ==> a@.len() >= part@.len(),
{
    if a@ == before + part@ + after {
        let n = before.len() as int;
        assert(a@.subrange(n, n + part@.len()) =~= part@);
        assert(text::stands_at(a@, part@, n));
    }
}

/// ASCII letters are compared without their case, and everything else by
/// itself.
pub proof fn letters_are_compared_without_their_case(a: char, b: char, same: bool)
    requires
        call_ensures(text::eq_ignore_ascii_case, (a, b), same),
    ensures
        a == b ==> same,
        same && a != b ==> {
            let (x, y) = (a as u32, b as u32);
            &&& x == y + 32 || y == x + 32
            &&& 'a' <= a <= 'z' || 'A' <= a <= 'Z'
            &&& 'a' <= b <= 'z' || 'A' <= b <= 'Z'
        },
        'A' <= a <= 'Z' && b as u32 == a as u32 + 32 ==> same,
{
}

/// A date is read in its one form, and a timestamp and a time where one of
/// their forms reads them, and as what it reads.
pub proof fn dates_and_times_are_read_in_their_forms(
    given: &str,
    date: Option<NaiveDate>,
    time: Option<NaiveTime>,
    stamp: Option<NaiveDateTime>,
    separator: char,
    clock: Seq<char>,
    short: Seq<char>,
    zone: Seq<char>,
)
    requires
        call_ensures(date_and_time::parse_date, (given,), date),
        call_ensures(date_and_time::parse_time, (given,), time),
        call_ensures(date_and_time::parse_naive_datetime, (given,), stamp),
        date_and_time::is_separator(separator),
        date_and_time::is_clock_format(clock),
        date_and_time::is_time_format(short),
        date_and_time::is_zone_format(zone),
    ensures
        match date {
            Some(d) => date_and_time::parsed_date(given@, "%F"@) == Some(d.parts()),
            None => date_and_time::parsed_date(given@, "%F"@) is None,
        },
        date_and_time::parsed_time(given@, short + zone) is Some ==> time is Some,
        time matches Some(t) ==> exists|format: Seq<char>|
            date_and_time::is_clock_and_zone(format) && #[trigger] date_and_time::parsed_time(
                given@,
                format,
            ) == Some(t.parts()),
        date_and_time::parsed_timestamp(
            given@,
            date_and_time::iso_format(separator, clock, zone),
        ) is Some ==> stamp is Some,
        stamp matches Some(s) ==> exists|format: Seq<char>|
            date_and_time::is_iso_format(format) && #[trigger] date_and_time::parsed_timestamp(
                given@,
                format,
            ) == Some(s.parts()),
{
    date_and_time::times_are_what_a_form_reads(given@, short, zone);
    date_and_time::timestamps_are_what_an_iso_form_reads(given@, separator, clock, zone);
}

/// A point in time is the same however its nanoseconds are carried into its
/// seconds.
pub proof fn points_in_time_do_not_depend_on_carrying(
    seconds: i64,
    nanoseconds: i64,
    stamp: Option<NaiveDateTime>,
    more: i64,
    rest: i64,
    other: Option<NaiveDateTime>,
)
    requires
        call_ensures(date_and_time::naive_from_unix, (seconds, nanoseconds), stamp),
        call_ensures(date_and_time::naive_from_unix, (more, rest), other),
        seconds * 1_000_000_000 + nanoseconds == more * 1_000_000_000 + rest,
    ensures
        stamp is Some <==> other is Some,
        stamp is Some ==> stamp->0.parts() == other->0.parts(),
        0 <= nanoseconds < 1_000_000_000 ==> (match stamp {
            Some(s) => date_and_time::unix_timestamp(seconds, nanoseconds as u32) == Some(s.parts()),
            None => date_and_time::unix_timestamp(seconds, nanoseconds as u32) is None,
        }),
{
    date_and_time::carrying_keeps_the_point_in_time(seconds, nanoseconds);
    date_and_time::carrying_keeps_the_point_in_time(more, rest);
}

/// Binds are handed to the driver as their bytes spell them in the machine's
/// order.
pub proof fn binds_are_handed_over_in_the_machines_order(
    bytes: Vec<u8>,
    order: ByteOrder,
    long: Result<MysqlCell, QueryError>,
    unsigned: Result<MysqlCell, QueryError>,
    float: Result<MysqlCell, QueryError>,
    text: Result<MysqlCell, QueryError>,
    null: Result<MysqlCell, QueryError>,
)
    requires
        bytes@.len() == 4,
        call_ensures(
            serialize::to_value,
            (MysqlType::Long, Some(MysqlBind::Bytes(bytes)), order),
            long,
        ),
        call_ensures(
            serialize::to_value,
            (MysqlType::UnsignedLong, Some(MysqlBind::Bytes(bytes)), order),
            unsigned,
        ),
        call_ensures(
            serialize::to_value,
            (MysqlType::Float, Some(MysqlBind::Bytes(bytes)), order),
            float,
        ),
        call_ensures(
            serialize::to_value,
            (MysqlType::String, Some(MysqlBind::Bytes(bytes)), order),
            text,
        ),
        call_ensures(serialize::to_value, (MysqlType::Long, None::<MysqlBind>, order), null),
    ensures
        long == Ok::<_, QueryError>(
            MysqlCell::Int(
                serialize::with_sign(serialize::four_bytes(bytes@, order), 0x1_0000_0000) as i64,
            ),
        ),
        unsigned == Ok::<_, QueryError>(
            MysqlCell::UInt(serialize::four_bytes(bytes@, order) as u64),
        ),
        float == Ok::<_, QueryError>(
            MysqlCell::Float(serialize::four_bytes(bytes@, order) as u32),
        ),
        text == Ok::<_, QueryError>(MysqlCell::Bytes(bytes)),
        null == Ok::<_, QueryError>(MysqlCell::Null),
{
    serialize::binds_are_handed_over_as_their_numbers(bytes, order);
}

/// The parameters of a statement are its binds, one by one and in order, each
/// as it is handed over on its own.
pub proof fn parameters_are_the_binds_in_order(
    helper: ToSqlHelper,
    order: ByteOrder,
    r: Result<Vec<MysqlCell>, QueryError>,
    i: int,
    one: Result<MysqlCell, QueryError>,
)
    requires
        helper.metadata@.len() == helper.binds@.len(),
        forall|k: int|
            0 <= k < helper.binds@.len() ==> serialize::written_as(
                #[trigger] helper.metadata@[k],
                helper.binds@[k],
            ),
        0 <= i < helper.binds@.len(),
        call_ensures(serialize::to_params, (helper, order), r),
        call_ensures(serialize::to_value, (helper.metadata@[i], helper.binds@[i], order), one),
    ensures
        r matches Ok(cells) ==> cells@.len() == helper.binds@.len() && one == Ok::<_, QueryError>(
            cells@[i],
        ),
        one is Err ==> r is Err,
{
    assert(serialize::written_as(helper.metadata@[i], helper.binds@[i]));
    if let Ok(cells) = r {
        assert(serialize::cell_of(helper.metadata@[i], helper.binds@[i], order) == Some(cells@[i]));
    }
}

/// A cell that is NULL is nothing to a reader, and a column's type is that of
/// its flags.
pub proof fn readers_are_told_the_type_of_the_column(
    column_type: ColumnType,
    flags: u16,
    ty: MysqlType,
    null: Option<MysqlBuffer>,
)
    requires
        row::type_of_column(column_type, flags) is Some,
        call_ensures(row::convert_type, (column_type, flags), ty),
        call_ensures(row::to_buffer, (&MysqlCell::Null,), null),
    ensures
        null is None,
        column_type is LongLong ==> ty == (if (flags / 32) % 2 == 1 {
            MysqlType::UnsignedLongLong
        } else {
            MysqlType::LongLong
        }),
        column_type is Blob && (flags / 256) % 2 == 1 ==> ty == MysqlType::EnumType,
        column_type is Json ==> ty == MysqlType::String,
{
    row::integer_columns_keep_width_and_sign(column_type, flags);
    row::flags_are_bits(flags);
}

/// A scalar variant that holds a text is rendered with the name of its tag and
/// the text as it stands.
pub proof fn text_variants_are_rendered(
    tags: &[&str],
    fields: &[&[&str]],
    tag: u8,
    s: String,
    blob: Vec<u8>,
    given: &[u8],
    r: Option<Vec<Piece>>,
)
    requires
        tag < tags@.len(),
        tag < fields@.len(),
        fields@[tag as int]@.len() == 0,
        wire::serial_fits(ValueView::Text(s@)),
        call_ensures(wire::encode_union, (tag, Value::Text(s)), blob),
        given@ == blob@,
        call_ensures(display::render_layout, (tags, fields, given), r),
    ensures
        r matches Some(pieces) && display::spelled(display::glyphs(pieces@)) == "{ type: "@
            + tags@[tag as int]@ + ", "@ + s@ + " }"@,
{
    let layout = schema::Layout {
        tags: schema::texts(tags@),
        fields: schema::field_texts(fields@),
    };
    let v = Value::Text(s);
    assert(v@ == ValueView::Text(s@));
    assert(layout.tags[tag as int] == tags@[tag as int]@);
    assert(layout.fields[tag as int] == schema::texts(fields@[tag as int]@));
    assert(layout.fields[tag as int].len() == 0);
    display::scalar_variants_render(layout, tag, v@);
    let name = tags@[tag as int]@;
    display::lemma_chars_joined("{ type: "@, name);
    display::lemma_chars_joined("{ type: "@ + name, ", "@);
    display::lemma_chars_joined("{ type: "@ + name + ", "@, s@);
    display::lemma_chars_joined("{ type: "@ + name + ", "@ + s@, " }"@);
    display::lemma_spelled("{ type: "@ + name + ", "@ + s@ + " }"@);
}

/// A field is declared by the keyword of the class of its type.
pub proof fn fields_are_declared_by_class<ST>(class: TursoType, keyword: &'static str) where
    Turso: HasSqlType<ST>,

    requires
        call_ensures(<Turso as HasSqlType<ST>>::metadata, (), class),
        call_ensures(field_type::ddl_type_name::<ST>, (), keyword),
    ensures
        class == TursoType::Integer ==> keyword@ == "INT"@,
        class == TursoType::Real ==> keyword@ == "REAL"@,
        class == TursoType::Text ==> keyword@ == "TEXT"@,
        class == TursoType::Binary ==> keyword@ == "BLOB"@,
        class == TursoType::Null ==> keyword@ == "ANY"@,
{
}

/// A database that could not be asked is told of by the engine's message.
pub proof fn unread_databases_are_told_of(e: TursoError, line: String)
    requires
        call_ensures(TypeCheckError::message, (&TypeCheckError::Read(e),), line),
    ensures
        line@ == "reading sqlite_turso_types: "@ + e.message@,
{
}

/// Nothing is decoded of no bytes.
pub proof fn nothing_is_decoded_of_nothing(
    buf: &[u8],
    union: Result<(u8, Value), WireError>,
    record: Result<Vec<Value>, WireError>,
    varint: Result<(u64, usize), WireError>,
)
    requires
        buf@.len() == 0,
        call_ensures(wire::decode_union, (buf,), union),
        call_ensures(wire::decode_record, (buf,), record),
        call_ensures(wire::read_varint, (buf,), varint),
    ensures
        union matches Err(e) && e is UnexpectedEof,
        record matches Err(e) && e is UnexpectedEof,
        varint matches Err(e) && e is UnexpectedEof,
{
}

/// A UUID keeps the bytes that it was made of.
pub proof fn uuids_keep_their_bytes(bytes: [u8; 16], id: Uuid, out: &[u8])
    requires
        call_ensures(Uuid::from_bytes, (bytes,), id),
        call_ensures(Uuid::as_bytes, (&id,), out),
    ensures
        out@ == bytes@,
        out@.len() == 16,
{
}

/// White space and word characters are told apart among the ASCII characters
/// as they look.
pub proof fn ascii_characters_are_what_they_look(c: char, space: bool, word: bool)
    requires
        c as u32 <= 0x7f,
        call_ensures(text::is_whitespace, (c,), space),
        call_ensures(text::is_letter_or_number, (c,), word),
    ensures
        space <==> c == ' ' || '\t' <= c <= '\r',
        word <==> '0' <= c <= '9' || 'A' <= c <= 'Z' || 'a' <= c <= 'z',
{
}

/// A number is appended in decimal, behind what was there.
pub proof fn numbers_are_appended_in_decimal(
    out: &mut String,
    n: u64,
    signed: &mut String,
    i: i64,
)
    requires
        call_ensures(text::push_decimal, (out, n), ()),
        call_ensures(text::push_signed_decimal, (signed, i), ()),
    ensures
        final(out)@.take(old(out)@.len() as int) == old(out)@,
        text::digits_value(final(out)@.skip(old(out)@.len() as int)) == n,
        final(signed)@.take(old(signed)@.len() as int) == old(signed)@,
        i >= 0 ==> text::digits_value(final(signed)@.skip(old(signed)@.len() as int)) == i,
        i < 0 ==> final(signed)@[old(signed)@.len() as int] == '-' && text::digits_value(
            final(signed)@.skip(old(signed)@.len() as int + 1),
        ) == -i,
{
    text::decimals_spell_their_number(n as nat);
    text::signed_decimals_spell_their_number(i as int);
    assert(final(out)@.take(old(out)@.len() as int) =~= old(out)@);
    assert(final(out)@.skip(old(out)@.len() as int) =~= text::decimal(n as nat));
    let number = text::signed_decimal(i as int);
    assert(final(signed)@.take(old(signed)@.len() as int) =~= old(signed)@);
    assert(final(signed)@.skip(old(signed)@.len() as int) =~= number);
    if i < 0 {
        assert(final(signed)@.skip(old(signed)@.len() as int + 1) =~= number.skip(1));
    }
}

/// A date and a time tell the parts that they have, which are of the calendar
/// and of the clock.
pub proof fn dates_and_times_tell_their_parts(
    date: NaiveDate,
    told_date: (i32, u32, u32),
    time: NaiveTime,
    told_time: (u32, u32, u32, u32),
)
    requires
        call_ensures(NaiveDate::to_parts, (&date,), told_date),
        call_ensures(NaiveTime::to_parts, (&time,), told_time),
    ensures
        told_date == date.parts() && told_time == time.parts(),
        1 <= told_date.1 <= 12 && 1 <= told_date.2 <= 31,
        told_time.0 < 24 && told_time.1 < 60 && told_time.2 < 60,
{
}

/// The bit pattern of a number is no NaN, and of a NaN it has every bit of the
/// exponent and one of the fraction at least.
pub proof fn nans_are_told_by_their_bits(bits: u64, nan: bool)
    requires
        call_ensures(value::real_is_nan, (bits,), nan),
    ensures
        nan <==> bits as int % 0x8000_0000_0000_0000 > 0x7ff0_0000_0000_0000,
{
}

/// A bind is handed over only where it has the form of its type: a number its
/// width, and a time a time.
pub proof fn binds_have_the_form_of_their_type(
    metadata: MysqlType,
    bytes: Vec<u8>,
    yes: bool,
    none: bool,
)
    requires
        call_ensures(
            serialize::is_written_as,
            (metadata, &Some(MysqlBind::Bytes(bytes))),
            yes,
        ),
        call_ensures(serialize::is_written_as, (metadata, &None::<MysqlBind>), none),
    ensures
        none,
        metadata is Short || metadata is UnsignedShort ==> yes == (bytes@.len() == 2),
        metadata is Long || metadata is UnsignedLong || metadata is Float ==> yes == (bytes@.len()
            == 4),
        metadata is LongLong || metadata is UnsignedLongLong || metadata is Double ==> yes == (
        bytes@.len() == 8),
        metadata is Tiny || metadata is UnsignedTiny ==> yes == (bytes@.len() >= 1),
        metadata is Time || metadata is Date || metadata is DateTime || metadata is Timestamp
            || metadata is Bit ==> !yes,
        metadata is Numeric || metadata is String || metadata is Blob || metadata is SetType
            || metadata is EnumType ==> yes,
{
}

/// A text is its characters in order, a stretch of them is what stands there,
/// and in lower case an ASCII text has its capitals made small.
pub proof fn texts_are_their_characters(
    s: &str,
    chars: Vec<char>,
    given: &[char],
    from: usize,
    to: usize,
    part: String,
    low: String,
    i: int,
)
    requires
        call_ensures(text::chars_of, (s,), chars),
        given@ == chars@,
        from <= to <= given@.len(),
        call_ensures(text::text_between, (given, from, to), part),
        call_ensures(text::lower_case, (s,), low),
        0 <= i < s@.len(),
    ensures
        chars@ == s@,
        part@ == s@.subrange(from as int, to as int),
        text::is_ascii(s@) ==> low@.len() == s@.len() && low@[i] == (if 'A' <= s@[i] <= 'Z' {
            (s@[i] as u32 + 32) as char
        } else {
            s@[i]
        }),
{
    text::lower_case_is_letter_by_letter(s@, i);
}

/// A reader gets something of every cell but NULL: bytes as they are, and the
/// number that the bytes of a number spell.
pub proof fn cells_are_handed_to_readers(cell: MysqlCell, buffer: Option<MysqlBuffer>)
    requires
        call_ensures(row::to_buffer, (&cell,), buffer),
    ensures
        buffer is None <==> cell is Null,
        cell matches MysqlCell::Bytes(b) ==> buffer->0@ == BufferView::Bytes(b@),
        cell matches MysqlCell::UInt(x) ==> (buffer->0@ matches BufferView::Bytes(b) && b.len() == 8
            && row::le_value(b) == x),
        cell matches MysqlCell::Float(x) ==> (buffer->0@ matches BufferView::Bytes(b) && b.len()
            == 4 && row::le_value(b) == x),
        cell matches MysqlCell::Double(x) ==> (buffer->0@ matches BufferView::Bytes(b) && b.len()
            == 8 && row::le_value(b) == x),
        cell is Date || cell is Time ==> buffer->0@ is Time,
{
    row::numbers_are_spelled_by_their_bytes(cell);
    row::dates_and_spans_keep_their_parts(cell);
}

} // verus!
