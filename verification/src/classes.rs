//! The storage class that a SQL type is declared with is that of what its
//! values are written as, and what is read back from.

use vstd::prelude::*;

use crate::array_comparison;
use crate::array_comparison::JsonList;
use crate::backend::{HasSqlType, Turso, TursoType};
use crate::date_and_time::{NaiveDate, NaiveDateTime, NaiveTime, UtcDateTime};
use crate::deserialize::FromSql;
use crate::error::{ReadErrorView, WriteErrorView};
use crate::serialize::ToSql;
use crate::sql_types;
use crate::sql_types::{
    BigInt, Binary, Bool, Date, Double, Float, Integer, Nullable, SmallInt, TaggedUnion, Text, Time,
    Timestamp, Timestamptz,
};
use crate::types::RealBits;
use crate::union::expr::Composite;
use crate::union::field_type;
use crate::union::field_type::TursoFieldType;
use crate::uuid::Uuid;
use crate::value::ValueView;

verus! {

/// Whether a value is stored in a class.
pub open spec fn stored_in(v: ValueView, class: TursoType) -> bool {
    match v {
        ValueView::Null => class == TursoType::Null,
        ValueView::Integer(_) => class == TursoType::Integer,
        ValueView::Real(_) => class == TursoType::Real,
        ValueView::Text(_) => class == TursoType::Text,
        ValueView::Blob(_) => class == TursoType::Binary,
    }
}

/// Whether something was written, and in a class.
pub open spec fn written_in(written: Result<ValueView, WriteErrorView>, class: TursoType) -> bool {
    written matches Ok(v) && stored_in(v, class)
}

/// Numbers and truth values are written in the class of their SQL types.
pub proof fn numbers_are_written_in_their_class(a: i16, b: i32, c: i64, d: bool, e: RealBits)
    ensures
        written_in(<i16 as ToSql<SmallInt>>::written(&a), <Turso as HasSqlType<SmallInt>>::class_of()),
        written_in(<i32 as ToSql<Integer>>::written(&b), <Turso as HasSqlType<Integer>>::class_of()),
        written_in(<i64 as ToSql<BigInt>>::written(&c), <Turso as HasSqlType<BigInt>>::class_of()),
        written_in(<bool as ToSql<Bool>>::written(&d), <Turso as HasSqlType<Bool>>::class_of()),
        written_in(
            <RealBits as ToSql<Double>>::written(&e),
            <Turso as HasSqlType<Double>>::class_of(),
        ),
        written_in(<RealBits as ToSql<Float>>::written(&e), <Turso as HasSqlType<Float>>::class_of()),
{
}

/// Texts, byte strings, UUIDs and string lists are written in the class of
/// their SQL types.
pub proof fn texts_and_bytes_are_written_in_their_class(
    s: String,
    b: Vec<u8>,
    id: Uuid,
    list: Vec<String>,
)
    ensures
        written_in(<String as ToSql<Text>>::written(&s), <Turso as HasSqlType<Text>>::class_of()),
        written_in(<Vec<u8> as ToSql<Binary>>::written(&b), <Turso as HasSqlType<Binary>>::class_of()),
        written_in(
            <Uuid as ToSql<sql_types::Uuid>>::written(&id),
            <Turso as HasSqlType<sql_types::Uuid>>::class_of(),
        ),
        written_in(
            <Vec<String> as ToSql<Text>>::written(&list),
            <Turso as HasSqlType<Text>>::class_of(),
        ),
{
}

/// Dates and times are written in the class of their SQL types.
pub proof fn dates_and_times_are_written_in_their_class(
    d: NaiveDate,
    t: NaiveTime,
    stamp: NaiveDateTime,
    point: UtcDateTime,
)
    ensures
        written_in(<NaiveDate as ToSql<Date>>::written(&d), <Turso as HasSqlType<Date>>::class_of()),
        written_in(<NaiveTime as ToSql<Time>>::written(&t), <Turso as HasSqlType<Time>>::class_of()),
        written_in(
            <NaiveDateTime as ToSql<Timestamp>>::written(&stamp),
            <Turso as HasSqlType<Timestamp>>::class_of(),
        ),
        written_in(
            <UtcDateTime as ToSql<Timestamptz>>::written(&point),
            <Turso as HasSqlType<Timestamptz>>::class_of(),
        ),
{
}

/// An optional value is written as NULL where there is none, and else as the
/// value is; and its type has the class of the value's.
pub proof fn optional_values_keep_the_class<ST, T: ToSql<ST>>(value: Option<T>) where
    Turso: HasSqlType<ST>,

    ensures
        <Turso as HasSqlType<Nullable<ST>>>::class_of() == <Turso as HasSqlType<ST>>::class_of(),
        value matches Some(inner) ==> <Option<T> as ToSql<Nullable<ST>>>::written(&value)
            == inner.written(),
        value is None ==> <Option<T> as ToSql<Nullable<ST>>>::written(&value) == Ok::<
            _,
            WriteErrorView,
        >(ValueView::Null),
{
}

/// A UNION value and a composite travel as bytes, and a list as the text that
/// it is written as.
pub proof fn packed_values_have_the_class_of_their_packing<E, S, ST, I: ToSql<ST>>(
    list: Vec<I>,
) where Turso: HasSqlType<ST>
    ensures
        <Turso as HasSqlType<TaggedUnion<E>>>::class_of() == TursoType::Binary,
        <Turso as HasSqlType<Composite<S>>>::class_of() == TursoType::Binary,
        <Vec<I> as ToSql<JsonList<ST>>>::written(&list) matches Ok(v) ==> stored_in(
            v,
            <Turso as HasSqlType<JsonList<ST>>>::class_of(),
        ),
{
}

/// A list of plain scalars is never refused.
pub proof fn plain_lists_are_accepted(
    a: Vec<i16>,
    b: Vec<i32>,
    c: Vec<i64>,
    d: Vec<bool>,
    e: Vec<String>,
    f: Vec<Vec<u8>>,
    g: Vec<Uuid>,
)
    ensures
        <Vec<i16> as ToSql<JsonList<SmallInt>>>::written(&a) is Ok,
        <Vec<i32> as ToSql<JsonList<Integer>>>::written(&b) is Ok,
        <Vec<i64> as ToSql<JsonList<BigInt>>>::written(&c) is Ok,
        <Vec<bool> as ToSql<JsonList<Bool>>>::written(&d) is Ok,
        <Vec<String> as ToSql<JsonList<Text>>>::written(&e) is Ok,
        <Vec<Vec<u8>> as ToSql<JsonList<Binary>>>::written(&f) is Ok,
        <Vec<Uuid> as ToSql<JsonList<Binary>>>::written(&g) is Ok,
{
    array_comparison::fitting_lists_are_accepted(
        array_comparison::elements_written::<SmallInt, i16>(a@),
        TursoType::Integer,
    );
    array_comparison::fitting_lists_are_accepted(
        array_comparison::elements_written::<Integer, i32>(b@),
        TursoType::Integer,
    );
    array_comparison::fitting_lists_are_accepted(
        array_comparison::elements_written::<BigInt, i64>(c@),
        TursoType::Integer,
    );
    array_comparison::fitting_lists_are_accepted(
        array_comparison::elements_written::<Bool, bool>(d@),
        TursoType::Integer,
    );
    array_comparison::fitting_lists_are_accepted(
        array_comparison::elements_written::<Text, String>(e@),
        TursoType::Text,
    );
    array_comparison::fitting_lists_are_accepted(
        array_comparison::elements_written::<Binary, Vec<u8>>(f@),
        TursoType::Binary,
    );
    array_comparison::fitting_lists_are_accepted(
        array_comparison::elements_written::<Binary, Uuid>(g@),
        TursoType::Binary,
    );
}

/// The keyword that a field is declared with.
pub open spec fn declared_with<ST>() -> Seq<char> where Turso: HasSqlType<ST> {
    field_type::class_keyword(<Turso as HasSqlType<ST>>::class_of())
}

/// A field is declared with the keyword of the class that it is written in,
/// whether or not it is optional.
pub proof fn fields_are_declared_as_they_are_written()
    ensures
        declared_with::<<i16 as TursoFieldType>::SqlType>() == "INT"@,
        declared_with::<<i32 as TursoFieldType>::SqlType>() == "INT"@,
        declared_with::<<i64 as TursoFieldType>::SqlType>() == "INT"@,
        declared_with::<<bool as TursoFieldType>::SqlType>() == "INT"@,
        declared_with::<<RealBits as TursoFieldType>::SqlType>() == "REAL"@,
        declared_with::<<String as TursoFieldType>::SqlType>() == "TEXT"@,
        declared_with::<<NaiveDate as TursoFieldType>::SqlType>() == "TEXT"@,
        declared_with::<<NaiveTime as TursoFieldType>::SqlType>() == "TEXT"@,
        declared_with::<<NaiveDateTime as TursoFieldType>::SqlType>() == "TEXT"@,
        declared_with::<<UtcDateTime as TursoFieldType>::SqlType>() == "TEXT"@,
        declared_with::<<Vec<u8> as TursoFieldType>::SqlType>() == "BLOB"@,
        declared_with::<<Uuid as TursoFieldType>::SqlType>() == "BLOB"@,
        declared_with::<<Option<i32> as TursoFieldType>::SqlType>() == "INT"@,
        declared_with::<<Option<String> as TursoFieldType>::SqlType>() == "TEXT"@,
        declared_with::<<Option<Vec<u8>> as TursoFieldType>::SqlType>() == "BLOB"@,
        field_type::class_keyword(TursoType::Null) == "ANY"@,
{
}

/// A value of another class than that of its SQL type is not read, and an
/// integer is read where it fits and as itself.
pub proof fn reading_keeps_to_the_class_and_the_range(v: ValueView)
    ensures
        <i16 as FromSql<SmallInt>>::read(v) matches Ok(n) ==> v == ValueView::Integer(n as i64),
        <i32 as FromSql<Integer>>::read(v) matches Ok(n) ==> v == ValueView::Integer(n as i64),
        <i64 as FromSql<BigInt>>::read(v) matches Ok(n) ==> v == ValueView::Integer(n),
        <i16 as FromSql<SmallInt>>::read(v) is Ok <==> (v matches ValueView::Integer(n) && -0x8000 <= n
            <= 0x7fff),
        <i32 as FromSql<Integer>>::read(v) is Ok <==> (v matches ValueView::Integer(n) && -0x8000_0000
            <= n <= 0x7fff_ffff),
        <i64 as FromSql<BigInt>>::read(v) is Ok <==> v is Integer,
        <bool as FromSql<Bool>>::read(v) == Ok::<_, ReadErrorView>(true) <==> (v matches
            ValueView::Integer(n) && n != 0),
        <bool as FromSql<Bool>>::read(v) == Ok::<_, ReadErrorView>(false) <==> v
            == ValueView::Integer(0),
        <String as FromSql<Text>>::read(v) matches Ok(s) ==> v == ValueView::Text(s),
        <String as FromSql<Text>>::read(v) is Ok <==> v is Text,
        <Vec<u8> as FromSql<Binary>>::read(v) matches Ok(b) ==> v == ValueView::Blob(b),
        <Vec<u8> as FromSql<Binary>>::read(v) is Ok <==> v is Blob,
        <Uuid as FromSql<Binary>>::read(v) matches Ok(b) ==> v == ValueView::Blob(b),
        <Uuid as FromSql<Binary>>::read(v) is Ok <==> (v matches ValueView::Blob(b) && b.len() == 16),
        <NaiveDate as FromSql<Date>>::read(v) is Ok ==> v is Text,
        <NaiveTime as FromSql<Time>>::read(v) is Ok ==> v is Text,
        <Vec<String> as FromSql<Text>>::read(v) is Ok ==> v is Text,
{
}

/// A NULL is refused by every type that has no room for it.
pub proof fn nulls_are_refused_where_there_is_no_room()
    ensures
        <i16 as FromSql<SmallInt>>::read_null() is Err,
        <i32 as FromSql<Integer>>::read_null() is Err,
        <i64 as FromSql<BigInt>>::read_null() is Err,
        <bool as FromSql<Bool>>::read_null() is Err,
        <String as FromSql<Text>>::read_null() is Err,
        <Vec<u8> as FromSql<Binary>>::read_null() is Err,
        <Uuid as FromSql<Binary>>::read_null() is Err,
        <NaiveDate as FromSql<Date>>::read_null() is Err,
        <NaiveTime as FromSql<Time>>::read_null() is Err,
        <Vec<String> as FromSql<Text>>::read_null() is Err,
{
}

/// Truth values are written as 0 and 1, and numbers as themselves.
pub proof fn numbers_are_written_as_themselves(a: i16, b: i32, c: i64, d: bool)
    ensures
        <i16 as ToSql<SmallInt>>::written(&a) == Ok::<_, WriteErrorView>(
            ValueView::Integer(a as i64),
        ),
        <i32 as ToSql<Integer>>::written(&b) == Ok::<_, WriteErrorView>(
            ValueView::Integer(b as i64),
        ),
        <i64 as ToSql<BigInt>>::written(&c) == Ok::<_, WriteErrorView>(ValueView::Integer(c)),
        <bool as ToSql<Bool>>::written(&d) == Ok::<_, WriteErrorView>(ValueView::Integer(1))
            <==> d,
        <bool as ToSql<Bool>>::written(&d) == Ok::<_, WriteErrorView>(ValueView::Integer(0))
            <==> !d,
{
}

/// Texts, byte strings, UUIDs and floats are written as themselves.
pub proof fn texts_and_bytes_are_written_as_themselves(
    s: String,
    b: Vec<u8>,
    id: Uuid,
    f: RealBits,
)
    ensures
        <String as ToSql<Text>>::written(&s) == Ok::<_, WriteErrorView>(ValueView::Text(s@)),
        <Vec<u8> as ToSql<Binary>>::written(&b) == Ok::<_, WriteErrorView>(ValueView::Blob(b@)),
        <Uuid as ToSql<Binary>>::written(&id) == Ok::<_, WriteErrorView>(ValueView::Blob(id@)),
        <RealBits as ToSql<Double>>::written(&f) == Ok::<_, WriteErrorView>(ValueView::Real(f.0)),
        <RealBits as ToSql<Float>>::written(&f) == Ok::<_, WriteErrorView>(ValueView::Real(f.0)),
{
}

/// An integer that does not fit is named in the error with the type that it
/// does not fit in, a value of another class with the type that it is not of,
/// and a blob that is no UUID by its length.
pub proof fn misfits_are_named(v: ValueView)
    ensures
        v matches ValueView::Integer(n) ==> {
            &&& !(-0x8000 <= n <= 0x7fff) ==> <i16 as FromSql<SmallInt>>::read(v) == Err::<i16, _>(
                ReadErrorView::OutOfRange { value: n, target: "i16"@ },
            )
            &&& !(-0x8000_0000 <= n <= 0x7fff_ffff) ==> <i32 as FromSql<Integer>>::read(v) == Err::<
                i32,
                _,
            >(ReadErrorView::OutOfRange { value: n, target: "i32"@ })
        },
        v !is Integer ==> {
            &&& <i16 as FromSql<SmallInt>>::read(v) == Err::<i16, _>(
                ReadErrorView::Mismatch { expected: "i16"@, got: v },
            )
            &&& <i32 as FromSql<Integer>>::read(v) == Err::<i32, _>(
                ReadErrorView::Mismatch { expected: "i32"@, got: v },
            )
            &&& <i64 as FromSql<BigInt>>::read(v) == Err::<i64, _>(
                ReadErrorView::Mismatch { expected: "Integer"@, got: v },
            )
            &&& <bool as FromSql<Bool>>::read(v) == Err::<bool, _>(
                ReadErrorView::Mismatch { expected: "Integer(0|1)"@, got: v },
            )
        },
        v !is Text ==> <String as FromSql<Text>>::read(v) == Err::<Seq<char>, _>(
            ReadErrorView::Mismatch { expected: "Text"@, got: v },
        ),
        v !is Blob ==> {
            &&& <Vec<u8> as FromSql<Binary>>::read(v) == Err::<Seq<u8>, _>(
                ReadErrorView::Mismatch { expected: "Blob"@, got: v },
            )
            &&& <Uuid as FromSql<Binary>>::read(v) == Err::<Seq<u8>, _>(
                ReadErrorView::Mismatch { expected: "Blob"@, got: v },
            )
        },
        v matches ValueView::Blob(b) ==> (b.len() != 16 ==> <Uuid as FromSql<Binary>>::read(v)
            == Err::<Seq<u8>, _>(ReadErrorView::UuidLength(b.len()))),
{
}

/// NULL is none of an optional value, and nothing else is: what the inner type
/// reads is some, and what it refuses is refused for the same reason.
pub proof fn optional_values_are_none_of_null_alone<ST, T: FromSql<ST>>(v: ValueView)
    ensures
        <Option<T> as FromSql<Nullable<ST>>>::read_null() == Ok::<Option<T::V>, ReadErrorView>(None),
        T::read(v) matches Ok(x) ==> <Option<T> as FromSql<Nullable<ST>>>::read(v) == Ok::<
            _,
            ReadErrorView,
        >(Some(x)),
        T::read(v) matches Err(e) ==> <Option<T> as FromSql<Nullable<ST>>>::read(v) == Err::<
            Option<T::V>,
            _,
        >(e),
        field_type::field_read::<ST, T>(ValueView::Null) == T::read_null(),
        v !is Null ==> field_type::field_read::<ST, T>(v) == T::read(v),
{
}

/// Borrowed texts and byte strings are written as owned ones are.
pub proof fn borrowed_values_are_written_as_owned_ones(s: &str, t: String, b: &[u8], c: Vec<u8>)
    requires
        s@ == t@,
        b@ == c@,
    ensures
        <str as ToSql<Text>>::written(s) == <String as ToSql<Text>>::written(&t),
        <[u8] as ToSql<Binary>>::written(b) == <Vec<u8> as ToSql<Binary>>::written(&c),
        written_in(<str as ToSql<Text>>::written(s), <Turso as HasSqlType<Text>>::class_of()),
        written_in(<[u8] as ToSql<Binary>>::written(b), <Turso as HasSqlType<Binary>>::class_of()),
{
}

/// A list is bound as the text that its elements come to in the class of
/// their type, or refused for the reason that they are.
pub proof fn lists_are_bound_as_their_text<ST, I: ToSql<ST>>(list: Vec<I>) where
    Turso: HasSqlType<ST>,

    ensures
        ({
            let elements = Seq::new(list@.len(), |i: int| list@[i].written());
            let class = <Turso as HasSqlType<ST>>::class_of();
            match array_comparison::list_json(elements, class) {
                Ok(json) => <Vec<I> as ToSql<JsonList<ST>>>::written(&list) == Ok::<
                    _,
                    WriteErrorView,
                >(ValueView::Text(json)),
                Err(e) => <Vec<I> as ToSql<JsonList<ST>>>::written(&list) == Err::<ValueView, _>(e),
            }
        }),
{
    assert(Seq::new(list@.len(), |i: int| list@[i].written())
        =~= array_comparison::elements_written::<ST, I>(list@));
}

/// The classes that are told of the types that are made of others: that of
/// the value for a nullable one, bytes for a UNION and a composite, and text
/// for a list.
pub proof fn made_up_types_have_their_classes<ST, E, S>(
    inner: TursoType,
    nullable: TursoType,
    union: TursoType,
    composite: TursoType,
    list: TursoType,
) where Turso: HasSqlType<ST>
    requires
        call_ensures(<Turso as HasSqlType<ST>>::metadata, (), inner),
        call_ensures(<Turso as HasSqlType<Nullable<ST>>>::metadata, (), nullable),
        call_ensures(<Turso as HasSqlType<TaggedUnion<E>>>::metadata, (), union),
        call_ensures(<Turso as HasSqlType<Composite<S>>>::metadata, (), composite),
        call_ensures(<Turso as HasSqlType<JsonList<ST>>>::metadata, (), list),
    ensures
        nullable == inner,
        union == TursoType::Binary && composite == TursoType::Binary,
        list == TursoType::Text,
{
}

} // verus!
