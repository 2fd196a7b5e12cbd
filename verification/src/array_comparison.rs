//! `IN (…)` and `NOT IN (…)`: the whole list is bound as one JSON array, which
//! the engine unpacks, so that one SQL text serves a list of any length.
//!
//! Blobs and texts travel as hex inside the JSON. The engine hands back a JSON
//! string with its escapes still in it, and hex has nothing to escape.

use std::marker::PhantomData;

use vstd::prelude::*;
use vstd::utf8::encode_utf8;

use crate::backend::{HasSqlType, Turso, TursoType};
use crate::bind::TursoBindBuffer;
use crate::error::{QueryError, WriteError, WriteErrorView};
use crate::query;
use crate::query::{AstPass, QueryFragment};
use crate::serialize::{IsNull, ToSql};
use crate::text;
use crate::text::push_signed_decimal;
use crate::union::field_type::encode_field;
use crate::value::{Value, ValueView};

verus! {

/// The SQL that turns one row of `json_each` back into a value of the storage
/// class. A float has no exact way through JSON, and NULL is no class to
/// compare with.
pub open spec fn decoding(class: TursoType) -> Option<Seq<char>> {
    match class {
        TursoType::Integer => Some("value"@),
        TursoType::Binary => Some("unhex(value)"@),
        TursoType::Text => Some("CAST(unhex(value) AS TEXT)"@),
        TursoType::Real => None,
        TursoType::Null => None,
    }
}

/// The SQL that decodes one element of a list of the SQL type `ST`.
pub fn decode_expr<ST>() -> (sql: Option<&'static str>) where Turso: HasSqlType<ST>
    ensures
        match decoding(<Turso as HasSqlType<ST>>::class_of()) {
            Some(s) => sql matches Some(r) && r@ == s,
            None => sql is None,
        },
{
    match <Turso as HasSqlType<ST>>::metadata() {
        TursoType::Integer => Some("value"),
        TursoType::Binary => Some("unhex(value)"),
        TursoType::Text => Some("CAST(unhex(value) AS TEXT)"),
        TursoType::Real => None,
        TursoType::Null => None,
    }
}

/// The SQL type that a whole list of elements of type `ST` is bound as.
#[derive(Debug)]
pub struct JsonList<ST>(PhantomData<ST>);

impl<ST> Copy for JsonList<ST> {

}

impl<ST> Clone for JsonList<ST> {
    fn clone(&self) -> (same: Self)
        ensures
            same == *self,
    {
        *self
    }
}

/// The list is bound as text, whatever its elements are.
impl<ST> HasSqlType<JsonList<ST>> for Turso {
    open spec fn class_of() -> TursoType {
        TursoType::Text
    }

    fn metadata() -> (class: TursoType) {
        TursoType::Text
    }
}

// ---------------------------------------------------------------------------
// The JSON
// ---------------------------------------------------------------------------

/// The hex digit of a number below sixteen, in lower case.
pub open spec fn hex_digit(n: nat) -> char {
    if n < 10 {
        (48 + n) as char
    } else {
        (87 + n) as char
    }
}

/// Bytes in hex, two digits each.
pub open spec fn hex(bytes: Seq<u8>) -> Seq<char> {
    Seq::new(
        2 * bytes.len(),
        |i: int|
            if i % 2 == 0 {
                hex_digit((bytes[i / 2] / 16) as nat)
            } else {
                hex_digit((bytes[i / 2] % 16) as nat)
            },
    )
}

fn hex_char(n: u8) -> (c: char)
    requires
        n < 16,
    ensures
        c == hex_digit(n as nat),
{
    if n < 10 {
        (48 + n) as char
    } else {
        (87 + n) as char
    }
}

/// Appends bytes in hex.
fn push_hex(out: &mut String, bytes: &[u8])
    ensures
        final(out)@ == old(out)@ + hex(bytes@),
{
    let ghost head = out@;
    let mut i: usize = 0;
    assert(out@ =~= head + hex(bytes@.take(0)));
    while i < bytes.len()
        invariant
            i <= bytes@.len(),
            out@ == head + hex(bytes@.take(i as int)),
        decreases bytes@.len() - i,
    {
        let b: u8 = bytes[i];
        out.push(hex_char(b / 16));
        out.push(hex_char(b % 16));
        i = i + 1;
        assert(out@ =~= head + hex(bytes@.take(i as int)));
    }
    assert(bytes@.take(bytes@.len() as int) =~= bytes@);
}

/// An element of the list in JSON. One whose storage class is not the promised
/// one would be decoded wrongly, so it is an error.
pub open spec fn element_json(
    written: Result<ValueView, WriteErrorView>,
    class: TursoType,
) -> Result<Seq<char>, WriteErrorView> {
    match written {
        Err(e) => Err(e),
        Ok(got) => match (got, class) {
            (ValueView::Null, _) => Ok("null"@),
            (ValueView::Integer(n), TursoType::Integer) => Ok(text::signed_decimal(n as int)),
            (ValueView::Blob(b), TursoType::Binary) => Ok(seq!['"'] + hex(b) + seq!['"']),
            (ValueView::Text(s), TursoType::Text) => Ok(
                seq!['"'] + hex(encode_utf8(s)) + seq!['"'],
            ),
            _ => Err(WriteErrorView::ListElement { got, class }),
        },
    }
}

/// The first `n` elements in JSON, with commas between them, or the first
/// error among them.
pub open spec fn elements_json(
    elements: Seq<Result<ValueView, WriteErrorView>>,
    class: TursoType,
    n: int,
) -> Result<Seq<char>, WriteErrorView>
    decreases n,
{
    if n <= 0 {
        Ok(Seq::empty())
    } else {
        match elements_json(elements, class, n - 1) {
            Err(e) => Err(e),
            Ok(before) => match element_json(elements[n - 1], class) {
                Err(e) => Err(e),
                Ok(last) => Ok(
                    if n == 1 {
                        last
                    } else {
                        before + seq![','] + last
                    },
                ),
            },
        }
    }
}

/// A list as a JSON array.
pub open spec fn list_json(
    elements: Seq<Result<ValueView, WriteErrorView>>,
    class: TursoType,
) -> Result<Seq<char>, WriteErrorView> {
    match elements_json(elements, class, elements.len() as int) {
        Ok(inner) => Ok(seq!['['] + inner + seq![']']),
        Err(e) => Err(e),
    }
}

/// What the elements of a list write.
pub open spec fn elements_written<ST, I: ToSql<ST>>(values: Seq<I>) -> Seq<
    Result<ValueView, WriteErrorView>,
> {
    Seq::new(values.len(), |i: int| values[i].written())
}

proof fn lemma_error_stays(
    elements: Seq<Result<ValueView, WriteErrorView>>,
    class: TursoType,
    n: int,
    m: int,
)
    requires
        n <= m,
        elements_json(elements, class, n) is Err,
    ensures
        elements_json(elements, class, m) == elements_json(elements, class, n),
    decreases m - n,
{
    if n < m {
        lemma_error_stays(elements, class, n, m - 1);
    }
}

/// Appends one element in JSON.
fn push_element(out: &mut String, got: Value, class: TursoType) -> (r: Result<(), WriteError>)
    ensures
        match element_json(Ok(got@), class) {
            Ok(json) => r is Ok && final(out)@ == old(out)@ + json,
            Err(e) => r matches Err(reason) && reason@ == e,
        },
{
    match (got, class) {
        (Value::Null, _) => {
            out.append("null");
            Ok(())
        },
        (Value::Integer(n), TursoType::Integer) => {
            push_signed_decimal(out, n);
            Ok(())
        },
        (Value::Blob(bytes), TursoType::Binary) => {
            out.push('"');
            push_hex(out, bytes.as_slice());
            out.push('"');
            assert(out@ =~= old(out)@ + (seq!['"'] + hex(bytes@) + seq!['"']));
            Ok(())
        },
        (Value::Text(s), TursoType::Text) => {
            out.push('"');
            push_hex(out, s.as_str().as_bytes());
            out.push('"');
            assert(out@ =~= old(out)@ + (seq!['"'] + hex(encode_utf8(s@)) + seq!['"']));
            Ok(())
        },
        (other, _) => Err(WriteError::ListElement { got: other, class }),
    }
}

impl<ST, I: ToSql<ST>> ToSql<JsonList<ST>> for Vec<I> where Turso: HasSqlType<ST> {
    open spec fn written(&self) -> Result<ValueView, WriteErrorView> {
        match list_json(
            elements_written::<ST, I>(self@),
            <Turso as HasSqlType<ST>>::class_of(),
        ) {
            Ok(json) => Ok(ValueView::Text(json)),
            Err(e) => Err(e),
        }
    }

    /// Writes the list whole, or leaves `out` as it was.
    fn to_sql(&self, out: &mut TursoBindBuffer) -> (r: Result<IsNull, WriteError>)
        ensures
            r is Ok ==> r->Ok_0 is No,
            r is Err ==> final(out)@ == old(out)@,
    {
        let class: TursoType = <Turso as HasSqlType<ST>>::metadata();
        let ghost elements = elements_written::<ST, I>(self@);
        let mut json: String = String::new();
        json.push('[');
        assert(json@ =~= seq!['['] + Seq::<char>::empty());
        let mut i: usize = 0;
        while i < self.len()
            invariant
                i <= self@.len(),
                elements == elements_written::<ST, I>(self@),
                elements_json(elements, class, i as int) matches Ok(inner) && json@ == seq!['[']
                    + inner,
                class == <Turso as HasSqlType<ST>>::class_of(),
            decreases self@.len() - i,
        {
            let ghost before = elements_json(elements, class, i as int)->Ok_0;
            if i > 0 {
                json.push(',');
            }
            let ghost head = json@;
            assert(elements[i as int] == self@[i as int].written());
            let written: Result<(), WriteError> = match encode_field::<ST, I>(&self[i]) {
                Ok(got) => push_element(&mut json, got, class),
                Err(e) => Err(e),
            };
            match written {
                Ok(_) => {
                    assert(element_json(elements[i as int], class) is Ok);
                    let ghost last = element_json(elements[i as int], class)->Ok_0;
                    assert(json@ == head + last);
                    assert(json@ =~= seq!['['] + elements_json(elements, class, i + 1)->Ok_0);
                },
                Err(e) => {
                    assert(elements_json(elements, class, i + 1) == Err::<Seq<char>, _>(e@));
                    proof {
                        lemma_error_stays(elements, class, i + 1, elements.len() as int);
                    }
                    return Err(e);
                },
            }
            i = i + 1;
        }
        json.push(']');
        assert(json@ =~= list_json(elements, class)->Ok_0);
        out.set_value(TursoBindBuffer::from(json));
        Ok(IsNull::No)
    }
}

// ---------------------------------------------------------------------------
// The comparison
// ---------------------------------------------------------------------------

/// What may stand behind `IN`.
pub trait InExpression {
    type SqlType;

    /// Whether it is a list of values, and has none.
    spec fn empty(&self) -> bool;

    /// Whether its elements are arrays themselves.
    spec fn array(&self) -> bool;

    /// Whether it is a list of values, and has none.
    fn is_empty(&self) -> (yes: bool)
        ensures
            yes == self.empty(),
    ;

    /// Whether its elements are arrays themselves.
    fn is_array(&self) -> (yes: bool)
        ensures
            yes == self.array(),
    ;
}

/// A list of values of the SQL type `ST`.
#[derive(Debug)]
pub struct Many<ST, I> {
    pub values: Vec<I>,
    pub sql_type: PhantomData<ST>,
}

/// A list of values of the SQL type `ST`.
pub fn many<ST, I: ToSql<ST>>(values: Vec<I>) -> (list: Many<ST, I>)
    ensures
        list.values == values,
{
    Many { values, sql_type: PhantomData }
}

impl<ST, I> InExpression for Many<ST, I> {
    type SqlType = ST;

    open spec fn empty(&self) -> bool {
        self.values@.len() == 0
    }

    open spec fn array(&self) -> bool {
        false
    }

    fn is_empty(&self) -> (yes: bool) {
        self.values.len() == 0
    }

    fn is_array(&self) -> (yes: bool) {
        false
    }
}

/// The placeholders of `n` binds, with commas between them.
pub open spec fn placeholders(n: int) -> Seq<char>
    decreases n,
{
    if n <= 0 {
        Seq::empty()
    } else if n == 1 {
        seq!['?']
    } else {
        placeholders(n - 1) + ", "@ + seq!['?']
    }
}

/// The binds of the first `n` elements, or the first error among them.
pub open spec fn element_binds(elements: Seq<Result<ValueView, WriteErrorView>>, n: int) -> Result<
    Seq<ValueView>,
    WriteErrorView,
>
    decreases n,
{
    if n <= 0 {
        Ok(Seq::empty())
    } else {
        match element_binds(elements, n - 1) {
            Err(e) => Err(e),
            Ok(before) => match elements[n - 1] {
                Err(e) => Err(e),
                Ok(v) => Ok(before.push(v)),
            },
        }
    }
}

proof fn lemma_bind_error_stays(
    elements: Seq<Result<ValueView, WriteErrorView>>,
    n: int,
    m: int,
)
    requires
        n <= m,
        element_binds(elements, n) is Err,
    ensures
        element_binds(elements, m) == element_binds(elements, n),
    decreases m - n,
{
    if n < m {
        lemma_bind_error_stays(elements, n, m - 1);
    }
}

impl<ST, I: ToSql<ST>> Many<ST, I> {
    /// One placeholder for each element. The text is another for every length,
    /// so nothing bounds it.
    fn walk_ansi_ast(&self, out: &mut AstPass) -> (r: Result<(), QueryError>)
        ensures
            match element_binds(
                elements_written::<ST, I>(self.values@),
                self.values@.len() as int,
            ) {
                Ok(binds) => r is Ok && final(out)@ == old(out)@.with(
                    placeholders(self.values@.len() as int),
                    binds,
                    false,
                ),
                Err(e) => r matches Err(QueryError::SerializationError(reason)) && reason@ == e,
            },
    {
        out.unsafe_to_cache_prepared();
        let ghost elements = elements_written::<ST, I>(self.values@);
        assert(out@ =~= old(out)@.with(placeholders(0), Seq::empty(), false));
        let mut i: usize = 0;
        while i < self.values.len()
            invariant
                i <= self.values@.len(),
                elements == elements_written::<ST, I>(self.values@),
                element_binds(elements, i as int) matches Ok(binds) && out@ == old(out)@.with(
                    placeholders(i as int),
                    binds,
                    false,
                ),
            decreases self.values@.len() - i,
        {
            if i > 0 {
                out.push_sql(", ");
            }
            assert(elements[i as int] == self.values@[i as int].written());
            match out.push_bind_param::<ST, I>(&self.values[i]) {
                Ok(_) => {},
                Err(e) => {
                    proof {
                        lemma_bind_error_stays(elements, i + 1, elements.len() as int);
                    }
                    return Err(e);
                },
            }
            i = i + 1;
            assert(out@ =~= old(out)@.with(
                placeholders(i as int),
                element_binds(elements, i as int)->Ok_0,
                false,
            ));
        }
        Ok(())
    }
}

/// The inside of the parentheses: a subquery with one bind, where the storage
/// class has a decoding, and else one placeholder for each element.
impl<ST, I: ToSql<ST>> QueryFragment for Many<ST, I> where Turso: HasSqlType<ST> {
    open spec fn sql(&self) -> Seq<char> {
        match decoding(<Turso as HasSqlType<ST>>::class_of()) {
            Some(decode) => "SELECT "@ + decode + " FROM json_each("@ + seq!['?'] + ")"@,
            None => placeholders(self.values@.len() as int),
        }
    }

    open spec fn binds(&self) -> Result<Seq<ValueView>, WriteErrorView> {
        let class = <Turso as HasSqlType<ST>>::class_of();
        let elements = elements_written::<ST, I>(self.values@);
        if decoding(class) is Some {
            match list_json(elements, class) {
                Ok(json) => Ok(seq![ValueView::Text(json)]),
                Err(e) => Err(e),
            }
        } else {
            element_binds(elements, elements.len() as int)
        }
    }

    open spec fn cacheable(&self) -> bool {
        decoding(<Turso as HasSqlType<ST>>::class_of()) is Some
    }

    fn walk_ast(&self, out: &mut AstPass) -> (r: Result<(), QueryError>) {
        match decode_expr::<ST>() {
            Some(decode) => {
                if self.is_array() {
                    return self.walk_ansi_ast(out);
                }
                out.push_sql("SELECT ");
                out.push_sql(decode);
                out.push_sql(" FROM json_each(");
                match out.push_bind_param::<JsonList<ST>, Vec<I>>(&self.values) {
                    Ok(_) => {},
                    Err(e) => {
                        return Err(e);
                    },
                }
                out.push_sql(")");
                assert(out@ =~= old(out)@.with(self.sql(), self.binds()->Ok_0, true));
                Ok(())
            },
            None => self.walk_ansi_ast(out),
        }
    }
}

/// A query behind `IN`, which is rendered as it stands.
#[derive(Debug)]
pub struct Subselect<ST, Q> {
    pub query: Q,
    pub sql_type: PhantomData<ST>,
}

/// A query that selects values of the SQL type `ST`.
pub fn subselect<ST, Q: QueryFragment>(query: Q) -> (values: Subselect<ST, Q>)
    ensures
        values.query == query,
{
    Subselect { query, sql_type: PhantomData }
}

impl<ST, Q> InExpression for Subselect<ST, Q> {
    type SqlType = ST;

    open spec fn empty(&self) -> bool {
        false
    }

    open spec fn array(&self) -> bool {
        false
    }

    fn is_empty(&self) -> (yes: bool) {
        false
    }

    fn is_array(&self) -> (yes: bool) {
        false
    }
}

impl<ST, Q: QueryFragment> QueryFragment for Subselect<ST, Q> {
    open spec fn sql(&self) -> Seq<char> {
        self.query.sql()
    }

    open spec fn binds(&self) -> Result<Seq<ValueView>, WriteErrorView> {
        self.query.binds()
    }

    open spec fn cacheable(&self) -> bool {
        self.query.cacheable()
    }

    fn walk_ast(&self, out: &mut AstPass) -> (r: Result<(), QueryError>) {
        self.query.walk_ast(out)
    }
}

/// Whether a comparison is left to a constant: the list is empty, and there is
/// no subquery that could be empty in its place.
pub open spec fn is_constant<U: InExpression>(values: U) -> bool where Turso: HasSqlType<U::SqlType>
{
    values.empty() && (values.array() || decoding(
        <Turso as HasSqlType<U::SqlType>>::class_of(),
    ) is None)
}

/// Whether a comparison is left to a constant.
fn compares_with_constant<U: InExpression>(values: &U) -> (yes: bool) where
    Turso: HasSqlType<U::SqlType>,

    ensures
        yes == is_constant(*values),
{
    values.is_empty() && (values.is_array() || decode_expr::<U::SqlType>().is_none())
}

/// `left IN (values)`.
#[derive(Debug)]
pub struct In<T, U> {
    pub left: T,
    pub values: U,
}

/// `left NOT IN (values)`.
#[derive(Debug)]
pub struct NotIn<T, U> {
    pub left: T,
    pub values: U,
}

impl<T: QueryFragment, U: QueryFragment + InExpression> QueryFragment for In<T, U> where
    Turso: HasSqlType<U::SqlType>,
 {
    open spec fn sql(&self) -> Seq<char> {
        if is_constant(self.values) {
            "1=0"@
        } else {
            self.left.sql() + " IN ("@ + self.values.sql() + ")"@
        }
    }

    open spec fn binds(&self) -> Result<Seq<ValueView>, WriteErrorView> {
        if is_constant(self.values) {
            query::no_binds()
        } else {
            query::chained(self.left.binds(), self.values.binds())
        }
    }

    open spec fn cacheable(&self) -> bool {
        is_constant(self.values) || (self.left.cacheable() && self.values.cacheable())
    }

    fn walk_ast(&self, out: &mut AstPass) -> (r: Result<(), QueryError>) {
        if compares_with_constant(&self.values) {
            out.push_sql("1=0");
            return Ok(());
        }
        match self.left.walk_ast(out) {
            Ok(_) => {},
            Err(e) => {
                return Err(e);
            },
        }
        out.push_sql(" IN (");
        match self.values.walk_ast(out) {
            Ok(_) => {},
            Err(e) => {
                return Err(e);
            },
        }
        out.push_sql(")");
        assert(out@ =~= old(out)@.with(self.sql(), self.binds()->Ok_0, self.cacheable()));
        Ok(())
    }
}

impl<T: QueryFragment, U: QueryFragment + InExpression> QueryFragment for NotIn<T, U> where
    Turso: HasSqlType<U::SqlType>,
 {
    open spec fn sql(&self) -> Seq<char> {
        if is_constant(self.values) {
            "1=1"@
        } else {
            self.left.sql() + " NOT IN ("@ + self.values.sql() + ")"@
        }
    }

    open spec fn binds(&self) -> Result<Seq<ValueView>, WriteErrorView> {
        if is_constant(self.values) {
            query::no_binds()
        } else {
            query::chained(self.left.binds(), self.values.binds())
        }
    }

    open spec fn cacheable(&self) -> bool {
        is_constant(self.values) || (self.left.cacheable() && self.values.cacheable())
    }

    fn walk_ast(&self, out: &mut AstPass) -> (r: Result<(), QueryError>) {
        if compares_with_constant(&self.values) {
            out.push_sql("1=1");
            return Ok(());
        }
        match self.left.walk_ast(out) {
            Ok(_) => {},
            Err(e) => {
                return Err(e);
            },
        }
        out.push_sql(" NOT IN (");
        match self.values.walk_ast(out) {
            Ok(_) => {},
            Err(e) => {
                return Err(e);
            },
        }
        out.push_sql(")");
        assert(out@ =~= old(out)@.with(self.sql(), self.binds()->Ok_0, self.cacheable()));
        Ok(())
    }
}

// ---------------------------------------------------------------------------
// Laws
// ---------------------------------------------------------------------------

/// A character that a list's JSON is made of. None of them is ever escaped.
pub open spec fn plain(c: char) -> bool {
    c == '[' || c == ']' || c == ',' || c == '"' || c == '-' || '0' <= c <= '9' || 'a' <= c <= 'z'
}

proof fn lemma_element(written: Result<ValueView, WriteErrorView>, class: TursoType)
    requires
        element_json(written, class) is Ok,
    ensures
        element_json(written, class)->Ok_0.len() > 0,
        forall|i: int|
            0 <= i < element_json(written, class)->Ok_0.len() ==> plain(
                #[trigger] element_json(written, class)->Ok_0[i],
            ) && element_json(written, class)->Ok_0[i] != ',',
{
    reveal_strlit("null");
    if let Ok(ValueView::Integer(n)) = written {
        text::decimals_are_digits(
            (if n < 0 {
                -n
            } else {
                n as int
            }) as nat,
        );
    }
}

proof fn lemma_elements_plain(
    elements: Seq<Result<ValueView, WriteErrorView>>,
    class: TursoType,
    n: int,
)
    requires
        elements_json(elements, class, n) is Ok,
    ensures
        forall|i: int|
            0 <= i < elements_json(elements, class, n)->Ok_0.len() ==> plain(
                #[trigger] elements_json(elements, class, n)->Ok_0[i],
            ),
    decreases n,
{
    if n > 0 {
        lemma_elements_plain(elements, class, n - 1);
        lemma_element(elements[n - 1], class);
    }
}

/// A list's JSON holds no character that would have to be escaped.
pub proof fn lists_have_nothing_to_escape(
    elements: Seq<Result<ValueView, WriteErrorView>>,
    class: TursoType,
)
    ensures
        list_json(elements, class) matches Ok(json) ==> forall|i: int|
            0 <= i < json.len() ==> plain(#[trigger] json[i]),
{
    if list_json(elements, class) is Ok {
        lemma_elements_plain(elements, class, elements.len() as int);
    }
}

/// Bytes can be told from their hex.
pub proof fn hex_is_injective(a: Seq<u8>, b: Seq<u8>)
    requires
        hex(a) == hex(b),
    ensures
        a == b,
{
    assert(hex(a).len() == 2 * a.len());
    assert(hex(b).len() == 2 * b.len());
    assert forall|i: int| 0 <= i < a.len() implies a[i] == b[i] by {
        let even: int = 2 * i;
        let odd: int = 2 * i + 1;
        assert(even / 2 == i && odd / 2 == i && even % 2 == 0 && odd % 2 == 1);
        assert(hex(a)[even] == hex_digit((a[i] / 16) as nat));
        assert(hex(b)[even] == hex_digit((b[i] / 16) as nat));
        assert(hex(a)[odd] == hex_digit((a[i] % 16) as nat));
        assert(hex(b)[odd] == hex_digit((b[i] % 16) as nat));
        assert(a[i] / 16 == b[i] / 16);
        assert(a[i] % 16 == b[i] % 16);
    }
    assert(a =~= b);
}

#[verifier::spinoff_prover]
#[verifier::rlimit(40)]
proof fn lemma_element_injective(
    a: Result<ValueView, WriteErrorView>,
    b: Result<ValueView, WriteErrorView>,
    class: TursoType,
)
    requires
        element_json(a, class) is Ok,
        element_json(a, class) == element_json(b, class),
    ensures
        a == b,
{
    reveal_strlit("null");
    let x = element_json(a, class)->Ok_0;
    let y = element_json(b, class)->Ok_0;
    if let Ok(ValueView::Integer(n)) = a {
        text::decimals_are_digits(
            (if n < 0 {
                -n
            } else {
                n as int
            }) as nat,
        );
        assert(x[0] != 'n');
    }
    if let Ok(ValueView::Integer(m)) = b {
        text::decimals_are_digits(
            (if m < 0 {
                -m
            } else {
                m as int
            }) as nat,
        );
        assert(y[0] != 'n');
    }
    assert(x[0] == y[0]);
    match (a->Ok_0, b->Ok_0) {
        (ValueView::Integer(n), ValueView::Integer(m)) => {
            text::signed_decimals_are_injective(n as int, m as int);
        },
        (ValueView::Blob(s), ValueView::Blob(t)) => {
            assert(x.subrange(1, x.len() - 1) =~= hex(s));
            assert(y.subrange(1, y.len() - 1) =~= hex(t));
            hex_is_injective(s, t);
        },
        (ValueView::Text(s), ValueView::Text(t)) => {
            assert(x.subrange(1, x.len() - 1) =~= hex(encode_utf8(s)));
            assert(y.subrange(1, y.len() - 1) =~= hex(encode_utf8(t)));
            hex_is_injective(encode_utf8(s), encode_utf8(t));
            vstd::utf8::encode_utf8_decode_utf8(s);
            vstd::utf8::encode_utf8_decode_utf8(t);
        },
        _ => {},
    }
}

proof fn lemma_elements_injective(
    a: Seq<Result<ValueView, WriteErrorView>>,
    b: Seq<Result<ValueView, WriteErrorView>>,
    class: TursoType,
    n: int,
    m: int,
)
    requires
        0 <= n <= a.len(),
        0 <= m <= b.len(),
        elements_json(a, class, n) is Ok,
        elements_json(a, class, n) == elements_json(b, class, m),
    ensures
        n == m,
        forall|i: int| 0 <= i < n ==> a[i] == b[i],
    decreases n,
{
    let x = elements_json(a, class, n)->Ok_0;
    if n > 0 {
        lemma_element(a[n - 1], class);
    }
    if m > 0 {
        lemma_element(b[m - 1], class);
    }
    if n > 0 && m > 0 {
        let p = element_json(a[n - 1], class)->Ok_0;
        let q = element_json(b[m - 1], class)->Ok_0;
        let s = elements_json(a, class, n - 1)->Ok_0;
        let t = elements_json(b, class, m - 1)->Ok_0;
        if n > 1 {
            assert(x[s.len() as int] == ',');
            assert(forall|i: int| s.len() < i < x.len() ==> x[i] == p[i - s.len() - 1]);
        }
        if m > 1 {
            assert(x[t.len() as int] == ',');
            assert(forall|i: int| t.len() < i < x.len() ==> x[i] == q[i - t.len() - 1]);
        }
        assert((n == 1) == (m == 1)) by {
            if n == 1 && m > 1 {
                assert(p[t.len() as int] == ',');
            }
            if m == 1 && n > 1 {
                assert(q[s.len() as int] == ',');
            }
        }
        if n > 1 {
            assert(s.len() == t.len()) by {
                if s.len() < t.len() {
                    assert(p[t.len() - s.len() - 1] == ',');
                }
                if t.len() < s.len() {
                    assert(q[s.len() - t.len() - 1] == ',');
                }
            }
            assert(s =~= x.take(s.len() as int));
            assert(t =~= x.take(t.len() as int));
            assert(p =~= x.skip(s.len() as int + 1));
            assert(q =~= x.skip(t.len() as int + 1));
            lemma_elements_injective(a, b, class, n - 1, m - 1);
        }
        lemma_element_injective(a[n - 1], b[m - 1], class);
    }
}

/// A list can be told from its JSON: another list of the same storage class
/// has another JSON.
pub proof fn lists_are_injective(
    a: Seq<Result<ValueView, WriteErrorView>>,
    b: Seq<Result<ValueView, WriteErrorView>>,
    class: TursoType,
)
    requires
        list_json(a, class) is Ok,
        list_json(a, class) == list_json(b, class),
    ensures
        a == b,
{
    let x = elements_json(a, class, a.len() as int)->Ok_0;
    let y = elements_json(b, class, b.len() as int)->Ok_0;
    let j = list_json(a, class)->Ok_0;
    assert(j == seq!['['] + x + seq![']']);
    assert(j == seq!['['] + y + seq![']']);
    assert(x =~= j.subrange(1, j.len() - 1));
    assert(y =~= j.subrange(1, j.len() - 1));
    lemma_elements_injective(a, b, class, a.len() as int, b.len() as int);
    assert(a =~= b);
}

/// One SQL text serves every list, the empty one too, wherever the storage
/// class has a decoding, and the statement may be cached.
pub proof fn one_text_for_every_length<T: QueryFragment, ST, I: ToSql<ST>>(
    left: T,
    a: Many<ST, I>,
    b: Many<ST, I>,
) where Turso: HasSqlType<ST>
    requires
        decoding(<Turso as HasSqlType<ST>>::class_of()) is Some,
    ensures
        (In { left, values: a }).sql() == (In { left, values: b }).sql(),
        (NotIn { left, values: a }).sql() == (NotIn { left, values: b }).sql(),
        (In { left, values: a }).cacheable() == left.cacheable(),
        (NotIn { left, values: a }).cacheable() == left.cacheable(),
{
}

/// A query behind `IN` is rendered as it stands, whatever it selects.
pub proof fn subqueries_are_untouched<T: QueryFragment, ST, Q: QueryFragment>(
    left: T,
    values: Subselect<ST, Q>,
) where Turso: HasSqlType<ST>
    ensures
        (In { left, values }).sql() == left.sql() + " IN ("@ + values.query.sql() + ")"@,
        (In { left, values }).binds() == query::chained(left.binds(), values.query.binds()),
        (NotIn { left, values }).sql() == left.sql() + " NOT IN ("@ + values.query.sql() + ")"@,
        (NotIn { left, values }).binds() == query::chained(left.binds(), values.query.binds()),
{
}

/// How many placeholders there are in a text.
pub open spec fn placeholder_count(sql: Seq<char>) -> nat
    decreases sql.len(),
{
    if sql.len() == 0 {
        0
    } else {
        placeholder_count(sql.drop_last()) + (if sql.last() == '?' {
            1nat
        } else {
            0nat
        })
    }
}

proof fn lemma_count_concat(a: Seq<char>, b: Seq<char>)
    ensures
        placeholder_count(a + b) == placeholder_count(a) + placeholder_count(b),
    decreases b.len(),
{
    if b.len() == 0 {
        assert(a + b =~= a);
    } else {
        assert((a + b).drop_last() =~= a + b.drop_last());
        lemma_count_concat(a, b.drop_last());
    }
}

proof fn lemma_count_none(s: Seq<char>)
    requires
        forall|i: int| 0 <= i < s.len() ==> s[i] != '?',
    ensures
        placeholder_count(s) == 0,
    decreases s.len(),
{
    if s.len() > 0 {
        lemma_count_none(s.drop_last());
    }
}

proof fn lemma_count_one()
    ensures
        placeholder_count(seq!['?']) == 1,
{
    reveal_with_fuel(placeholder_count, 2);
    assert(seq!['?'].drop_last() =~= Seq::<char>::empty());
}

proof fn lemma_placeholders(n: int)
    requires
        n >= 0,
    ensures
        placeholder_count(placeholders(n)) == n,
    decreases n,
{
    lemma_count_one();
    if n > 1 {
        reveal_strlit(", ");
        lemma_placeholders(n - 1);
        lemma_count_none(", "@);
        lemma_count_concat(placeholders(n - 1), ", "@);
        lemma_count_concat(placeholders(n - 1) + ", "@, seq!['?']);
    }
}

proof fn lemma_bind_count(elements: Seq<Result<ValueView, WriteErrorView>>, n: int)
    requires
        n >= 0,
        element_binds(elements, n) is Ok,
    ensures
        element_binds(elements, n)->Ok_0.len() == n,
    decreases n,
{
    if n > 0 {
        lemma_bind_count(elements, n - 1);
    }
}

/// A list has as many placeholders as binds, in either rendering.
pub proof fn every_placeholder_has_its_bind<ST, I: ToSql<ST>>(list: Many<ST, I>) where
    Turso: HasSqlType<ST>,

    ensures
        list.binds() matches Ok(binds) ==> placeholder_count(list.sql()) == binds.len(),
{
    let class = <Turso as HasSqlType<ST>>::class_of();
    match decoding(class) {
        Some(decode) => {
            reveal_strlit("SELECT ");
            reveal_strlit("value");
            reveal_strlit("unhex(value)");
            reveal_strlit("CAST(unhex(value) AS TEXT)");
            reveal_strlit(" FROM json_each(");
            reveal_strlit(")");
            let head = "SELECT "@ + decode + " FROM json_each("@;
            lemma_count_none(head);
            lemma_count_one();
            lemma_count_none(")"@);
            lemma_count_concat(head, seq!['?']);
            lemma_count_concat(head + seq!['?'], ")"@);
        },
        None => {
            lemma_placeholders(list.values@.len() as int);
            if list.binds() is Ok {
                lemma_bind_count(
                    elements_written::<ST, I>(list.values@),
                    list.values@.len() as int,
                );
            }
        },
    }
}

/// The value of a hex digit, in either case.
pub open spec fn hex_value(c: char) -> Option<int> {
    if '0' <= c <= '9' {
        Some(c as u32 - '0' as u32)
    } else if 'a' <= c <= 'f' {
        Some(10 + (c as u32 - 'a' as u32))
    } else if 'A' <= c <= 'F' {
        Some(10 + (c as u32 - 'A' as u32))
    } else {
        None
    }
}

/// What `unhex` makes of a text: a byte for every two digits, the first worth
/// sixteen times the second. A text of anything else it refuses.
pub open spec fn unhex(s: Seq<char>) -> Option<Seq<u8>>
    decreases s.len(),
{
    if s.len() == 0 {
        Some(Seq::empty())
    } else if s.len() == 1 {
        None
    } else {
        match (hex_value(s[0]), hex_value(s[1]), unhex(s.skip(2))) {
            (Some(high), Some(low), Some(rest)) => Some(seq![(16 * high + low) as u8] + rest),
            _ => None,
        }
    }
}

/// The engine's `unhex` gives back the bytes that were put into hex, and the
/// digits are small ones.
pub proof fn hex_is_undone_by_unhex(bytes: Seq<u8>)
    ensures
        unhex(hex(bytes)) == Some(bytes),
        forall|i: int|
            0 <= i < hex(bytes).len() ==> '0' <= #[trigger] hex(bytes)[i] <= '9' || 'a' <= hex(
                bytes,
            )[i] <= 'f',
    decreases bytes.len(),
{
    let h = hex(bytes);
    if bytes.len() == 0 {
        assert(bytes =~= Seq::empty());
    } else {
        let rest = bytes.skip(1);
        hex_is_undone_by_unhex(rest);
        assert(h.skip(2) =~= hex(rest)) by {
            assert forall|i: int| 0 <= i < hex(rest).len() implies h.skip(2)[i] == hex(rest)[i] by {
                assert((i + 2) / 2 == i / 2 + 1 && (i + 2) % 2 == i % 2);
                assert(rest[i / 2] == bytes[i / 2 + 1]);
            }
        }
        let high = (bytes[0] / 16) as int;
        let low = (bytes[0] % 16) as int;
        assert(h[0] == hex_digit(high as nat));
        assert(h[1] == hex_digit(low as nat));
        assert(hex_value(h[0]) == Some(high));
        assert(hex_value(h[1]) == Some(low));
        assert(seq![(16 * high + low) as u8] + rest =~= bytes);
    }
}

/// An element carries its value: an integer in decimal, a blob and a text as
/// the hex of their bytes between quotes, and NULL by its name. It is refused
/// exactly where it is no NULL and of another storage class than promised.
pub proof fn elements_carry_their_values(got: ValueView, class: TursoType)
    ensures
        element_json(Ok(got), class) matches Ok(json) ==> match got {
            ValueView::Null => json == "null"@,
            ValueView::Integer(n) => if n < 0 {
                json[0] == '-' && text::digits_value(json.skip(1)) == -n
            } else {
                json[0] != '-' && text::digits_value(json) == n
            },
            ValueView::Blob(b) => json[0] == '"' && json.last() == '"' && unhex(
                json.subrange(1, json.len() - 1),
            ) == Some(b),
            ValueView::Text(s) => json[0] == '"' && json.last() == '"' && unhex(
                json.subrange(1, json.len() - 1),
            ) == Some(encode_utf8(s)),
            ValueView::Real(_) => false,
        },
        element_json(Ok(got), class) is Ok <==> match got {
            ValueView::Null => true,
            ValueView::Integer(_) => class == TursoType::Integer,
            ValueView::Blob(_) => class == TursoType::Binary,
            ValueView::Text(_) => class == TursoType::Text,
            ValueView::Real(_) => false,
        },
        element_json(Ok(got), class) matches Err(e) ==> e == (WriteErrorView::ListElement {
            got,
            class,
        }),
{
    if let Ok(json) = element_json(Ok(got), class) {
        match got {
            ValueView::Integer(n) => {
                text::signed_decimals_spell_their_number(n as int);
            },
            ValueView::Blob(b) => {
                hex_is_undone_by_unhex(b);
                assert(json.subrange(1, json.len() - 1) =~= hex(b));
            },
            ValueView::Text(s) => {
                hex_is_undone_by_unhex(encode_utf8(s));
                assert(json.subrange(1, json.len() - 1) =~= hex(encode_utf8(s)));
            },
            _ => {},
        }
    }
}

/// An empty list is a pair of brackets, and a list with an element more has it
/// behind a comma, inside the brackets, with all before it as it was. The first
/// element that is refused is the error, whatever follows.
pub proof fn lists_grow_at_their_end(
    elements: Seq<Result<ValueView, WriteErrorView>>,
    next: Result<ValueView, WriteErrorView>,
    class: TursoType,
)
    ensures
        list_json(Seq::empty(), class) == Ok::<_, WriteErrorView>(seq!['[', ']']),
        list_json(elements.push(next), class) == (match list_json(elements, class) {
            Err(e) => Err(e),
            Ok(json) => match element_json(next, class) {
                Err(e) => Err(e),
                Ok(last) => Ok(
                    if elements.len() == 0 {
                        seq!['['] + last + seq![']']
                    } else {
                        json.drop_last() + seq![','] + last + seq![']']
                    },
                ),
            },
        }),
        next is Err ==> element_json(next, class) == Err::<Seq<char>, _>(next->Err_0),
{
    assert(seq!['['] + Seq::<char>::empty() + seq![']'] =~= seq!['[', ']']);
    let all = elements.push(next);
    let n = elements.len() as int;
    lemma_elements_agree(elements, all, class, n);
    assert(all[n] == next);
    if let Ok(json) = list_json(elements, class) {
        if let Ok(last) = element_json(next, class) {
            let inner = elements_json(elements, class, n)->Ok_0;
            assert(json.drop_last() =~= seq!['['] + inner);
            assert(list_json(all, class)->Ok_0 =~= if n == 0 {
                seq!['['] + last + seq![']']
            } else {
                json.drop_last() + seq![','] + last + seq![']']
            });
        }
    }
}

proof fn lemma_elements_agree(
    a: Seq<Result<ValueView, WriteErrorView>>,
    b: Seq<Result<ValueView, WriteErrorView>>,
    class: TursoType,
    n: int,
)
    requires
        n <= a.len(),
        n <= b.len(),
        forall|i: int| 0 <= i < n ==> a[i] == b[i],
    ensures
        elements_json(a, class, n) == elements_json(b, class, n),
    decreases n,
{
    if n > 0 {
        lemma_elements_agree(a, b, class, n - 1);
    }
}

/// What a class is unpacked with undoes what its elements are packed with:
/// numbers stand for themselves, blobs are taken out of hex, and texts are
/// taken out of hex and made text again. The other classes are not packed.
pub proof fn lists_are_unpacked_as_they_are_packed(class: TursoType)
    ensures
        decoding(class) == Some("value"@) <==> class == TursoType::Integer,
        decoding(class) == Some("unhex(value)"@) <==> class == TursoType::Binary,
        decoding(class) == Some("CAST(unhex(value) AS TEXT)"@) <==> class == TursoType::Text,
        decoding(class) is None <==> class == TursoType::Real || class == TursoType::Null,
{
    reveal_strlit("value");
    reveal_strlit("unhex(value)");
    reveal_strlit("CAST(unhex(value) AS TEXT)");
    assert("value"@.len() == 5 && "unhex(value)"@.len() == 12
        && "CAST(unhex(value) AS TEXT)"@.len() == 26);
}

/// Placeholders stand one behind the other with a comma and a space between
/// two of them, and the elements are bound to them in order.
pub proof fn placeholders_are_in_order(
    elements: Seq<Result<ValueView, WriteErrorView>>,
    n: int,
)
    requires
        0 <= n <= elements.len(),
    ensures
        placeholders(n).len() == (if n == 0 {
            0
        } else {
            3 * n - 2
        }),
        forall|i: int|
            0 <= i < placeholders(n).len() ==> #[trigger] placeholders(n)[i] == (if i % 3 == 0 {
                '?'
            } else if i % 3 == 1 {
                ','
            } else {
                ' '
            }),
        element_binds(elements, n) matches Ok(binds) ==> binds.len() == n && forall|i: int|
            0 <= i < n ==> elements[i] == Ok::<_, WriteErrorView>(#[trigger] binds[i]),
        element_binds(elements, n) matches Err(e) ==> exists|i: int|
            0 <= i < n && #[trigger] elements[i] == Err::<ValueView, _>(e) && forall|k: int|
                0 <= k < i ==> (#[trigger] elements[k]) is Ok,
        element_binds(elements, n) is Err <==> exists|i: int|
            0 <= i < n && (#[trigger] elements[i]) is Err,
    decreases n,
{
    reveal_strlit(", ");
    if n > 0 {
        placeholders_are_in_order(elements, n - 1);
        if element_binds(elements, n - 1) is Ok {
            assert forall|k: int| 0 <= k < n - 1 implies (#[trigger] elements[k]) is Ok by {
                let _ = element_binds(elements, n - 1)->Ok_0[k];
            }
            if elements[n - 1] is Err {
                assert(element_binds(elements, n) == Err::<Seq<ValueView>, _>(
                    elements[n - 1]->Err_0,
                ));
            }
        }
    }
}

/// `IN` and `NOT IN` are each other's opposite: the same operands with the one
/// word more between them, and over a list that is empty and has no subquery,
/// what never holds and what always does. They bind the same.
pub proof fn in_and_not_in_are_opposites<T: QueryFragment, ST, I: ToSql<ST>>(
    left: T,
    values: Many<ST, I>,
) where Turso: HasSqlType<ST>
    ensures
        ({
            let class = <Turso as HasSqlType<ST>>::class_of();
            let constant = values.values@.len() == 0 && (class == TursoType::Real || class
                == TursoType::Null);
            &&& (In { left, values }).sql() == (if constant {
                "1=0"@
            } else {
                left.sql() + " IN ("@ + values.sql() + ")"@
            })
            &&& (NotIn { left, values }).sql() == (if constant {
                "1=1"@
            } else {
                left.sql() + " NOT IN ("@ + values.sql() + ")"@
            })
            &&& (In { left, values }).binds() == (NotIn { left, values }).binds()
            &&& constant ==> (In { left, values }).binds() == Ok::<_, WriteErrorView>(
                Seq::<ValueView>::empty(),
            )
            &&& (In { left, values }).cacheable() == (NotIn { left, values }).cacheable()
        }),
{
}

/// A list whose elements are all of a class that is packed, or NULL, is never
/// refused.
pub proof fn fitting_lists_are_accepted(
    elements: Seq<Result<ValueView, WriteErrorView>>,
    class: TursoType,
)
    requires
        forall|i: int|
            0 <= i < elements.len() ==> match #[trigger] elements[i] {
                Ok(ValueView::Null) => true,
                Ok(ValueView::Integer(_)) => class == TursoType::Integer,
                Ok(ValueView::Text(_)) => class == TursoType::Text,
                Ok(ValueView::Blob(_)) => class == TursoType::Binary,
                _ => false,
            },
    ensures
        list_json(elements, class) is Ok,
    decreases elements.len(),
{
    if elements.len() > 0 {
        let front = elements.drop_last();
        assert forall|i: int| 0 <= i < front.len() implies front[i] == #[trigger] elements[i] by {}
        assert forall|i: int| 0 <= i < front.len() implies match #[trigger] front[i] {
            Ok(ValueView::Null) => true,
            Ok(ValueView::Integer(_)) => class == TursoType::Integer,
            Ok(ValueView::Text(_)) => class == TursoType::Text,
            Ok(ValueView::Blob(_)) => class == TursoType::Binary,
            _ => false,
        } by {
            assert(front[i] == elements[i]);
        }
        fitting_lists_are_accepted(front, class);
        lists_grow_at_their_end(front, elements.last(), class);
        assert(front.push(elements.last()) =~= elements);
        assert(elements.last() == elements[elements.len() - 1]);
    }
}

/// A list of a class that is packed is one placeholder in a fixed subquery,
/// whose one bind is the whole list as text, and its text is bounded. A list
/// of any other class has a placeholder and a bind to each element, and is
/// not.
pub proof fn packed_lists_are_one_bind<ST, I: ToSql<ST>>(list: Many<ST, I>) where
    Turso: HasSqlType<ST>,

    ensures
        ({
            let class = <Turso as HasSqlType<ST>>::class_of();
            let elements = Seq::new(list.values@.len(), |i: int| list.values@[i].written());
            &&& class == TursoType::Integer ==> list.sql()
                == "SELECT value FROM json_each(?)"@
            &&& class == TursoType::Binary ==> list.sql()
                == "SELECT unhex(value) FROM json_each(?)"@
            &&& class == TursoType::Text ==> list.sql()
                == "SELECT CAST(unhex(value) AS TEXT) FROM json_each(?)"@
            &&& class == TursoType::Real || class == TursoType::Null ==> list.sql() == placeholders(
                list.values@.len() as int,
            ) && list.binds() == element_binds(elements, elements.len() as int)
            &&& class == TursoType::Integer || class == TursoType::Binary || class
                == TursoType::Text <==> list.cacheable()
            &&& list.cacheable() ==> (list.binds() matches Ok(binds) ==> binds.len() == 1
                && list_json(elements, class) == Ok::<_, WriteErrorView>(binds[0]->Text_0)
                && binds[0] is Text)
            &&& list.cacheable() ==> (list.binds() matches Err(e) ==> list_json(elements, class)
                == Err::<Seq<char>, _>(e))
        }),
{
    let elements = Seq::new(list.values@.len(), |i: int| list.values@[i].written());
    assert(elements =~= elements_written::<ST, I>(list.values@));
    reveal_strlit("SELECT ");
    reveal_strlit(" FROM json_each(");
    reveal_strlit(")");
    reveal_strlit("value");
    reveal_strlit("unhex(value)");
    reveal_strlit("CAST(unhex(value) AS TEXT)");
    reveal_strlit("SELECT value FROM json_each(?)");
    reveal_strlit("SELECT unhex(value) FROM json_each(?)");
    reveal_strlit("SELECT CAST(unhex(value) AS TEXT) FROM json_each(?)");
    match <Turso as HasSqlType<ST>>::class_of() {
        TursoType::Integer => {
            assert(list.sql() =~= "SELECT value FROM json_each(?)"@);
        },
        TursoType::Binary => {
            assert(list.sql() =~= "SELECT unhex(value) FROM json_each(?)"@);
        },
        TursoType::Text => {
            assert(list.sql() =~= "SELECT CAST(unhex(value) AS TEXT) FROM json_each(?)"@);
        },
        _ => {},
    }
}

/// A comparison binds its left side and then its values, unless it is left to
/// a constant; and a query behind it is never taken for an empty list.
pub proof fn comparisons_bind_left_to_right<T: QueryFragment, ST, Q: QueryFragment>(
    left: T,
    query: Subselect<ST, Q>,
) where Turso: HasSqlType<ST>
    ensures
        !query.empty() && !query.array(),
        (In { left, values: query }).sql() == left.sql() + " IN ("@ + query.query.sql() + ")"@,
        (NotIn { left, values: query }).sql() == left.sql() + " NOT IN ("@ + query.query.sql() + ")"@,
        (In { left, values: query }).binds() == query::chained(left.binds(), query.query.binds()),
        (NotIn { left, values: query }).binds() == query::chained(
            left.binds(),
            query.query.binds(),
        ),
        (In { left, values: query }).cacheable() == (left.cacheable() && query.query.cacheable()),
{
}

/// A comparison with a list that is not left to a constant binds its left
/// side and then the list, and its text is bounded where both are.
pub proof fn comparisons_bind_their_list<T: QueryFragment, ST, I: ToSql<ST>>(
    left: T,
    values: Many<ST, I>,
) where Turso: HasSqlType<ST>
    requires
        values.values@.len() > 0 || <Turso as HasSqlType<ST>>::class_of() == TursoType::Integer
            || <Turso as HasSqlType<ST>>::class_of() == TursoType::Text
            || <Turso as HasSqlType<ST>>::class_of() == TursoType::Binary,
    ensures
        (In { left, values }).binds() == query::chained(left.binds(), values.binds()),
        (In { left, values }).cacheable() == (left.cacheable() && values.cacheable()),
{
}

} // verus!
