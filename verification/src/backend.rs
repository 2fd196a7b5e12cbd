//! The Turso backend: its storage classes, and how its SQL is spelled.

use vstd::prelude::*;

use crate::error::QueryError;
use crate::sql_types;
use crate::text::chars_of;

verus! {

/// The backend itself.
#[derive(Debug, Clone, Copy, Hash, PartialEq, Eq, Default)]
pub struct Turso;

/// The storage class of a bind value.
#[derive(Debug, Clone, Copy, Hash, PartialEq, Eq, Structural)]
pub enum TursoType {
    /// No value.
    Null,
    /// A 64-bit signed integer. A truth value is one, as 0 or 1.
    Integer,
    /// A 64-bit float.
    Real,
    /// UTF-8 text. Dates, times and timestamps are text in ISO-8601.
    Text,
    /// A byte string. UUIDs and UNION values travel as one.
    Binary,
}

/// A list in `IN (…)` is bound as one JSON array and unpacked by `json_each`.
#[derive(Debug, Copy, Clone)]
pub struct TursoJsonArrayComparison;

/// The value of a `LIMIT` inside a subselect is written into the SQL text.
///
/// The engine replaces such a limit by its own where the subselect is a
/// scalar, and a placeholder in it would be lost, with its bind left over.
#[derive(Debug, Clone, Copy)]
pub struct LiteralSubselectLimit;

/// `ON CONFLICT` is spelled as SQLite spells it.
#[derive(Debug, Clone, Copy)]
pub struct TursoOnConflictClause;

/// A backend that stores the SQL type `ST`.
pub trait HasSqlType<ST> {
    /// The storage class of the SQL type.
    spec fn class_of() -> TursoType;

    /// The storage class of the SQL type.
    fn metadata() -> (class: TursoType)
        ensures
            class == Self::class_of(),
    ;
}

impl HasSqlType<sql_types::SmallInt> for Turso {
    open spec fn class_of() -> TursoType {
        TursoType::Integer
    }

    fn metadata() -> (class: TursoType) {
        TursoType::Integer
    }
}

impl HasSqlType<sql_types::Integer> for Turso {
    open spec fn class_of() -> TursoType {
        TursoType::Integer
    }

    fn metadata() -> (class: TursoType) {
        TursoType::Integer
    }
}

impl HasSqlType<sql_types::BigInt> for Turso {
    open spec fn class_of() -> TursoType {
        TursoType::Integer
    }

    fn metadata() -> (class: TursoType) {
        TursoType::Integer
    }
}

impl HasSqlType<sql_types::Float> for Turso {
    open spec fn class_of() -> TursoType {
        TursoType::Real
    }

    fn metadata() -> (class: TursoType) {
        TursoType::Real
    }
}

impl HasSqlType<sql_types::Double> for Turso {
    open spec fn class_of() -> TursoType {
        TursoType::Real
    }

    fn metadata() -> (class: TursoType) {
        TursoType::Real
    }
}

impl HasSqlType<sql_types::Text> for Turso {
    open spec fn class_of() -> TursoType {
        TursoType::Text
    }

    fn metadata() -> (class: TursoType) {
        TursoType::Text
    }
}

impl HasSqlType<sql_types::Binary> for Turso {
    open spec fn class_of() -> TursoType {
        TursoType::Binary
    }

    fn metadata() -> (class: TursoType) {
        TursoType::Binary
    }
}

impl HasSqlType<sql_types::Date> for Turso {
    open spec fn class_of() -> TursoType {
        TursoType::Text
    }

    fn metadata() -> (class: TursoType) {
        TursoType::Text
    }
}

impl HasSqlType<sql_types::Time> for Turso {
    open spec fn class_of() -> TursoType {
        TursoType::Text
    }

    fn metadata() -> (class: TursoType) {
        TursoType::Text
    }
}

impl HasSqlType<sql_types::Timestamp> for Turso {
    open spec fn class_of() -> TursoType {
        TursoType::Text
    }

    fn metadata() -> (class: TursoType) {
        TursoType::Text
    }
}

impl HasSqlType<sql_types::Timestamptz> for Turso {
    open spec fn class_of() -> TursoType {
        TursoType::Text
    }

    fn metadata() -> (class: TursoType) {
        TursoType::Text
    }
}

impl HasSqlType<sql_types::Bool> for Turso {
    open spec fn class_of() -> TursoType {
        TursoType::Integer
    }

    fn metadata() -> (class: TursoType) {
        TursoType::Integer
    }
}

/// A nullable type is stored as the type is.
impl<ST> HasSqlType<sql_types::Nullable<ST>> for Turso where Turso: HasSqlType<ST> {
    open spec fn class_of() -> TursoType {
        <Turso as HasSqlType<ST>>::class_of()
    }

    fn metadata() -> (class: TursoType) {
        <Turso as HasSqlType<ST>>::metadata()
    }
}

/// A UNION value travels as a blob.
impl<E> HasSqlType<sql_types::TaggedUnion<E>> for Turso {
    open spec fn class_of() -> TursoType {
        TursoType::Binary
    }

    fn metadata() -> (class: TursoType) {
        TursoType::Binary
    }
}

/// `identifier` with every quote in it doubled, from position `i` on.
pub open spec fn doubled_quotes(identifier: Seq<char>, i: int) -> Seq<char>
    decreases identifier.len() - i,
{
    if i < 0 || i >= identifier.len() {
        Seq::empty()
    } else if identifier[i] == '"' {
        seq!['"', '"'] + doubled_quotes(identifier, i + 1)
    } else {
        seq![identifier[i]] + doubled_quotes(identifier, i + 1)
    }
}

/// An identifier in quotes, its own quotes doubled.
pub open spec fn quoted(identifier: Seq<char>) -> Seq<char> {
    seq!['"'] + doubled_quotes(identifier, 0) + seq!['"']
}

/// A query in the making. Placeholders are positional: `?`.
#[derive(Debug)]
pub struct TursoQueryBuilder {
    sql: String,
}

impl View for TursoQueryBuilder {
    type V = Seq<char>;

    closed spec fn view(&self) -> Seq<char> {
        self.sql@
    }
}

impl Default for TursoQueryBuilder {
    fn default() -> (builder: Self)
        ensures
            builder@ == Seq::<char>::empty(),
    {
        TursoQueryBuilder { sql: String::new() }
    }
}

impl TursoQueryBuilder {
    /// Appends SQL as it stands.
    pub fn push_sql(&mut self, sql: &str)
        ensures
            final(self)@ == old(self)@ + sql@,
    {
        self.sql.append(sql);
    }

    /// Appends an identifier, quoted.
    pub fn push_identifier(&mut self, identifier: &str) -> (r: Result<(), QueryError>)
        ensures
            r is Ok,
            final(self)@ == old(self)@ + quoted(identifier@),
    {
        self.sql.push('"');
        let chars: Vec<char> = chars_of(identifier);
        let ghost head = self.sql@;
        let mut i: usize = 0;
        while i < chars.len()
            invariant
                i <= chars@.len(),
                chars@ == identifier@,
                self.sql@ + doubled_quotes(identifier@, i as int) == head + doubled_quotes(
                    identifier@,
                    0,
                ),
            decreases chars@.len() - i,
        {
            let ghost before = self.sql@;
            if chars[i] == '"' {
                self.sql.push('"');
            }
            self.sql.push(chars[i]);
            assert(self.sql@ + doubled_quotes(identifier@, i + 1) =~= before + doubled_quotes(
                identifier@,
                i as int,
            ));
            i = i + 1;
        }
        self.sql.push('"');
        assert(self.sql@ =~= old(self)@ + quoted(identifier@));
        Ok(())
    }

    /// Appends a placeholder.
    pub fn push_bind_param(&mut self)
        ensures
            final(self)@ == old(self)@.push('?'),
    {
        self.sql.push('?');
    }

    /// The query.
    pub fn finish(self) -> (sql: String)
        ensures
            sql@ == self@,
    {
        self.sql
    }
}

/// A quoted identifier tells the identifier: two that are quoted alike are
/// the same.
pub proof fn quoting_is_injective(a: Seq<char>, b: Seq<char>)
    requires
        quoted(a) == quoted(b),
    ensures
        a == b,
{
    let x = doubled_quotes(a, 0);
    let y = doubled_quotes(b, 0);
    assert(x =~= quoted(a).subrange(1, quoted(a).len() - 1));
    assert(y =~= quoted(b).subrange(1, quoted(b).len() - 1));
    lemma_doubling_injective(a, b, 0);
    assert(a =~= b);
}

proof fn lemma_doubling_injective(a: Seq<char>, b: Seq<char>, i: int)
    requires
        0 <= i <= a.len(),
        i <= b.len(),
        doubled_quotes(a, i) == doubled_quotes(b, i),
    ensures
        a.len() == b.len(),
        forall|k: int| i <= k < a.len() ==> a[k] == b[k],
    decreases a.len() - i,
{
    let x = doubled_quotes(a, i);
    let y = doubled_quotes(b, i);
    if i < a.len() {
        assert(x[0] == a[i]);
    }
    if i < b.len() {
        assert(y[0] == b[i]);
    }
    if i < a.len() && i < b.len() {
        let n: int = if a[i] == '"' {
            2
        } else {
            1
        };
        assert(doubled_quotes(a, i + 1) =~= x.skip(n));
        assert(doubled_quotes(b, i + 1) =~= y.skip(n));
        lemma_doubling_injective(a, b, i + 1);
    }
}

/// What a quoted identifier names: what stands between its outer quotes, with
/// every pair of quotes read as one. A quote that stands alone ends it early,
/// so there is then no such name.
pub open spec fn unquoted(inside: Seq<char>) -> Option<Seq<char>>
    decreases inside.len(),
{
    if inside.len() == 0 {
        Some(Seq::empty())
    } else if inside[0] != '"' {
        match unquoted(inside.skip(1)) {
            Some(rest) => Some(seq![inside[0]] + rest),
            None => None,
        }
    } else if inside.len() >= 2 && inside[1] == '"' {
        match unquoted(inside.skip(2)) {
            Some(rest) => Some(seq!['"'] + rest),
            None => None,
        }
    } else {
        None
    }
}

/// A quoted identifier is read back as itself, whatever it holds.
pub proof fn quoted_identifiers_read_back(identifier: Seq<char>)
    ensures
        quoted(identifier).len() >= 2,
        quoted(identifier)[0] == '"',
        quoted(identifier).last() == '"',
        unquoted(quoted(identifier).subrange(1, quoted(identifier).len() - 1)) == Some(identifier),
{
    lemma_doubled_read_back(identifier, 0);
    assert(quoted(identifier).subrange(1, quoted(identifier).len() - 1) =~= doubled_quotes(
        identifier,
        0,
    ));
    assert(identifier.skip(0) =~= identifier);
}

proof fn lemma_doubled_read_back(identifier: Seq<char>, i: int)
    requires
        0 <= i <= identifier.len(),
    ensures
        unquoted(doubled_quotes(identifier, i)) == Some(identifier.skip(i)),
    decreases identifier.len() - i,
{
    if i < identifier.len() {
        lemma_doubled_read_back(identifier, i + 1);
        let rest = doubled_quotes(identifier, i + 1);
        let all = doubled_quotes(identifier, i);
        if identifier[i] == '"' {
            assert(all.skip(2) =~= rest);
        } else {
            assert(all.skip(1) =~= rest);
        }
        assert(seq![identifier[i]] + identifier.skip(i + 1) =~= identifier.skip(i));
    } else {
        assert(identifier.skip(i) =~= Seq::<char>::empty());
    }
}

} // verus!
