//! Queries as trees of fragments, and what a tree comes to: SQL, binds, and
//! whether its type bounds its text.

use std::marker::PhantomData;

use vstd::prelude::*;

use crate::backend;
use crate::backend::TursoQueryBuilder;
use crate::bind::TursoBindCollector;
use crate::error::{QueryError, WriteErrorView};
use crate::serialize::ToSql;
use crate::value;
use crate::value::{Value, ValueView};

verus! {

/// A query in the making, with its binds.
#[derive(Debug)]
pub struct AstPass {
    builder: TursoQueryBuilder,
    collector: TursoBindCollector,
    safe_to_cache: bool,
}

/// What an [`AstPass`] has gathered.
#[verifier::ext_equal]
pub struct PassView {
    pub sql: Seq<char>,
    pub binds: Seq<ValueView>,
    pub safe_to_cache: bool,
}

impl View for AstPass {
    type V = PassView;

    closed spec fn view(&self) -> PassView {
        PassView {
            sql: self.builder@,
            binds: self.collector@,
            safe_to_cache: self.safe_to_cache,
        }
    }
}

impl PassView {
    /// What has been gathered once a fragment has been added.
    pub open spec fn with(
        self,
        sql: Seq<char>,
        binds: Seq<ValueView>,
        safe_to_cache: bool,
    ) -> PassView {
        PassView {
            sql: self.sql + sql,
            binds: self.binds + binds,
            safe_to_cache: self.safe_to_cache && safe_to_cache,
        }
    }
}

/// A pass that has gathered nothing.
pub open spec fn fresh_pass() -> PassView {
    PassView { sql: Seq::empty(), binds: Seq::empty(), safe_to_cache: true }
}

impl AstPass {
    /// A pass that has gathered nothing.
    pub fn new() -> (pass: AstPass)
        ensures
            pass@ == fresh_pass(),
    {
        AstPass {
            builder: TursoQueryBuilder::default(),
            collector: TursoBindCollector::default(),
            safe_to_cache: true,
        }
    }

    /// Appends SQL as it stands.
    pub fn push_sql(&mut self, sql: &str)
        ensures
            final(self)@ == old(self)@.with(sql@, Seq::empty(), true),
    {
        self.builder.push_sql(sql);
        assert(self@ =~= old(self)@.with(sql@, Seq::empty(), true));
    }

    /// Appends an identifier, quoted.
    pub fn push_identifier(&mut self, identifier: &str) -> (r: Result<(), QueryError>)
        ensures
            r is Ok,
            final(self)@ == old(self)@.with(backend::quoted(identifier@), Seq::empty(), true),
    {
        self.builder.push_identifier(identifier)?;
        assert(self@ =~= old(self)@.with(backend::quoted(identifier@), Seq::empty(), true));
        Ok(())
    }

    /// Appends a placeholder and binds a value to it.
    pub fn push_bind_param<ST, T: ToSql<ST> + ?Sized>(&mut self, bind: &T) -> (r: Result<
        (),
        QueryError,
    >)
        ensures
            match bind.written() {
                Ok(v) => r is Ok && final(self)@ == old(self)@.with(seq!['?'], seq![v], true),
                Err(e) => r matches Err(QueryError::SerializationError(reason)) && reason@ == e,
            },
    {
        self.builder.push_bind_param();
        let r: Result<(), QueryError> = self.collector.push_bound_value::<ST, T>(bind);
        proof {
            if let Ok(v) = bind.written() {
                assert(self@ =~= old(self)@.with(seq!['?'], seq![v], true));
            }
        }
        r
    }

    /// The query that was gathered.
    pub fn finish(self) -> (prepared: Prepared)
        ensures
            prepared.sql@ == self@.sql,
            value::views(prepared.binds@) == self@.binds,
            prepared.safe_to_cache == self@.safe_to_cache,
    {
        Prepared {
            sql: self.builder.finish(),
            binds: self.collector.into_values(),
            safe_to_cache: self.safe_to_cache,
        }
    }

    /// Records that the query's type does not bound its text.
    pub fn unsafe_to_cache_prepared(&mut self)
        ensures
            final(self)@ == old(self)@.with(Seq::empty(), Seq::empty(), false),
    {
        self.safe_to_cache = false;
        assert(self@ =~= old(self)@.with(Seq::empty(), Seq::empty(), false));
    }
}

/// The binds of two fragments, one behind the other. The first that cannot be
/// written is the error.
pub open spec fn chained(
    a: Result<Seq<ValueView>, WriteErrorView>,
    b: Result<Seq<ValueView>, WriteErrorView>,
) -> Result<Seq<ValueView>, WriteErrorView> {
    match a {
        Ok(first) => match b {
            Ok(second) => Ok(first + second),
            Err(e) => Err(e),
        },
        Err(e) => Err(e),
    }
}

/// No binds.
pub open spec fn no_binds() -> Result<Seq<ValueView>, WriteErrorView> {
    Ok(Seq::empty())
}

/// A part of a query.
pub trait QueryFragment {
    /// The SQL of the fragment.
    spec fn sql(&self) -> Seq<char>;

    /// The values that it binds, in order, or why one cannot be written.
    spec fn binds(&self) -> Result<Seq<ValueView>, WriteErrorView>;

    /// Whether the fragment's type bounds its text.
    spec fn cacheable(&self) -> bool;

    /// Adds the fragment to `out`.
    fn walk_ast(&self, out: &mut AstPass) -> (r: Result<(), QueryError>)
        ensures
            match self.binds() {
                Ok(binds) => r is Ok && final(out)@ == old(out)@.with(
                    self.sql(),
                    binds,
                    self.cacheable(),
                ),
                Err(e) => r matches Err(QueryError::SerializationError(reason)) && reason@ == e,
            },
    ;
}

/// A query that is ready for the engine.
#[derive(Debug)]
pub struct Prepared {
    pub sql: String,
    pub binds: Vec<Value>,
    /// Whether the query's type bounds its text.
    pub safe_to_cache: bool,
}

/// Renders a query, collects its binds, and says whether it is one that is
/// safe to cache.
pub fn prepare<T: QueryFragment + ?Sized>(source: &T) -> (r: Result<Prepared, QueryError>)
    ensures
        match source.binds() {
            Ok(binds) => r matches Ok(p) && p.sql@ == source.sql() && value::views(p.binds@)
                == binds && p.safe_to_cache == source.cacheable(),
            Err(e) => r matches Err(QueryError::SerializationError(reason)) && reason@ == e,
        },
{
    let mut pass: AstPass = AstPass::new();
    match source.walk_ast(&mut pass) {
        Ok(_) => {
            proof {
                assert(pass@.sql =~= source.sql());
                assert(pass@.binds =~= source.binds()->Ok_0);
            }
            Ok(pass.finish())
        },
        Err(e) => Err(e),
    }
}

// ---------------------------------------------------------------------------
// Fragments to build with
// ---------------------------------------------------------------------------

/// Fixed SQL.
#[derive(Debug, Clone, Copy)]
pub struct Keyword(pub &'static str);

impl QueryFragment for Keyword {
    open spec fn sql(&self) -> Seq<char> {
        self.0@
    }

    open spec fn binds(&self) -> Result<Seq<ValueView>, WriteErrorView> {
        no_binds()
    }

    open spec fn cacheable(&self) -> bool {
        true
    }

    fn walk_ast(&self, out: &mut AstPass) -> (r: Result<(), QueryError>) {
        out.push_sql(self.0);
        Ok(())
    }
}

/// SQL that was put together at run time: nothing bounds its text.
#[derive(Debug)]
pub struct SqlLiteral(pub String);

impl QueryFragment for SqlLiteral {
    open spec fn sql(&self) -> Seq<char> {
        self.0@
    }

    open spec fn binds(&self) -> Result<Seq<ValueView>, WriteErrorView> {
        no_binds()
    }

    open spec fn cacheable(&self) -> bool {
        false
    }

    fn walk_ast(&self, out: &mut AstPass) -> (r: Result<(), QueryError>) {
        out.unsafe_to_cache_prepared();
        out.push_sql(self.0.as_str());
        assert(out@ =~= old(out)@.with(self.sql(), Seq::empty(), false));
        Ok(())
    }
}

/// A name, quoted: that of a table, an alias or a column on its own.
#[derive(Debug, Clone, Copy)]
pub struct Identifier(pub &'static str);

impl QueryFragment for Identifier {
    open spec fn sql(&self) -> Seq<char> {
        backend::quoted(self.0@)
    }

    open spec fn binds(&self) -> Result<Seq<ValueView>, WriteErrorView> {
        no_binds()
    }

    open spec fn cacheable(&self) -> bool {
        true
    }

    fn walk_ast(&self, out: &mut AstPass) -> (r: Result<(), QueryError>) {
        out.push_identifier(self.0)
    }
}

/// A value, bound as the SQL type `ST`.
#[derive(Debug)]
pub struct Bound<ST, T> {
    pub value: T,
    pub sql_type: PhantomData<ST>,
}

/// A value, to be bound as the SQL type `ST`.
pub fn bound<ST, T: ToSql<ST>>(value: T) -> (fragment: Bound<ST, T>)
    ensures
        fragment.value == value,
{
    Bound { value, sql_type: PhantomData }
}

impl<ST, T: ToSql<ST>> QueryFragment for Bound<ST, T> {
    open spec fn sql(&self) -> Seq<char> {
        seq!['?']
    }

    open spec fn binds(&self) -> Result<Seq<ValueView>, WriteErrorView> {
        match self.value.written() {
            Ok(v) => Ok(seq![v]),
            Err(e) => Err(e),
        }
    }

    open spec fn cacheable(&self) -> bool {
        true
    }

    fn walk_ast(&self, out: &mut AstPass) -> (r: Result<(), QueryError>) {
        out.push_bind_param::<ST, T>(&self.value)
    }
}

/// Two fragments, one behind the other.
impl<A: QueryFragment, B: QueryFragment> QueryFragment for (A, B) {
    open spec fn sql(&self) -> Seq<char> {
        self.0.sql() + self.1.sql()
    }

    open spec fn binds(&self) -> Result<Seq<ValueView>, WriteErrorView> {
        chained(self.0.binds(), self.1.binds())
    }

    open spec fn cacheable(&self) -> bool {
        self.0.cacheable() && self.1.cacheable()
    }

    fn walk_ast(&self, out: &mut AstPass) -> (r: Result<(), QueryError>) {
        match self.0.walk_ast(out) {
            Ok(_) => {},
            Err(e) => {
                return Err(e);
            },
        }
        let r: Result<(), QueryError> = self.1.walk_ast(out);
        proof {
            if let Ok(binds) = self.binds() {
                assert(out@ =~= old(out)@.with(self.sql(), binds, self.cacheable()));
            }
        }
        r
    }
}

/// An expression of a known SQL type.
pub trait Expression {
    type SqlType;
}

impl<ST, T> Expression for Bound<ST, T> {
    type SqlType = ST;
}

/// A column of a table, of the SQL type `ST`.
#[derive(Debug)]
pub struct Column<ST> {
    pub table: &'static str,
    pub name: &'static str,
    pub sql_type: PhantomData<ST>,
}

/// The column `name` of `table`.
pub fn column_of<ST>(table: &'static str, name: &'static str) -> (column: Column<ST>)
    ensures
        column.table == table,
        column.name == name,
{
    Column { table, name, sql_type: PhantomData }
}

impl<ST> Expression for Column<ST> {
    type SqlType = ST;
}

impl<ST> QueryFragment for Column<ST> {
    open spec fn sql(&self) -> Seq<char> {
        backend::quoted(self.table@) + seq!['.'] + backend::quoted(self.name@)
    }

    open spec fn binds(&self) -> Result<Seq<ValueView>, WriteErrorView> {
        no_binds()
    }

    open spec fn cacheable(&self) -> bool {
        true
    }

    fn walk_ast(&self, out: &mut AstPass) -> (r: Result<(), QueryError>) {
        out.push_identifier(self.table)?;
        out.push_sql(".");
        out.push_identifier(self.name)?;
        proof {
            reveal_strlit(".");
            assert("."@ =~= seq!['.']);
            assert(out@ =~= old(out)@.with(self.sql(), Seq::empty(), true));
        }
        Ok(())
    }
}

/// A column of the row that an upsert was about to insert.
#[derive(Debug)]
pub struct Excluded<ST>(pub Column<ST>);

impl<ST> Expression for Excluded<ST> {
    type SqlType = ST;
}

impl<ST> QueryFragment for Excluded<ST> {
    open spec fn sql(&self) -> Seq<char> {
        "excluded."@ + backend::quoted(self.0.name@)
    }

    open spec fn binds(&self) -> Result<Seq<ValueView>, WriteErrorView> {
        no_binds()
    }

    open spec fn cacheable(&self) -> bool {
        true
    }

    fn walk_ast(&self, out: &mut AstPass) -> (r: Result<(), QueryError>) {
        out.push_sql("excluded.");
        out.push_identifier(self.0.name)?;
        assert(out@ =~= old(out)@.with(self.sql(), Seq::empty(), true));
        Ok(())
    }
}

/// A fragment in parentheses.
#[derive(Debug)]
pub struct Grouped<T>(pub T);

impl<T: Expression> Expression for Grouped<T> {
    type SqlType = T::SqlType;
}

impl<T: QueryFragment> QueryFragment for Grouped<T> {
    open spec fn sql(&self) -> Seq<char> {
        seq!['('] + self.0.sql() + seq![')']
    }

    open spec fn binds(&self) -> Result<Seq<ValueView>, WriteErrorView> {
        self.0.binds()
    }

    open spec fn cacheable(&self) -> bool {
        self.0.cacheable()
    }

    fn walk_ast(&self, out: &mut AstPass) -> (r: Result<(), QueryError>) {
        out.push_sql("(");
        match self.0.walk_ast(out) {
            Ok(_) => {},
            Err(e) => {
                return Err(e);
            },
        }
        out.push_sql(")");
        proof {
            reveal_strlit("(");
            reveal_strlit(")");
            assert("("@ =~= seq!['(']);
            assert(")"@ =~= seq![')']);
            assert(out@ =~= old(out)@.with(self.sql(), self.binds()->Ok_0, self.cacheable()));
        }
        Ok(())
    }
}

/// A query that selects `select` from `source`, with whatever follows the
/// source behind it.
#[derive(Debug)]
pub struct SelectQuery<S, F, R> {
    pub select: S,
    pub source: F,
    pub rest: R,
}

impl<S, F, R> SelectQuery<S, F, R> {
    /// The same query with another selection.
    pub fn select<T>(self, select: T) -> (query: SelectQuery<T, F, R>)
        ensures
            query.select == select,
            query.source == self.source,
            query.rest == self.rest,
    {
        SelectQuery { select, source: self.source, rest: self.rest }
    }
}

impl<S: QueryFragment, F: QueryFragment, R: QueryFragment> QueryFragment for SelectQuery<S, F, R> {
    open spec fn sql(&self) -> Seq<char> {
        "SELECT "@ + self.select.sql() + " FROM "@ + self.source.sql() + self.rest.sql()
    }

    open spec fn binds(&self) -> Result<Seq<ValueView>, WriteErrorView> {
        chained(chained(self.select.binds(), self.source.binds()), self.rest.binds())
    }

    open spec fn cacheable(&self) -> bool {
        self.select.cacheable() && self.source.cacheable() && self.rest.cacheable()
    }

    fn walk_ast(&self, out: &mut AstPass) -> (r: Result<(), QueryError>) {
        out.push_sql("SELECT ");
        match self.select.walk_ast(out) {
            Ok(_) => {},
            Err(e) => {
                return Err(e);
            },
        }
        out.push_sql(" FROM ");
        match self.source.walk_ast(out) {
            Ok(_) => {},
            Err(e) => {
                return Err(e);
            },
        }
        match self.rest.walk_ast(out) {
            Ok(_) => {},
            Err(e) => {
                return Err(e);
            },
        }
        assert(out@ =~= old(out)@.with(self.sql(), self.binds()->Ok_0, self.cacheable()));
        Ok(())
    }
}

// ---------------------------------------------------------------------------
// What every fragment keeps to
// ---------------------------------------------------------------------------

/// Binds are chained in order: those of the second stand behind those of the
/// first. The first that cannot be written is the error, whatever follows;
/// and no binds change nothing on either side.
pub proof fn binds_are_chained_in_order(
    a: Result<Seq<ValueView>, WriteErrorView>,
    b: Result<Seq<ValueView>, WriteErrorView>,
    c: Result<Seq<ValueView>, WriteErrorView>,
)
    ensures
        chained(a, b) is Ok <==> a is Ok && b is Ok,
        chained(a, b) matches Ok(all) ==> all.len() == a->Ok_0.len() + b->Ok_0.len() && all.take(
            a->Ok_0.len() as int,
        ) == a->Ok_0 && all.skip(a->Ok_0.len() as int) == b->Ok_0,
        a is Err ==> chained(a, b) == a,
        a is Ok && b is Err ==> chained(a, b) == b,
        chained(no_binds(), b) == b,
        chained(a, no_binds()) == a,
        chained(chained(a, b), c) == chained(a, chained(b, c)),
{
    if let (Ok(x), Ok(y)) = (a, b) {
        assert((x + y).take(x.len() as int) =~= x);
        assert((x + y).skip(x.len() as int) =~= y);
        if let Ok(z) = c {
            assert((x + y) + z =~= x + (y + z));
        }
    }
    if let Ok(y) = b {
        assert(Seq::<ValueView>::empty() + y =~= y);
    }
    if let Ok(x) = a {
        assert(x + Seq::<ValueView>::empty() =~= x);
    }
}

/// What a pass gathers, it keeps: adding a fragment leaves what was gathered
/// in front, and a query that was once unsafe to cache stays so.
pub proof fn passes_keep_what_they_gathered(
    pass: PassView,
    sql: Seq<char>,
    binds: Seq<ValueView>,
    safe_to_cache: bool,
    more_sql: Seq<char>,
    more_binds: Seq<ValueView>,
    more_safe: bool,
)
    ensures
        pass.with(sql, binds, safe_to_cache).sql.take(pass.sql.len() as int) == pass.sql,
        pass.with(sql, binds, safe_to_cache).sql.skip(pass.sql.len() as int) == sql,
        pass.with(sql, binds, safe_to_cache).binds.take(pass.binds.len() as int) == pass.binds,
        pass.with(sql, binds, safe_to_cache).binds.skip(pass.binds.len() as int) == binds,
        pass.with(sql, binds, safe_to_cache).safe_to_cache <==> pass.safe_to_cache && safe_to_cache,
        pass.with(sql, binds, safe_to_cache).with(more_sql, more_binds, more_safe) == pass.with(
            sql + more_sql,
            binds + more_binds,
            safe_to_cache && more_safe,
        ),
        fresh_pass().sql.len() == 0 && fresh_pass().binds.len() == 0 && fresh_pass().safe_to_cache,
{
    let next = pass.with(sql, binds, safe_to_cache);
    assert(next.sql.take(pass.sql.len() as int) =~= pass.sql);
    assert(next.sql.skip(pass.sql.len() as int) =~= sql);
    assert(next.binds.take(pass.binds.len() as int) =~= pass.binds);
    assert(next.binds.skip(pass.binds.len() as int) =~= binds);
    assert(next.with(more_sql, more_binds, more_safe) =~= pass.with(
        sql + more_sql,
        binds + more_binds,
        safe_to_cache && more_safe,
    ));
}

/// A value is one placeholder and one bind, the value as it is written. Only
/// SQL put together at run time is not bounded by its type.
pub proof fn values_are_bound_to_one_placeholder<ST, T: ToSql<ST>>(
    fragment: Bound<ST, T>,
    fixed: Keyword,
    literal: SqlLiteral,
    name: Identifier,
)
    ensures
        fragment.sql() == "?"@,
        fragment.binds() matches Ok(binds) ==> binds.len() == 1 && fragment.value.written() == Ok::<
            _,
            WriteErrorView,
        >(binds[0]),
        fragment.binds() matches Err(e) ==> fragment.value.written() == Err::<ValueView, _>(e),
        fixed.sql() == fixed.0@ && literal.sql() == literal.0@,
        name.sql() == backend::quoted(name.0@),
        fixed.binds() == no_binds() && literal.binds() == no_binds() && name.binds() == no_binds(),
        fragment.cacheable() && fixed.cacheable() && name.cacheable() && !literal.cacheable(),
{
    reveal_strlit("?");
    assert("?"@ =~= seq!['?']);
}

/// A column is its table's name and its own, each quoted, with a dot between
/// them; one that an upsert left out has `excluded` for a table.
pub proof fn columns_are_qualified<ST>(column: Column<ST>, other: Excluded<ST>)
    ensures
        column.sql() == backend::quoted(column.table@) + "."@ + backend::quoted(column.name@),
        other.sql() == "excluded"@ + "."@ + backend::quoted(other.0.name@),
        column.binds() == no_binds() && other.binds() == no_binds(),
        column.cacheable() && other.cacheable(),
{
    reveal_strlit(".");
    reveal_strlit("excluded");
    reveal_strlit("excluded.");
    assert("."@ =~= seq!['.']);
    assert("excluded."@ =~= "excluded"@ + "."@);
}

/// Parentheses add a character on either side and bind nothing. Behind one
/// another, fragments bind and are cached as their parts.
pub proof fn grouping_binds_nothing<A: QueryFragment, B: QueryFragment>(
    grouped: Grouped<A>,
    pair: (A, B),
)
    ensures
        grouped.sql().len() == grouped.0.sql().len() + 2,
        grouped.sql()[0] == '(' && grouped.sql().last() == ')',
        grouped.sql().subrange(1, grouped.sql().len() - 1) == grouped.0.sql(),
        grouped.binds() == grouped.0.binds(),
        grouped.cacheable() == grouped.0.cacheable(),
        pair.sql().take(pair.0.sql().len() as int) == pair.0.sql(),
        pair.sql().skip(pair.0.sql().len() as int) == pair.1.sql(),
        pair.binds() == chained(pair.0.binds(), pair.1.binds()),
        pair.cacheable() <==> pair.0.cacheable() && pair.1.cacheable(),
{
    assert(grouped.sql().subrange(1, grouped.sql().len() - 1) =~= grouped.0.sql());
    assert(pair.sql().take(pair.0.sql().len() as int) =~= pair.0.sql());
    assert(pair.sql().skip(pair.0.sql().len() as int) =~= pair.1.sql());
}

/// A query is what it selects, where from and what follows, in this order,
/// and so are its binds.
pub proof fn queries_are_in_order<S: QueryFragment, F: QueryFragment, R: QueryFragment>(
    query: SelectQuery<S, F, R>,
)
    ensures
        query.sql() == "SELECT "@ + query.select.sql() + " FROM "@ + (query.source, query.rest).sql(),
        query.binds() == (query.select, (query.source, query.rest)).binds(),
        query.cacheable() == (query.select, (query.source, query.rest)).cacheable(),
{
    assert(query.sql() =~= "SELECT "@ + query.select.sql() + " FROM "@ + (
        query.source,
        query.rest,
    ).sql());
    binds_are_chained_in_order(query.select.binds(), query.source.binds(), query.rest.binds());
}

} // verus!
