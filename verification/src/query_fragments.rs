//! Fragments that the engine's dialect spells in its own way: the insert
//! operators, LIMIT and OFFSET, rows without a DEFAULT keyword, and the select
//! of an upsert.

use vstd::prelude::*;

use crate::backend;
use crate::error::{QueryError, WriteErrorView};
use crate::query;
use crate::query::{AstPass, QueryFragment, SelectQuery};
use crate::text;
use crate::value::ValueView;

verus! {

/// An OFFSET wants a LIMIT in front of it. This one is no bound.
const LIMIT_NEG_ONE: &'static str = " LIMIT -1 ";

// ---------------------------------------------------------------------------
// Inserted values
// ---------------------------------------------------------------------------

/// A column and what is inserted into it.
#[derive(Debug)]
pub struct ColumnInsertValue<T> {
    pub column: &'static str,
    pub expression: T,
}

/// A column of an inserted row, or one that is left to its default. There is no
/// DEFAULT keyword, so a defaulted column is not mentioned at all.
#[derive(Debug)]
pub enum DefaultableColumnInsertValue<T> {
    Expression(ColumnInsertValue<T>),
    Default,
}

impl<T> DefaultableColumnInsertValue<T> {
    /// The column's part of the list of columns.
    pub open spec fn column_list(&self) -> Seq<char> {
        match self {
            DefaultableColumnInsertValue::Expression(inner) => backend::quoted(inner.column@),
            DefaultableColumnInsertValue::Default => Seq::empty(),
        }
    }

    /// Adds the column's name to `out`, where it has a value.
    pub fn column_names(&self, out: &mut AstPass) -> (r: Result<(), QueryError>)
        ensures
            r is Ok,
            final(out)@ == old(out)@.with(self.column_list(), Seq::empty(), true),
    {
        match self {
            DefaultableColumnInsertValue::Expression(inner) => out.push_identifier(inner.column),
            DefaultableColumnInsertValue::Default => {
                assert(out@ =~= out@.with(Seq::empty(), Seq::empty(), true));
                Ok(())
            },
        }
    }
}

impl<T: QueryFragment> QueryFragment for DefaultableColumnInsertValue<T> {
    open spec fn sql(&self) -> Seq<char> {
        match self {
            DefaultableColumnInsertValue::Expression(inner) => inner.expression.sql(),
            DefaultableColumnInsertValue::Default => Seq::empty(),
        }
    }

    open spec fn binds(&self) -> Result<Seq<ValueView>, WriteErrorView> {
        match self {
            DefaultableColumnInsertValue::Expression(inner) => inner.expression.binds(),
            DefaultableColumnInsertValue::Default => query::no_binds(),
        }
    }

    open spec fn cacheable(&self) -> bool {
        match self {
            DefaultableColumnInsertValue::Expression(inner) => inner.expression.cacheable(),
            DefaultableColumnInsertValue::Default => true,
        }
    }

    fn walk_ast(&self, out: &mut AstPass) -> (r: Result<(), QueryError>) {
        match self {
            DefaultableColumnInsertValue::Expression(inner) => inner.expression.walk_ast(out),
            DefaultableColumnInsertValue::Default => {
                assert(out@ =~= out@.with(Seq::empty(), Seq::empty(), true));
                Ok(())
            },
        }
    }
}

// ---------------------------------------------------------------------------
// Insert operators
// ---------------------------------------------------------------------------

/// `INSERT OR IGNORE`: a row that conflicts is passed over.
#[derive(Debug, Clone, Copy)]
pub struct InsertOrIgnore;

impl QueryFragment for InsertOrIgnore {
    open spec fn sql(&self) -> Seq<char> {
        "INSERT OR IGNORE"@
    }

    open spec fn binds(&self) -> Result<Seq<ValueView>, WriteErrorView> {
        query::no_binds()
    }

    open spec fn cacheable(&self) -> bool {
        true
    }

    fn walk_ast(&self, out: &mut AstPass) -> (r: Result<(), QueryError>) {
        out.push_sql("INSERT OR IGNORE");
        Ok(())
    }
}

/// `REPLACE`: a row that conflicts takes the other's place.
#[derive(Debug, Clone, Copy)]
pub struct Replace;

impl QueryFragment for Replace {
    open spec fn sql(&self) -> Seq<char> {
        "REPLACE"@
    }

    open spec fn binds(&self) -> Result<Seq<ValueView>, WriteErrorView> {
        query::no_binds()
    }

    open spec fn cacheable(&self) -> bool {
        true
    }

    fn walk_ast(&self, out: &mut AstPass) -> (r: Result<(), QueryError>) {
        out.push_sql("REPLACE");
        Ok(())
    }
}

// ---------------------------------------------------------------------------
// LIMIT and OFFSET
// ---------------------------------------------------------------------------

/// No LIMIT.
#[derive(Debug, Clone, Copy)]
pub struct NoLimitClause;

/// `LIMIT` and how much.
#[derive(Debug)]
pub struct LimitClause<L>(pub L);

/// No OFFSET.
#[derive(Debug, Clone, Copy)]
pub struct NoOffsetClause;

/// `OFFSET` and from where.
#[derive(Debug)]
pub struct OffsetClause<O>(pub O);

impl<L: QueryFragment> QueryFragment for LimitClause<L> {
    open spec fn sql(&self) -> Seq<char> {
        " LIMIT "@ + self.0.sql()
    }

    open spec fn binds(&self) -> Result<Seq<ValueView>, WriteErrorView> {
        self.0.binds()
    }

    open spec fn cacheable(&self) -> bool {
        self.0.cacheable()
    }

    fn walk_ast(&self, out: &mut AstPass) -> (r: Result<(), QueryError>) {
        out.push_sql(" LIMIT ");
        let r: Result<(), QueryError> = self.0.walk_ast(out);
        proof {
            if let Ok(binds) = self.binds() {
                assert(out@ =~= old(out)@.with(self.sql(), binds, self.cacheable()));
            }
        }
        r
    }
}

impl<O: QueryFragment> QueryFragment for OffsetClause<O> {
    open spec fn sql(&self) -> Seq<char> {
        " OFFSET "@ + self.0.sql()
    }

    open spec fn binds(&self) -> Result<Seq<ValueView>, WriteErrorView> {
        self.0.binds()
    }

    open spec fn cacheable(&self) -> bool {
        self.0.cacheable()
    }

    fn walk_ast(&self, out: &mut AstPass) -> (r: Result<(), QueryError>) {
        out.push_sql(" OFFSET ");
        let r: Result<(), QueryError> = self.0.walk_ast(out);
        proof {
            if let Ok(binds) = self.binds() {
                assert(out@ =~= old(out)@.with(self.sql(), binds, self.cacheable()));
            }
        }
        r
    }
}

/// The LIMIT and the OFFSET of a query, as far as it has them.
#[derive(Debug)]
pub struct LimitOffsetClause<L, O> {
    pub limit_clause: L,
    pub offset_clause: O,
}

/// What stands in front of an OFFSET without a LIMIT.
pub open spec fn unbounded_limit() -> Seq<char> {
    " LIMIT -1 "@
}

impl QueryFragment for LimitOffsetClause<NoLimitClause, NoOffsetClause> {
    open spec fn sql(&self) -> Seq<char> {
        Seq::empty()
    }

    open spec fn binds(&self) -> Result<Seq<ValueView>, WriteErrorView> {
        query::no_binds()
    }

    open spec fn cacheable(&self) -> bool {
        true
    }

    fn walk_ast(&self, out: &mut AstPass) -> (r: Result<(), QueryError>) {
        assert(out@ =~= out@.with(Seq::empty(), Seq::empty(), true));
        Ok(())
    }
}

impl<L: QueryFragment> QueryFragment for LimitOffsetClause<LimitClause<L>, NoOffsetClause> {
    open spec fn sql(&self) -> Seq<char> {
        self.limit_clause.sql()
    }

    open spec fn binds(&self) -> Result<Seq<ValueView>, WriteErrorView> {
        self.limit_clause.binds()
    }

    open spec fn cacheable(&self) -> bool {
        self.limit_clause.cacheable()
    }

    fn walk_ast(&self, out: &mut AstPass) -> (r: Result<(), QueryError>) {
        self.limit_clause.walk_ast(out)
    }
}

impl<O: QueryFragment> QueryFragment for LimitOffsetClause<NoLimitClause, OffsetClause<O>> {
    open spec fn sql(&self) -> Seq<char> {
        unbounded_limit() + self.offset_clause.sql()
    }

    open spec fn binds(&self) -> Result<Seq<ValueView>, WriteErrorView> {
        self.offset_clause.binds()
    }

    open spec fn cacheable(&self) -> bool {
        self.offset_clause.cacheable()
    }

    fn walk_ast(&self, out: &mut AstPass) -> (r: Result<(), QueryError>) {
        out.push_sql(LIMIT_NEG_ONE);
        let r: Result<(), QueryError> = self.offset_clause.walk_ast(out);
        proof {
            if let Ok(binds) = self.binds() {
                assert(out@ =~= old(out)@.with(self.sql(), binds, self.cacheable()));
            }
        }
        r
    }
}

impl<L: QueryFragment, O: QueryFragment> QueryFragment for LimitOffsetClause<
    LimitClause<L>,
    OffsetClause<O>,
> {
    open spec fn sql(&self) -> Seq<char> {
        self.limit_clause.sql() + self.offset_clause.sql()
    }

    open spec fn binds(&self) -> Result<Seq<ValueView>, WriteErrorView> {
        query::chained(self.limit_clause.binds(), self.offset_clause.binds())
    }

    open spec fn cacheable(&self) -> bool {
        self.limit_clause.cacheable() && self.offset_clause.cacheable()
    }

    fn walk_ast(&self, out: &mut AstPass) -> (r: Result<(), QueryError>) {
        match self.limit_clause.walk_ast(out) {
            Ok(_) => {},
            Err(e) => {
                return Err(e);
            },
        }
        let r: Result<(), QueryError> = self.offset_clause.walk_ast(out);
        proof {
            if let Ok(binds) = self.binds() {
                assert(out@ =~= old(out)@.with(self.sql(), binds, self.cacheable()));
            }
        }
        r
    }
}

/// A [`LimitOffsetClause`] that decides at run time which of the two it has.
pub struct BoxedLimitOffsetClause {
    pub limit: Option<Box<dyn QueryFragment>>,
    pub offset: Option<Box<dyn QueryFragment>>,
}

impl QueryFragment for BoxedLimitOffsetClause {
    open spec fn sql(&self) -> Seq<char> {
        match (self.limit, self.offset) {
            (Some(limit), Some(offset)) => limit.sql() + offset.sql(),
            (Some(limit), None) => limit.sql(),
            (None, Some(offset)) => unbounded_limit() + offset.sql(),
            (None, None) => Seq::empty(),
        }
    }

    open spec fn binds(&self) -> Result<Seq<ValueView>, WriteErrorView> {
        match (self.limit, self.offset) {
            (Some(limit), Some(offset)) => query::chained(limit.binds(), offset.binds()),
            (Some(limit), None) => limit.binds(),
            (None, Some(offset)) => offset.binds(),
            (None, None) => query::no_binds(),
        }
    }

    open spec fn cacheable(&self) -> bool {
        &&& match self.limit {
            Some(limit) => limit.cacheable(),
            None => true,
        }
        &&& match self.offset {
            Some(offset) => offset.cacheable(),
            None => true,
        }
    }

    fn walk_ast(&self, out: &mut AstPass) -> (r: Result<(), QueryError>) {
        match &self.limit {
            Some(limit) => match limit.walk_ast(out) {
                Ok(_) => {},
                Err(e) => {
                    return Err(e);
                },
            },
            None => match &self.offset {
                Some(_) => out.push_sql(LIMIT_NEG_ONE),
                None => {},
            },
        }
        match &self.offset {
            Some(offset) => match offset.walk_ast(out) {
                Ok(_) => {},
                Err(e) => {
                    return Err(e);
                },
            },
            None => {},
        }
        assert(out@ =~= old(out)@.with(self.sql(), self.binds()->Ok_0, self.cacheable()));
        Ok(())
    }
}

/// A clause that can put off to run time which of its parts it has.
pub trait IntoBoxedClause: QueryFragment + Sized {
    /// The same clause, deciding at run time.
    fn into_boxed(self) -> (boxed: BoxedLimitOffsetClause)
        ensures
            boxed.sql() == self.sql(),
            boxed.binds() == self.binds(),
            boxed.cacheable() == self.cacheable(),
    ;
}

impl IntoBoxedClause for LimitOffsetClause<NoLimitClause, NoOffsetClause> {
    fn into_boxed(self) -> (boxed: BoxedLimitOffsetClause) {
        BoxedLimitOffsetClause { limit: None, offset: None }
    }
}

impl<L: QueryFragment + 'static> IntoBoxedClause for LimitOffsetClause<
    LimitClause<L>,
    NoOffsetClause,
> {
    fn into_boxed(self) -> (boxed: BoxedLimitOffsetClause) {
        BoxedLimitOffsetClause { limit: Some(Box::new(self.limit_clause)), offset: None }
    }
}

impl<O: QueryFragment + 'static> IntoBoxedClause for LimitOffsetClause<
    NoLimitClause,
    OffsetClause<O>,
> {
    fn into_boxed(self) -> (boxed: BoxedLimitOffsetClause) {
        BoxedLimitOffsetClause { limit: None, offset: Some(Box::new(self.offset_clause)) }
    }
}

impl<L: QueryFragment + 'static, O: QueryFragment + 'static> IntoBoxedClause for LimitOffsetClause<
    LimitClause<L>,
    OffsetClause<O>,
> {
    fn into_boxed(self) -> (boxed: BoxedLimitOffsetClause) {
        BoxedLimitOffsetClause {
            limit: Some(Box::new(self.limit_clause)),
            offset: Some(Box::new(self.offset_clause)),
        }
    }
}

// ---------------------------------------------------------------------------
// The select of an upsert
// ---------------------------------------------------------------------------

/// `WHERE` and a condition.
#[derive(Debug)]
pub struct WhereClause<W>(pub W);

impl<W: QueryFragment> QueryFragment for WhereClause<W> {
    open spec fn sql(&self) -> Seq<char> {
        " WHERE "@ + self.0.sql()
    }

    open spec fn binds(&self) -> Result<Seq<ValueView>, WriteErrorView> {
        self.0.binds()
    }

    open spec fn cacheable(&self) -> bool {
        self.0.cacheable()
    }

    fn walk_ast(&self, out: &mut AstPass) -> (r: Result<(), QueryError>) {
        out.push_sql(" WHERE ");
        let r: Result<(), QueryError> = self.0.walk_ast(out);
        proof {
            if let Ok(binds) = self.binds() {
                assert(out@ =~= old(out)@.with(self.sql(), binds, self.cacheable()));
            }
        }
        r
    }
}

/// A query that decides at run time whether it has a condition.
pub struct BoxedSelectStatement<S, F, R> {
    pub select: S,
    pub source: F,
    pub where_clause: Option<Box<dyn QueryFragment>>,
    pub rest: R,
}

/// The select that feeds an upsert. `ON CONFLICT` behind a select that has no
/// WHERE reads as the ON of a join, so there is always one.
pub struct OnConflictSelectWrapper<S>(pub S);

impl<
    S: QueryFragment,
    F: QueryFragment,
    W: QueryFragment,
    R: QueryFragment,
> QueryFragment for OnConflictSelectWrapper<SelectQuery<S, F, (WhereClause<W>, R)>> {
    open spec fn sql(&self) -> Seq<char> {
        self.0.sql()
    }

    open spec fn binds(&self) -> Result<Seq<ValueView>, WriteErrorView> {
        self.0.binds()
    }

    open spec fn cacheable(&self) -> bool {
        self.0.cacheable()
    }

    fn walk_ast(&self, out: &mut AstPass) -> (r: Result<(), QueryError>) {
        self.0.walk_ast(out)
    }
}

/// The condition of an upsert's select: one that always holds, where it has
/// none of its own.
pub open spec fn upsert_condition(clause: Option<Box<dyn QueryFragment>>) -> Seq<char> {
    match clause {
        Some(condition) => " WHERE "@ + condition.sql(),
        None => " WHERE 1=1 "@,
    }
}

/// The binds of that condition.
pub open spec fn upsert_condition_binds(clause: Option<Box<dyn QueryFragment>>) -> Result<
    Seq<ValueView>,
    WriteErrorView,
> {
    match clause {
        Some(condition) => condition.binds(),
        None => query::no_binds(),
    }
}

impl<S: QueryFragment, F: QueryFragment, R: QueryFragment> QueryFragment for OnConflictSelectWrapper<
    BoxedSelectStatement<S, F, R>,
> {
    open spec fn sql(&self) -> Seq<char> {
        "SELECT "@ + self.0.select.sql() + " FROM "@ + self.0.source.sql() + upsert_condition(
            self.0.where_clause,
        ) + self.0.rest.sql()
    }

    open spec fn binds(&self) -> Result<Seq<ValueView>, WriteErrorView> {
        query::chained(
            query::chained(
                query::chained(self.0.select.binds(), self.0.source.binds()),
                upsert_condition_binds(self.0.where_clause),
            ),
            self.0.rest.binds(),
        )
    }

    open spec fn cacheable(&self) -> bool {
        &&& self.0.select.cacheable()
        &&& self.0.source.cacheable()
        &&& match self.0.where_clause {
            Some(condition) => condition.cacheable(),
            None => true,
        }
        &&& self.0.rest.cacheable()
    }

    fn walk_ast(&self, out: &mut AstPass) -> (r: Result<(), QueryError>) {
        out.push_sql("SELECT ");
        match self.0.select.walk_ast(out) {
            Ok(_) => {},
            Err(e) => {
                return Err(e);
            },
        }
        out.push_sql(" FROM ");
        match self.0.source.walk_ast(out) {
            Ok(_) => {},
            Err(e) => {
                return Err(e);
            },
        }
        match &self.0.where_clause {
            Some(condition) => {
                out.push_sql(" WHERE ");
                match condition.walk_ast(out) {
                    Ok(_) => {},
                    Err(e) => {
                        return Err(e);
                    },
                }
            },
            None => out.push_sql(" WHERE 1=1 "),
        }
        match self.0.rest.walk_ast(out) {
            Ok(_) => {},
            Err(e) => {
                return Err(e);
            },
        }
        assert(out@ =~= old(out)@.with(self.sql(), self.binds()->Ok_0, self.cacheable()));
        Ok(())
    }
}

// ---------------------------------------------------------------------------
// What the fragments keep to
// ---------------------------------------------------------------------------

/// An OFFSET never stands without a LIMIT in front of it.
pub proof fn an_offset_follows_a_limit<L: QueryFragment, O: QueryFragment>(
    with: LimitOffsetClause<LimitClause<L>, OffsetClause<O>>,
    without: LimitOffsetClause<NoLimitClause, OffsetClause<O>>,
    boxed: BoxedLimitOffsetClause,
)
    ensures
        text::stands_at(with.sql(), " LIMIT "@, 0),
        text::stands_at(without.sql(), " LIMIT "@, 0),
        boxed.limit is None && boxed.offset is Some ==> text::stands_at(
            boxed.sql(),
            " LIMIT "@,
            0,
        ),
{
    reveal_strlit(" LIMIT ");
    reveal_strlit(" LIMIT -1 ");
    let plain = " LIMIT "@;
    assert(plain.len() == 7);
    assert(with.sql().subrange(0, 7) =~= plain);
    assert(without.sql().subrange(0, 7) =~= plain);
    if boxed.limit is None && boxed.offset is Some {
        assert(boxed.sql().subrange(0, 7) =~= plain);
    }
}

/// The select of an upsert has a WHERE directly behind its source, whether or
/// not it has a condition.
pub proof fn an_upsert_has_a_where<S: QueryFragment, F: QueryFragment, R: QueryFragment>(
    wrapper: OnConflictSelectWrapper<BoxedSelectStatement<S, F, R>>,
)
    ensures
        text::stands_at(
            wrapper.sql(),
            " WHERE "@,
            ("SELECT "@ + wrapper.0.select.sql() + " FROM "@ + wrapper.0.source.sql()).len() as int,
        ),
{
    reveal_strlit(" WHERE ");
    reveal_strlit(" WHERE 1=1 ");
    let head = "SELECT "@ + wrapper.0.select.sql() + " FROM "@ + wrapper.0.source.sql();
    let n = head.len() as int;
    assert(" WHERE "@.len() == 7);
    assert(wrapper.sql().subrange(n, n + 7) =~= " WHERE "@);
}

/// A column is named exactly where it is given a value.
pub proof fn a_column_is_named_with_its_value<T>(value: DefaultableColumnInsertValue<T>)
    ensures
        value.column_list().len() == 0 <==> value is Default,
{
}

/// A column's name stands in the list of columns, quoted, and its value in
/// that of values; a defaulted one leaves no trace in either.
pub proof fn defaulted_columns_leave_no_trace<T: QueryFragment>(
    value: DefaultableColumnInsertValue<T>,
)
    ensures
        value matches DefaultableColumnInsertValue::Expression(inner) ==> value.column_list()
            == backend::quoted(inner.column@) && value.sql() == inner.expression.sql()
            && value.binds() == inner.expression.binds() && value.cacheable()
            == inner.expression.cacheable(),
        value is Default ==> value.column_list().len() == 0 && value.sql().len() == 0
            && value.binds() == query::no_binds() && value.cacheable(),
{
}

/// The insert operators are what the engine knows them as.
pub proof fn insert_operators_are_fixed(ignore: InsertOrIgnore, replace: Replace)
    ensures
        ignore.sql() == "INSERT"@ + " OR "@ + "IGNORE"@,
        replace.sql() == "REPLACE"@,
        ignore.binds() == query::no_binds() && replace.binds() == query::no_binds(),
        ignore.cacheable() && replace.cacheable(),
{
    reveal_strlit("INSERT");
    reveal_strlit(" OR ");
    reveal_strlit("IGNORE");
    reveal_strlit("INSERT OR IGNORE");
    assert("INSERT OR IGNORE"@ =~= "INSERT"@ + " OR "@ + "IGNORE"@);
}

/// A limit and an offset are their keywords and what follows them. Together,
/// the limit stands first, and so do its binds; an offset alone stands behind
/// a limit that bounds nothing; and neither is nothing.
pub proof fn limits_stand_before_offsets<L: QueryFragment, O: QueryFragment>(
    limit: LimitClause<L>,
    offset: OffsetClause<O>,
    none: LimitOffsetClause<NoLimitClause, NoOffsetClause>,
    first: LimitOffsetClause<LimitClause<L>, NoOffsetClause>,
    second: LimitOffsetClause<NoLimitClause, OffsetClause<O>>,
    both: LimitOffsetClause<LimitClause<L>, OffsetClause<O>>,
)
    ensures
        limit.sql() == " LIMIT "@ + limit.0.sql() && limit.binds() == limit.0.binds(),
        offset.sql() == " OFFSET "@ + offset.0.sql() && offset.binds() == offset.0.binds(),
        limit.cacheable() == limit.0.cacheable() && offset.cacheable() == offset.0.cacheable(),
        none.sql().len() == 0 && none.binds() == query::no_binds() && none.cacheable(),
        first.sql() == first.limit_clause.sql() && first.binds() == first.limit_clause.binds()
            && first.cacheable() == first.limit_clause.cacheable(),
        second.sql() == " LIMIT -1 "@ + second.offset_clause.sql() && second.binds()
            == second.offset_clause.binds() && second.cacheable()
            == second.offset_clause.cacheable(),
        both.sql() == (both.limit_clause, both.offset_clause).sql(),
        both.binds() == (both.limit_clause, both.offset_clause).binds(),
        both.cacheable() == (both.limit_clause, both.offset_clause).cacheable(),
{
}

/// A clause that decides at run time is what the clause of the same parts is.
pub proof fn boxed_clauses_are_as_their_parts(boxed: BoxedLimitOffsetClause)
    ensures
        boxed.limit is None && boxed.offset is None ==> boxed.sql().len() == 0 && boxed.binds()
            == query::no_binds() && boxed.cacheable(),
        boxed.limit matches Some(limit) ==> (boxed.offset is None ==> boxed.sql() == limit.sql()
            && boxed.binds() == limit.binds() && boxed.cacheable() == limit.cacheable()),
        boxed.offset matches Some(offset) ==> (boxed.limit is None ==> boxed.sql()
            == " LIMIT -1 "@ + offset.sql() && boxed.binds() == offset.binds() && boxed.cacheable()
            == offset.cacheable()),
        boxed.limit matches Some(limit) ==> (boxed.offset matches Some(offset) ==> boxed.sql()
            == limit.sql() + offset.sql() && boxed.binds() == query::chained(
            limit.binds(),
            offset.binds(),
        ) && boxed.cacheable() == (limit.cacheable() && offset.cacheable())),
{
}

/// The select of an upsert is the query itself where it has a condition. Where
/// that is decided at run time, one with a condition is the query with it, and
/// one without has a condition that binds nothing and always holds.
pub proof fn upserts_select_as_their_query<
    S: QueryFragment,
    F: QueryFragment,
    W: QueryFragment,
    R: QueryFragment,
>(
    fixed: OnConflictSelectWrapper<SelectQuery<S, F, (WhereClause<W>, R)>>,
    boxed: OnConflictSelectWrapper<BoxedSelectStatement<S, F, R>>,
    clause: WhereClause<W>,
)
    ensures
        clause.sql() == " WHERE "@ + clause.0.sql() && clause.binds() == clause.0.binds()
            && clause.cacheable() == clause.0.cacheable(),
        fixed.sql() == fixed.0.sql() && fixed.binds() == fixed.0.binds() && fixed.cacheable()
            == fixed.0.cacheable(),
        ({
            let head = "SELECT "@ + boxed.0.select.sql() + " FROM "@ + boxed.0.source.sql();
            let before = query::chained(boxed.0.select.binds(), boxed.0.source.binds());
            let bounded = boxed.0.select.cacheable() && boxed.0.source.cacheable()
                && boxed.0.rest.cacheable();
            match boxed.0.where_clause {
                Some(condition) => boxed.sql() == head + " WHERE "@ + condition.sql()
                    + boxed.0.rest.sql() && boxed.binds() == query::chained(
                    query::chained(before, condition.binds()),
                    boxed.0.rest.binds(),
                ) && boxed.cacheable() == (bounded && condition.cacheable()),
                None => boxed.sql() == head + " WHERE 1=1 "@ + boxed.0.rest.sql() && boxed.binds()
                    == query::chained(before, boxed.0.rest.binds()) && boxed.cacheable() == bounded,
            }
        }),
{
    let before = query::chained(boxed.0.select.binds(), boxed.0.source.binds());
    let head = "SELECT "@ + boxed.0.select.sql() + " FROM "@ + boxed.0.source.sql();
    query::binds_are_chained_in_order(before, query::no_binds(), query::no_binds());
    if let Some(condition) = boxed.0.where_clause {
        assert(boxed.sql() =~= head + " WHERE "@ + condition.sql() + boxed.0.rest.sql());
    }
}

} // verus!
