//! What building a query comes to, call by call.

use vstd::prelude::*;

use crate::array_comparison;
use crate::array_comparison::{Many, Subselect};
use crate::backend;
use crate::backend::{TursoQueryBuilder, TursoType};
use crate::bind::{TursoBindBuffer, TursoBindCollector};
use crate::error::{QueryError, WriteError, WriteErrorView};
use crate::expr;
use crate::expr::{BitAnd, Call, Exists};
use crate::pragma;
use crate::pragma::ForeignKeys;
use crate::query;
use crate::query::{
    AstPass, Bound, Column, Expression, Grouped, Prepared, QueryFragment, SelectQuery,
};
use crate::query_fragments::{ColumnInsertValue, DefaultableColumnInsertValue};
use crate::serialize;
use crate::serialize::ToSql;
use crate::sql_types::{Integer, Nullable};
use crate::types::RealBits;
use crate::value;
use crate::value::{Value, ValueView};

verus! {

/// A query in the making is what was appended to it, in order: SQL as it
/// stands, identifiers in quotes, and a question mark to a placeholder.
pub proof fn queries_are_appended_to(
    first: &mut TursoQueryBuilder,
    sql: &str,
    second: &mut TursoQueryBuilder,
    identifier: &str,
    r: Result<(), QueryError>,
    third: &mut TursoQueryBuilder,
    done: String,
)
    requires
        old(first)@.len() == 0,
        call_ensures(TursoQueryBuilder::push_sql, (first, sql), ()),
        *old(second) == *final(first),
        call_ensures(TursoQueryBuilder::push_identifier, (second, identifier), r),
        *old(third) == *final(second),
        call_ensures(TursoQueryBuilder::push_bind_param, (third,), ()),
        call_ensures(TursoQueryBuilder::finish, (*final(third),), done),
    ensures
        r is Ok,
        done@ == sql@ + backend::quoted(identifier@) + "?"@,
{
    reveal_strlit("?");
    assert(done@ =~= sql@ + backend::quoted(identifier@) + "?"@);
}

/// A pass gathers text and binds in step: SQL and identifiers bind nothing, a
/// bound value is one placeholder and one bind, and only a fragment that says
/// so makes the query unsafe to cache.
pub proof fn passes_gather_in_step<ST, T: ToSql<ST>>(
    first: &mut AstPass,
    sql: &str,
    second: &mut AstPass,
    identifier: &str,
    named: Result<(), QueryError>,
    third: &mut AstPass,
    v: &T,
    bound: Result<(), QueryError>,
    fourth: &mut AstPass,
    done: Prepared,
)
    requires
        old(first)@ == query::fresh_pass(),
        call_ensures(AstPass::push_sql, (first, sql), ()),
        *old(second) == *final(first),
        call_ensures(AstPass::push_identifier, (second, identifier), named),
        *old(third) == *final(second),
        call_ensures(AstPass::push_bind_param::<ST, T>, (third, v), bound),
        *old(fourth) == *final(third),
        call_ensures(AstPass::unsafe_to_cache_prepared, (fourth,), ()),
        call_ensures(AstPass::finish, (*final(fourth),), done),
    ensures
        named is Ok,
        final(second)@.safe_to_cache && final(second)@.binds.len() == 0,
        final(second)@.sql == sql@ + backend::quoted(identifier@),
        bound is Ok <==> v.written() is Ok,
        bound is Ok ==> final(third)@.safe_to_cache && !done.safe_to_cache && done.sql@ == sql@
            + backend::quoted(identifier@) + "?"@ && done.binds@.len() == 1 && v.written() == Ok::<
            _,
            WriteErrorView,
        >(done.binds@[0]@),
{
    reveal_strlit("?");
    assert(final(second)@.sql =~= sql@ + backend::quoted(identifier@));
    if bound is Ok {
        assert(done.sql@ =~= sql@ + backend::quoted(identifier@) + "?"@);
        assert(value::views(done.binds@).len() == done.binds@.len());
        assert(value::views(done.binds@)[0] == done.binds@[0]@);
    }
}

/// A query is prepared exactly where all of it can be bound, as its own text
/// with its own binds.
pub proof fn queries_are_prepared_as_they_are<T: QueryFragment>(
    source: &T,
    r: Result<Prepared, QueryError>,
)
    requires
        call_ensures(query::prepare::<T>, (source,), r),
    ensures
        r is Ok <==> source.binds() is Ok,
        r matches Ok(p) ==> p.sql@ == source.sql() && value::views(p.binds@)
            == source.binds()->Ok_0 && p.safe_to_cache == source.cacheable(),
        r matches Err(e) ==> (e matches QueryError::SerializationError(reason) && source.binds()
            == Err::<Seq<ValueView>, _>(reason@)),
{
}

/// Binds are collected in order. A NULL takes its place among them whatever
/// the class, and one that cannot be written takes none.
pub proof fn binds_are_collected_in_order<ST, T: ToSql<ST>>(
    first: &mut TursoBindCollector,
    bind: &T,
    r: Result<(), QueryError>,
    second: &mut TursoBindCollector,
    class: TursoType,
    null: Result<(), QueryError>,
    all: Vec<Value>,
)
    requires
        old(first)@.len() == 0,
        call_ensures(TursoBindCollector::push_bound_value::<ST, T>, (first, bind), r),
        *old(second) == *final(first),
        call_ensures(TursoBindCollector::push_null_value, (second, class), null),
        call_ensures(TursoBindCollector::into_values, (*final(second),), all),
    ensures
        null is Ok,
        r is Ok <==> bind.written() is Ok,
        r is Ok ==> all@.len() == 2 && bind.written() == Ok::<_, WriteErrorView>(all@[0]@),
        r is Err ==> all@.len() == 1,
        all@.last()@ is Null,
{
    assert(value::views(all@).len() == all@.len());
    assert(value::views(all@).last() == all@.last()@);
    if r is Ok {
        assert(value::views(all@)[0] == all@[0]@);
    }
}

/// A buffer holds what it was made of, each value in its own storage class.
pub proof fn buffers_hold_what_they_were_made_of(
    a: i16,
    of_a: TursoBindBuffer,
    b: i32,
    of_b: TursoBindBuffer,
    c: i64,
    of_c: TursoBindBuffer,
    d: bool,
    of_d: TursoBindBuffer,
    e: String,
    of_e: TursoBindBuffer,
    f: Vec<u8>,
    of_f: TursoBindBuffer,
    g: RealBits,
    of_g: TursoBindBuffer,
    out: Value,
)
    requires
        call_ensures(<TursoBindBuffer as From<i16>>::from, (a,), of_a),
        call_ensures(<TursoBindBuffer as From<i32>>::from, (b,), of_b),
        call_ensures(<TursoBindBuffer as From<i64>>::from, (c,), of_c),
        call_ensures(<TursoBindBuffer as From<bool>>::from, (d,), of_d),
        call_ensures(<TursoBindBuffer as From<String>>::from, (e,), of_e),
        call_ensures(<TursoBindBuffer as From<Vec<u8>>>::from, (f,), of_f),
        call_ensures(<TursoBindBuffer as From<RealBits>>::from, (g,), of_g),
        call_ensures(TursoBindBuffer::into_value, (of_c,), out),
    ensures
        of_a@ == ValueView::Integer(a as i64),
        of_b@ == ValueView::Integer(b as i64),
        of_c@ == ValueView::Integer(c),
        of_d@ == ValueView::Integer(if d {
            1
        } else {
            0
        }),
        of_e@ == ValueView::Text(e@),
        of_f@ == ValueView::Blob(f@),
        of_g@ == ValueView::Real(g.0),
        out@ == ValueView::Integer(c),
{
}

/// Both arities of `coalesce` are calls of one function with their arguments
/// in order.
pub proof fn fallbacks_stand_second<
    ST,
    A: Expression<SqlType = Nullable<ST>> + QueryFragment,
    B: Expression<SqlType = ST> + QueryFragment,
    C: Expression<SqlType = Nullable<ST>> + QueryFragment,
>(a: A, b: B, first: Call<A, B, ST>, c: C, second: Call<A, C, Nullable<ST>>)
    requires
        call_ensures(expr::coalesce::<ST, A, B>, (a, b), first),
        call_ensures(expr::coalesce_opt::<ST, A, C>, (a, c), second),
    ensures
        first.sql() == "coalesce"@ + "("@ + a.sql() + ", "@ + b.sql() + ")"@,
        second.sql() == "coalesce"@ + "("@ + a.sql() + ", "@ + c.sql() + ")"@,
        first.binds() == query::chained(a.binds(), b.binds()),
        second.binds() == query::chained(a.binds(), c.binds()),
{
}

/// A bitwise AND is kept together by parentheses, with its operands in order.
pub proof fn masks_are_kept_together<
    A: Expression + QueryFragment,
    B: Expression<SqlType = A::SqlType> + QueryFragment,
>(a: A, b: B, masked: Grouped<BitAnd<A, B>>)
    requires
        call_ensures(expr::bit_and::<A, B>, (a, b), masked),
    ensures
        masked.sql() == "("@ + a.sql() + " & "@ + b.sql() + ")"@,
        masked.binds() == query::chained(a.binds(), b.binds()),
{
    reveal_strlit("(");
    reveal_strlit(")");
    assert(masked.sql() =~= "("@ + a.sql() + " & "@ + b.sql() + ")"@);
}

/// An existence test selects one bound 1, whatever the query selects, from the
/// same source and with the same that follows it.
pub proof fn existence_tests_select_one<S: QueryFragment, F: QueryFragment, R: QueryFragment>(
    given: SelectQuery<S, F, R>,
    test: Exists<SelectQuery<Bound<Integer, i32>, F, R>>,
)
    requires
        call_ensures(expr::exists_over::<S, F, R>, (given,), test),
    ensures
        test.sql() == "EXISTS (SELECT ? FROM "@ + given.source.sql() + given.rest.sql() + ")"@,
        given.source.binds() is Ok && given.rest.binds() is Ok ==> (test.binds() matches Ok(binds)
            && binds == seq![ValueView::Integer(1)] + given.source.binds()->Ok_0
            + given.rest.binds()->Ok_0),
{
    reveal_strlit("EXISTS (");
    reveal_strlit("SELECT ");
    reveal_strlit(" FROM ");
    reveal_strlit("EXISTS (SELECT ? FROM ");
    reveal_strlit(")");
    assert(test.sql() =~= "EXISTS (SELECT ? FROM "@ + given.source.sql() + given.rest.sql()
        + ")"@);
}

/// The fragments to build with keep what they are made of.
pub proof fn fragments_keep_what_they_are_made_of<ST, T: ToSql<ST>, Q: QueryFragment>(
    value: T,
    bound: Bound<ST, T>,
    table: &'static str,
    name: &'static str,
    column: Column<ST>,
    values: Vec<T>,
    list: Many<ST, T>,
    inner: Q,
    nested: Subselect<ST, Q>,
)
    requires
        call_ensures(query::bound::<ST, T>, (value,), bound),
        call_ensures(query::column_of::<ST>, (table, name), column),
        call_ensures(array_comparison::many::<ST, T>, (values,), list),
        call_ensures(array_comparison::subselect::<ST, Q>, (inner,), nested),
    ensures
        bound.value == value,
        column.table == table && column.name == name,
        column.sql() == backend::quoted(table@) + "."@ + backend::quoted(name@),
        list.values == values,
        nested.sql() == inner.sql() && nested.binds() == inner.binds(),
{
    query::columns_are_qualified(column, query::Excluded(column));
}

/// Enforcing foreign keys is turned on or off as was asked.
pub proof fn foreign_keys_are_set_as_asked(enabled: bool, statement: ForeignKeys, sql: &'static str)
    requires
        call_ensures(pragma::foreign_keys, (enabled,), statement),
        call_ensures(ForeignKeys::sql, (statement,), sql),
    ensures
        enabled ==> sql@ == "PRAGMA foreign_keys = ON"@,
        !enabled ==> sql@ == "PRAGMA foreign_keys = OFF"@,
        QueryFragment::sql(&statement) == sql@,
{
}

/// A buffer is overwritten by what is put into it.
pub proof fn buffers_hold_what_was_put_last(
    buffer: &mut TursoBindBuffer,
    next: TursoBindBuffer,
    out: Value,
)
    requires
        call_ensures(TursoBindBuffer::set_value, (buffer, next), ()),
        call_ensures(TursoBindBuffer::into_value, (*final(buffer),), out),
    ensures
        out@ == next@,
{
}

/// A value on its own is written as it is bound.
pub proof fn values_are_written_as_they_are_bound<ST, T: ToSql<ST>>(
    value: &T,
    r: Result<Value, WriteError>,
)
    requires
        call_ensures(serialize::write_value::<ST, T>, (value,), r),
    ensures
        r is Ok <==> value.written() is Ok,
        r matches Ok(v) ==> value.written()->Ok_0 == v@,
        r matches Err(e) ==> value.written()->Err_0 == e@,
{
}

/// Another selection leaves the source and what follows it.
pub proof fn selections_are_replaced_alone<S, F, R, T>(
    given: SelectQuery<S, F, R>,
    select: T,
    next: SelectQuery<T, F, R>,
)
    requires
        call_ensures(SelectQuery::<S, F, R>::select::<T>, (given, select), next),
    ensures
        next.select == select && next.source == given.source && next.rest == given.rest,
{
}

/// A column with a value is named, quoted, in the list of columns, and a
/// defaulted one adds nothing to it.
pub proof fn valued_columns_are_named<T>(
    column: &'static str,
    expression: T,
    named: &mut AstPass,
    r: Result<(), QueryError>,
    left: &mut AstPass,
    nothing: Result<(), QueryError>,
)
    requires
        call_ensures(
            DefaultableColumnInsertValue::<T>::column_names,
            (
                &DefaultableColumnInsertValue::Expression(
                    ColumnInsertValue { column, expression },
                ),
                named,
            ),
            r,
        ),
        call_ensures(
            DefaultableColumnInsertValue::<T>::column_names,
            (&DefaultableColumnInsertValue::Default, left),
            nothing,
        ),
    ensures
        r is Ok && nothing is Ok,
        final(named)@.sql == old(named)@.sql + backend::quoted(column@),
        final(named)@.binds == old(named)@.binds,
        final(left)@.sql == old(left)@.sql,
        final(left)@.binds == old(left)@.binds,
        final(left)@.safe_to_cache == old(left)@.safe_to_cache,
{
    assert(final(named)@.binds =~= old(named)@.binds);
    assert(final(left)@.sql =~= old(left)@.sql);
    assert(final(left)@.binds =~= old(left)@.binds);
}

} // verus!
