//! SQL functions and operators of the SQLite family: the two-argument `max`
//! and `min`, `coalesce`, bitwise `&`, and an existence test.

use std::marker::PhantomData;

use vstd::prelude::*;

use crate::error::{QueryError, WriteErrorView};
use crate::query;
use crate::query::{bound, AstPass, Bound, Expression, Grouped, QueryFragment, SelectQuery};
use crate::sql_types::{Integer, Nullable};
use crate::value::ValueView;

verus! {

/// A call of a function of two arguments, whose result has the type `ST`.
#[derive(Debug)]
pub struct Call<A, B, ST> {
    name: &'static str,
    first: A,
    second: B,
    result: PhantomData<ST>,
}

impl<A, B, ST> Call<A, B, ST> {
    /// The function.
    pub closed spec fn name(&self) -> Seq<char> {
        self.name@
    }

    /// Its first argument.
    pub closed spec fn first(&self) -> A {
        self.first
    }

    /// Its second argument.
    pub closed spec fn second(&self) -> B {
        self.second
    }
}

impl<A, B, ST> Expression for Call<A, B, ST> {
    type SqlType = ST;
}

impl<A: QueryFragment, B: QueryFragment, ST> QueryFragment for Call<A, B, ST> {
    open spec fn sql(&self) -> Seq<char> {
        self.name() + "("@ + self.first().sql() + ", "@ + self.second().sql() + ")"@
    }

    open spec fn binds(&self) -> Result<Seq<ValueView>, WriteErrorView> {
        query::chained(self.first().binds(), self.second().binds())
    }

    open spec fn cacheable(&self) -> bool {
        self.first().cacheable() && self.second().cacheable()
    }

    fn walk_ast(&self, out: &mut AstPass) -> (r: Result<(), QueryError>) {
        out.push_sql(self.name);
        out.push_sql("(");
        match self.first.walk_ast(out) {
            Ok(_) => {},
            Err(e) => {
                return Err(e);
            },
        }
        out.push_sql(", ");
        match self.second.walk_ast(out) {
            Ok(_) => {},
            Err(e) => {
                return Err(e);
            },
        }
        out.push_sql(")");
        assert(out@ =~= old(out)@.with(self.sql(), self.binds()->Ok_0, self.cacheable()));
        Ok(())
    }
}

/// The scalar `max(a, b)`, not the aggregate.
pub fn max2<ST, A: Expression<SqlType = ST>, B: Expression<SqlType = ST>>(a: A, b: B) -> (call:
    Call<A, B, ST>)
    ensures
        call.name() == "max"@,
        call.first() == a,
        call.second() == b,
{
    Call { name: "max", first: a, second: b, result: PhantomData }
}

/// The scalar `min(a, b)`, not the aggregate.
pub fn min2<ST, A: Expression<SqlType = ST>, B: Expression<SqlType = ST>>(a: A, b: B) -> (call:
    Call<A, B, ST>)
    ensures
        call.name() == "min"@,
        call.first() == a,
        call.second() == b,
{
    Call { name: "min", first: a, second: b, result: PhantomData }
}

/// `coalesce(a, b)`: `a` unless it is NULL, and then `b`, which is not.
pub fn coalesce<ST, A: Expression<SqlType = Nullable<ST>>, B: Expression<SqlType = ST>>(
    a: A,
    b: B,
) -> (call: Call<A, B, ST>)
    ensures
        call.name() == "coalesce"@,
        call.first() == a,
        call.second() == b,
{
    Call { name: "coalesce", first: a, second: b, result: PhantomData }
}

/// `coalesce(a, b)` where the fallback may itself be NULL, so that the result
/// may be too.
pub fn coalesce_opt<
    ST,
    A: Expression<SqlType = Nullable<ST>>,
    B: Expression<SqlType = Nullable<ST>>,
>(a: A, b: B) -> (call: Call<A, B, Nullable<ST>>)
    ensures
        call.name() == "coalesce"@,
        call.first() == a,
        call.second() == b,
{
    Call { name: "coalesce", first: a, second: b, result: PhantomData }
}

/// `a & b`. It takes the type of its left operand.
#[derive(Debug)]
pub struct BitAnd<A, B> {
    left: A,
    right: B,
}

impl<A, B> BitAnd<A, B> {
    /// The left operand.
    pub closed spec fn left(&self) -> A {
        self.left
    }

    /// The right operand.
    pub closed spec fn right(&self) -> B {
        self.right
    }
}

impl<A: Expression, B> Expression for BitAnd<A, B> {
    type SqlType = A::SqlType;
}

impl<A: QueryFragment, B: QueryFragment> QueryFragment for BitAnd<A, B> {
    open spec fn sql(&self) -> Seq<char> {
        self.left().sql() + " & "@ + self.right().sql()
    }

    open spec fn binds(&self) -> Result<Seq<ValueView>, WriteErrorView> {
        query::chained(self.left().binds(), self.right().binds())
    }

    open spec fn cacheable(&self) -> bool {
        self.left().cacheable() && self.right().cacheable()
    }

    fn walk_ast(&self, out: &mut AstPass) -> (r: Result<(), QueryError>) {
        match self.left.walk_ast(out) {
            Ok(_) => {},
            Err(e) => {
                return Err(e);
            },
        }
        out.push_sql(" & ");
        match self.right.walk_ast(out) {
            Ok(_) => {},
            Err(e) => {
                return Err(e);
            },
        }
        assert(out@ =~= old(out)@.with(self.sql(), self.binds()->Ok_0, self.cacheable()));
        Ok(())
    }
}

/// `(a & b)`, bitwise AND, for the columns that are bitsets. The parentheses
/// keep it together in a comparison.
pub fn bit_and<A: Expression, B: Expression<SqlType = A::SqlType>>(a: A, b: B) -> (masked: Grouped<
    BitAnd<A, B>,
>)
    ensures
        masked.0.left() == a,
        masked.0.right() == b,
{
    Grouped(BitAnd { left: a, right: b })
}

/// `EXISTS (…)`.
#[derive(Debug)]
pub struct Exists<Q>(pub Q);

impl<Q: QueryFragment> QueryFragment for Exists<Q> {
    open spec fn sql(&self) -> Seq<char> {
        "EXISTS ("@ + self.0.sql() + ")"@
    }

    open spec fn binds(&self) -> Result<Seq<ValueView>, WriteErrorView> {
        self.0.binds()
    }

    open spec fn cacheable(&self) -> bool {
        self.0.cacheable()
    }

    fn walk_ast(&self, out: &mut AstPass) -> (r: Result<(), QueryError>) {
        out.push_sql("EXISTS (");
        match self.0.walk_ast(out) {
            Ok(_) => {},
            Err(e) => {
                return Err(e);
            },
        }
        out.push_sql(")");
        assert(out@ =~= old(out)@.with(self.sql(), self.binds()->Ok_0, self.cacheable()));
        Ok(())
    }
}

/// An existence test over a query: `EXISTS (SELECT 1 FROM …)`, with the one
/// bound, whatever the query itself selects.
pub fn exists_over<S, F, R>(query: SelectQuery<S, F, R>) -> (test: Exists<
    SelectQuery<Bound<Integer, i32>, F, R>,
>)
    ensures
        test.0.select.value == 1,
        test.0.source == query.source,
        test.0.rest == query.rest,
{
    Exists(query.select(bound::<Integer, i32>(1)))
}

/// A call's text and binds do not depend on the type of its result: both
/// arities of `coalesce` are rendered alike.
pub proof fn types_are_not_rendered<A: QueryFragment, B: QueryFragment, S, T>(
    a: Call<A, B, S>,
    b: Call<A, B, T>,
)
    requires
        a.name() == b.name(),
        a.first() == b.first(),
        a.second() == b.second(),
    ensures
        a.sql() == b.sql(),
        a.binds() == b.binds(),
        a.cacheable() == b.cacheable(),
{
}

/// A call is its function's name and its two arguments in order, in
/// parentheses and with a comma between them; and so are its binds.
pub proof fn calls_keep_their_arguments_in_order<A: QueryFragment, B: QueryFragment, ST>(
    call: Call<A, B, ST>,
)
    ensures
        call.sql() == call.name() + Grouped((call.first(), (query::Keyword(", "), call.second()))).sql(),
        call.binds() == query::chained(call.first().binds(), call.second().binds()),
        call.cacheable() <==> call.first().cacheable() && call.second().cacheable(),
{
    reveal_strlit("(");
    reveal_strlit(")");
    assert(call.sql() =~= call.name() + (seq!['('] + (call.first().sql() + (", "@
        + call.second().sql())) + seq![')']));
}

/// A bitwise AND has its operands in order around the operator, and an
/// existence test its query in parentheses. Neither binds anything itself.
pub proof fn operators_keep_their_operands<A: QueryFragment, B: QueryFragment>(
    masked: BitAnd<A, B>,
    test: Exists<A>,
)
    ensures
        masked.sql() == masked.left().sql() + " & "@ + masked.right().sql(),
        masked.binds() == query::chained(masked.left().binds(), masked.right().binds()),
        masked.cacheable() <==> masked.left().cacheable() && masked.right().cacheable(),
        test.sql() == "EXISTS "@ + Grouped(test.0).sql(),
        test.binds() == test.0.binds(),
        test.cacheable() == test.0.cacheable(),
{
    reveal_strlit("EXISTS (");
    reveal_strlit("EXISTS ");
    reveal_strlit(")");
    assert(test.sql() =~= "EXISTS "@ + Grouped(test.0).sql());
}

} // verus!
