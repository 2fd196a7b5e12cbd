//! Reaching inside a UNION column: `union_extract`, `struct_extract` and
//! `union_tag`.

use std::marker::PhantomData;

use vstd::prelude::*;

use crate::backend::{HasSqlType, Turso, TursoType};
use crate::error::{QueryError, WriteErrorView};
use crate::query::{AstPass, Expression, QueryFragment};
use crate::sql_types::{IntoNullable, Nullable, TaggedUnion, Text};
use crate::value::ValueView;

verus! {

/// One variant of a UNION type, as a type.
pub trait UnionVariant {
    /// The Rust enum that it is a variant of.
    type Union;

    /// The SQL type that is extracted for it, which is always nullable.
    type Payload;

    /// Its position in the declaration, which is its tag on the wire.
    const TAG: u8;

    /// Its name, spelled as the engine stores it: a name that the engine
    /// quotes has the quotes in it.
    const TAG_NAME: &'static str;
}

/// The fields of one STRUCT payload, as a type.
pub trait CompositeShape {
    /// The names of the fields, in the order of the declaration.
    const FIELD_NAMES: &'static [&'static str];
}

/// One field of one composite, as a type.
pub trait CompositeField {
    /// The composite that it belongs to.
    type Shape;

    /// The SQL type that is extracted for it, which is always nullable.
    type SqlType;

    /// Its name, spelled as the engine stores it.
    const NAME: &'static str;

    /// Its position in the declaration, which is its position on the wire.
    const INDEX: usize;
}

/// The SQL type of a STRUCT payload.
#[derive(Debug, Default)]
pub struct Composite<S>(PhantomData<S>);

impl<S> Copy for Composite<S> {

}

impl<S> Clone for Composite<S> {
    fn clone(&self) -> (same: Self)
        ensures
            same == *self,
    {
        *self
    }
}

/// The nullable form of a SQL type, which of a nullable one is itself.
pub type NullableOf<ST> = <ST as IntoNullable>::Nullable;

impl<S> IntoNullable for Composite<S> {
    type Nullable = Nullable<Composite<S>>;
}

/// The SQL type of the payload that is extracted for a struct variant.
pub type NullableComposite<S> = Nullable<Composite<S>>;

/// A payload travels as a blob.
impl<S> HasSqlType<Composite<S>> for Turso {
    open spec fn class_of() -> TursoType {
        TursoType::Binary
    }

    fn metadata() -> (class: TursoType) {
        TursoType::Binary
    }
}

/// The SQL type of a UNION column, or of a nullable one.
pub trait UnionSqlType {
    /// The Rust enum behind the column.
    type Union;
}

impl<E> UnionSqlType for TaggedUnion<E> {
    type Union = E;
}

impl<E> UnionSqlType for Nullable<TaggedUnion<E>> {
    type Union = E;
}

/// The SQL type of a payload that has fields.
pub trait CompositeSqlType {
    /// The composite, which its fields belong to.
    type Shape;
}

impl<S> CompositeSqlType for Composite<S> {
    type Shape = S;
}

impl<S> CompositeSqlType for Nullable<Composite<S>> {
    type Shape = S;
}

// ---------------------------------------------------------------------------
// The nodes
// ---------------------------------------------------------------------------

/// `union_extract(<expr>, '<tag>')`: the payload of one variant, or NULL where
/// the value is of another.
#[derive(Debug, Default)]
pub struct Extract<E, V> {
    expr: E,
    variant: PhantomData<V>,
}

impl<E: Copy, V> Copy for Extract<E, V> {

}

impl<E: Clone, V> Clone for Extract<E, V> {
    fn clone(&self) -> (copy: Self)
        ensures
            cloned(self.expr(), copy.expr()),
    {
        Extract { expr: self.expr.clone(), variant: PhantomData }
    }
}

impl<E, V> Extract<E, V> {
    /// What is extracted from.
    pub closed spec fn expr(&self) -> E {
        self.expr
    }
}

/// `struct_extract(<expr>, '<field>')`: one field of a composite.
#[derive(Debug, Default)]
pub struct GetField<E, F> {
    expr: E,
    field: PhantomData<F>,
}

impl<E: Copy, F> Copy for GetField<E, F> {

}

impl<E: Clone, F> Clone for GetField<E, F> {
    fn clone(&self) -> (copy: Self)
        ensures
            cloned(self.expr(), copy.expr()),
    {
        GetField { expr: self.expr.clone(), field: PhantomData }
    }
}

impl<E, F> GetField<E, F> {
    /// What the field is taken from.
    pub closed spec fn expr(&self) -> E {
        self.expr
    }
}

/// `union_tag(<expr>)`: the name of the variant that a value is of.
#[derive(Debug, Default)]
pub struct UnionTag<E> {
    expr: E,
}

impl<E: Copy> Copy for UnionTag<E> {

}

impl<E: Clone> Clone for UnionTag<E> {
    fn clone(&self) -> (copy: Self)
        ensures
            cloned(self.expr(), copy.expr()),
    {
        UnionTag { expr: self.expr.clone() }
    }
}

impl<E> UnionTag<E> {
    /// Whose variant is named.
    pub closed spec fn expr(&self) -> E {
        self.expr
    }
}

impl<E: Expression, V: UnionVariant> Expression for Extract<E, V> where
    E::SqlType: UnionSqlType<Union = V::Union>,
 {
    type SqlType = V::Payload;
}

impl<E: Expression, F: CompositeField> Expression for GetField<E, F> where
    E::SqlType: CompositeSqlType<Shape = F::Shape>,
 {
    type SqlType = F::SqlType;
}

/// Every UNION value has a tag, so this one is not nullable.
impl<E: Expression> Expression for UnionTag<E> where E::SqlType: UnionSqlType {
    type SqlType = Text;
}

impl<E: QueryFragment, V: UnionVariant> QueryFragment for Extract<E, V> {
    open spec fn sql(&self) -> Seq<char> {
        "union_extract("@ + self.expr().sql() + ", '"@ + V::TAG_NAME@ + "')"@
    }

    open spec fn binds(&self) -> Result<Seq<ValueView>, WriteErrorView> {
        self.expr().binds()
    }

    open spec fn cacheable(&self) -> bool {
        self.expr().cacheable()
    }

    fn walk_ast(&self, out: &mut AstPass) -> (r: Result<(), QueryError>) {
        out.push_sql("union_extract(");
        match self.expr.walk_ast(out) {
            Ok(_) => {},
            Err(e) => {
                return Err(e);
            },
        }
        out.push_sql(", '");
        out.push_sql(V::TAG_NAME);
        out.push_sql("')");
        assert(out@ =~= old(out)@.with(self.sql(), self.binds()->Ok_0, self.cacheable()));
        Ok(())
    }
}

impl<E: QueryFragment, F: CompositeField> QueryFragment for GetField<E, F> {
    open spec fn sql(&self) -> Seq<char> {
        "struct_extract("@ + self.expr().sql() + ", '"@ + F::NAME@ + "')"@
    }

    open spec fn binds(&self) -> Result<Seq<ValueView>, WriteErrorView> {
        self.expr().binds()
    }

    open spec fn cacheable(&self) -> bool {
        self.expr().cacheable()
    }

    fn walk_ast(&self, out: &mut AstPass) -> (r: Result<(), QueryError>) {
        out.push_sql("struct_extract(");
        match self.expr.walk_ast(out) {
            Ok(_) => {},
            Err(e) => {
                return Err(e);
            },
        }
        out.push_sql(", '");
        out.push_sql(F::NAME);
        out.push_sql("')");
        assert(out@ =~= old(out)@.with(self.sql(), self.binds()->Ok_0, self.cacheable()));
        Ok(())
    }
}

impl<E: QueryFragment> QueryFragment for UnionTag<E> {
    open spec fn sql(&self) -> Seq<char> {
        "union_tag("@ + self.expr().sql() + ")"@
    }

    open spec fn binds(&self) -> Result<Seq<ValueView>, WriteErrorView> {
        self.expr().binds()
    }

    open spec fn cacheable(&self) -> bool {
        self.expr().cacheable()
    }

    fn walk_ast(&self, out: &mut AstPass) -> (r: Result<(), QueryError>) {
        out.push_sql("union_tag(");
        match self.expr.walk_ast(out) {
            Ok(_) => {},
            Err(e) => {
                return Err(e);
            },
        }
        out.push_sql(")");
        assert(out@ =~= old(out)@.with(self.sql(), self.binds()->Ok_0, self.cacheable()));
        Ok(())
    }
}

// ---------------------------------------------------------------------------
// Building them
// ---------------------------------------------------------------------------

/// `.extract(variant)` and `.union_tag()` on a UNION-typed expression.
pub trait UnionExpressionMethods: Expression + Sized {
    /// The payload of a variant of the column's own enum.
    fn extract<V: UnionVariant>(self, _variant: V) -> (node: Extract<Self, V>) where
        Self::SqlType: UnionSqlType<Union = V::Union>,

        ensures
            node.expr() == self,
    ;

    /// The name of the variant.
    fn union_tag(self) -> (node: UnionTag<Self>) where Self::SqlType: UnionSqlType
        ensures
            node.expr() == self,
    ;
}

impl<T: Expression> UnionExpressionMethods for T {
    fn extract<V: UnionVariant>(self, _variant: V) -> (node: Extract<Self, V>) where
        Self::SqlType: UnionSqlType<Union = V::Union>,
     {
        Extract { expr: self, variant: PhantomData }
    }

    fn union_tag(self) -> (node: UnionTag<Self>) where Self::SqlType: UnionSqlType {
        UnionTag { expr: self }
    }
}

/// `.field(field)` on a STRUCT payload.
pub trait CompositeExpressionMethods: Expression + Sized {
    /// A field of the payload's own composite.
    fn field<F: CompositeField>(self, _field: F) -> (node: GetField<Self, F>) where
        Self::SqlType: CompositeSqlType<Shape = F::Shape>,

        ensures
            node.expr() == self,
    ;
}

impl<T: Expression> CompositeExpressionMethods for T {
    fn field<F: CompositeField>(self, _field: F) -> (node: GetField<Self, F>) where
        Self::SqlType: CompositeSqlType<Shape = F::Shape>,
     {
        GetField { expr: self, field: PhantomData }
    }
}

/// Reaching inside a column binds nothing and keeps the statement as cacheable
/// as the column is: the names are part of its text.
pub proof fn reaching_inside_binds_nothing<E: QueryFragment, V: UnionVariant, F: CompositeField>(
    node: GetField<Extract<E, V>, F>,
)
    ensures
        node.binds() == node.expr().expr().binds(),
        node.cacheable() == node.expr().expr().cacheable(),
        node.sql() == "struct_extract("@ + ("union_extract("@ + node.expr().expr().sql() + ", '"@
            + V::TAG_NAME@ + "')"@) + ", '"@ + F::NAME@ + "')"@,
{
}

/// The three nodes are calls of the engine's functions on the expression, the
/// first two with the name in single quotes behind it.
pub proof fn nodes_are_calls_on_their_expression<
    E: QueryFragment,
    V: UnionVariant,
    F: CompositeField,
>(extract: Extract<E, V>, field: GetField<E, F>, tag: UnionTag<E>)
    ensures
        extract.sql() == "union_extract"@ + "("@ + extract.expr().sql() + ", "@ + "'"@
            + V::TAG_NAME@ + "'"@ + ")"@,
        field.sql() == "struct_extract"@ + "("@ + field.expr().sql() + ", "@ + "'"@ + F::NAME@
            + "'"@ + ")"@,
        tag.sql() == "union_tag"@ + "("@ + tag.expr().sql() + ")"@,
        extract.binds() == extract.expr().binds() && field.binds() == field.expr().binds()
            && tag.binds() == tag.expr().binds(),
        extract.cacheable() == extract.expr().cacheable() && field.cacheable()
            == field.expr().cacheable() && tag.cacheable() == tag.expr().cacheable(),
{
    reveal_strlit("(");
    reveal_strlit(")");
    reveal_strlit(", ");
    reveal_strlit("'");
    reveal_strlit(", '");
    reveal_strlit("')");
    reveal_strlit("union_extract");
    reveal_strlit("union_extract(");
    reveal_strlit("struct_extract");
    reveal_strlit("struct_extract(");
    reveal_strlit("union_tag");
    reveal_strlit("union_tag(");
    assert("union_extract("@ =~= "union_extract"@ + "("@);
    assert("struct_extract("@ =~= "struct_extract"@ + "("@);
    assert("union_tag("@ =~= "union_tag"@ + "("@);
    assert(", '"@ =~= ", "@ + "'"@);
    assert("')"@ =~= "'"@ + ")"@);
    assert(extract.sql() =~= "union_extract"@ + "("@ + extract.expr().sql() + ", "@ + "'"@
        + V::TAG_NAME@ + "'"@ + ")"@);
    assert(field.sql() =~= "struct_extract"@ + "("@ + field.expr().sql() + ", "@ + "'"@ + F::NAME@
        + "'"@ + ")"@);
}

} // verus!
