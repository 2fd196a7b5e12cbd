use diesel_turso::query::{bound, prepare, AstPass, Bound, Identifier, Keyword, QueryFragment, SelectQuery};
use diesel_turso::query_fragments::{
    BoxedSelectStatement, ColumnInsertValue, DefaultableColumnInsertValue, InsertOrIgnore,
    IntoBoxedClause, LimitClause, LimitOffsetClause, NoLimitClause, NoOffsetClause, OffsetClause,
    OnConflictSelectWrapper, Replace, WhereClause,
};
use diesel_turso::sql_types::BigInt;
use diesel_turso::value::Value;

fn n(value: i64) -> Bound<BigInt, i64> {
    bound(value)
}

fn rendered<Q: QueryFragment>(q: &Q) -> (String, Vec<Value>) {
    let p = prepare(q).unwrap();
    (p.sql, p.binds)
}

fn limit(value: i64) -> LimitClause<Bound<BigInt, i64>> {
    LimitClause(n(value))
}

fn offset(value: i64) -> OffsetClause<Bound<BigInt, i64>> {
    OffsetClause(n(value))
}

#[test]
fn insert_operators() {
    assert_eq!(rendered(&InsertOrIgnore).0, "INSERT OR IGNORE");
    assert_eq!(rendered(&Replace).0, "REPLACE");
}

#[test]
fn an_offset_wants_a_limit() {
    let neither = LimitOffsetClause { limit_clause: NoLimitClause, offset_clause: NoOffsetClause };
    assert_eq!(rendered(&neither), (String::new(), vec![]));
    let limited = LimitOffsetClause { limit_clause: limit(5), offset_clause: NoOffsetClause };
    assert_eq!(
        rendered(&limited),
        (" LIMIT ?".to_string(), vec![Value::Integer(5)])
    );
    let skipped = LimitOffsetClause { limit_clause: NoLimitClause, offset_clause: offset(2) };
    assert_eq!(
        rendered(&skipped),
        (" LIMIT -1  OFFSET ?".to_string(), vec![Value::Integer(2)])
    );
    let both = LimitOffsetClause { limit_clause: limit(5), offset_clause: offset(2) };
    assert_eq!(
        rendered(&both),
        (
            " LIMIT ? OFFSET ?".to_string(),
            vec![Value::Integer(5), Value::Integer(2)]
        )
    );
}

#[test]
fn boxing_changes_no_text() {
    let neither = LimitOffsetClause { limit_clause: NoLimitClause, offset_clause: NoOffsetClause };
    assert_eq!(rendered(&neither.into_boxed()), (String::new(), vec![]));
    let limited = LimitOffsetClause { limit_clause: limit(5), offset_clause: NoOffsetClause };
    assert_eq!(
        rendered(&limited.into_boxed()),
        (" LIMIT ?".to_string(), vec![Value::Integer(5)])
    );
    let skipped = LimitOffsetClause { limit_clause: NoLimitClause, offset_clause: offset(2) };
    assert_eq!(
        rendered(&skipped.into_boxed()),
        (" LIMIT -1  OFFSET ?".to_string(), vec![Value::Integer(2)])
    );
    let both = LimitOffsetClause { limit_clause: limit(5), offset_clause: offset(2) };
    assert_eq!(
        rendered(&both.into_boxed()),
        (
            " LIMIT ? OFFSET ?".to_string(),
            vec![Value::Integer(5), Value::Integer(2)]
        )
    );
}

#[test]
fn a_defaulted_column_is_not_mentioned() {
    let given = DefaultableColumnInsertValue::Expression(ColumnInsertValue {
        column: "id",
        expression: n(7),
    });
    let defaulted: DefaultableColumnInsertValue<Bound<BigInt, i64>> =
        DefaultableColumnInsertValue::Default;
    assert_eq!(rendered(&given), ("?".to_string(), vec![Value::Integer(7)]));
    assert_eq!(rendered(&defaulted), (String::new(), vec![]));
    let mut pass = AstPass::new();
    defaulted.column_names(&mut pass).unwrap();
    given.column_names(&mut pass).unwrap();
    assert_eq!(pass.finish().sql, "\"id\"");
}

#[test]
fn an_upserts_select_always_has_a_condition() {
    let open = OnConflictSelectWrapper(BoxedSelectStatement {
        select: Keyword("*"),
        source: Identifier("t"),
        where_clause: None,
        rest: Keyword(""),
    });
    assert_eq!(rendered(&open).0, "SELECT * FROM \"t\" WHERE 1=1 ");
    let closed = OnConflictSelectWrapper(BoxedSelectStatement {
        select: Keyword("*"),
        source: Identifier("t"),
        where_clause: Some(Box::new((Keyword("id = "), n(3)))),
        rest: Keyword(" LIMIT 1"),
    });
    assert_eq!(
        rendered(&closed),
        (
            "SELECT * FROM \"t\" WHERE id = ? LIMIT 1".to_string(),
            vec![Value::Integer(3)]
        )
    );
    let typed = OnConflictSelectWrapper(SelectQuery {
        select: Keyword("*"),
        source: Identifier("t"),
        rest: (WhereClause((Keyword("id = "), n(3))), Keyword("")),
    });
    assert_eq!(rendered(&typed).0, "SELECT * FROM \"t\" WHERE id = ?");
}
