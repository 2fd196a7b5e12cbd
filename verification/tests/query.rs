use diesel_turso::array_comparison::many;
use diesel_turso::bind::TursoBindBuffer;
use diesel_turso::error::{QueryError, WriteError, WriteErrorView};
use diesel_turso::expr::{bit_and, coalesce, coalesce_opt, exists_over, max2, min2};
use diesel_turso::pragma::foreign_keys;
use diesel_turso::query::{
    bound, column_of, prepare, Bound, Column, Excluded, Grouped, Identifier, Keyword, QueryFragment,
    SelectQuery, SqlLiteral,
};
use diesel_turso::serialize::{IsNull, ToSql};
use diesel_turso::sql_types::{BigInt, Integer, Nullable, Text};
use diesel_turso::value::{Value, ValueView};

fn shown(v: &Value) -> String {
    match v {
        Value::Null => "NULL".to_string(),
        Value::Integer(n) => n.to_string(),
        Value::Real(bits) => f64::from_bits(*bits).to_string(),
        Value::Text(s) => format!("{s:?}"),
        Value::Blob(b) => format!("{b:?}"),
    }
}

fn sql_of<Q: QueryFragment>(q: &Q) -> String {
    let prepared = prepare(q).unwrap();
    let binds: Vec<String> = prepared.binds.iter().map(shown).collect();
    format!("{} -- binds: [{}]", prepared.sql, binds.join(", "))
}

fn chat() -> Column<Text> {
    column_of("watermarks", "chat")
}

fn oldest_seen() -> Column<BigInt> {
    column_of("watermarks", "oldest_seen")
}

fn newest_seen() -> Column<BigInt> {
    column_of("watermarks", "newest_seen")
}

fn title() -> Column<Nullable<Text>> {
    column_of("watermarks", "title")
}

fn kind() -> Column<Integer> {
    column_of("watermarks", "kind")
}

fn big(n: i64) -> Bound<BigInt, i64> {
    bound(n)
}

fn from_watermarks<S: QueryFragment>(select: S) -> SelectQuery<S, Identifier, Keyword> {
    SelectQuery { select, source: Identifier("watermarks"), rest: Keyword("") }
}

#[test]
fn renders_both_states() {
    assert_eq!(
        sql_of(&foreign_keys(true)),
        "PRAGMA foreign_keys = ON -- binds: []"
    );
    assert_eq!(
        sql_of(&foreign_keys(false)),
        "PRAGMA foreign_keys = OFF -- binds: []"
    );
}

/// The scalar `min`/`max` render as the two-argument SQLite functions,
/// with the second operand bound rather than interpolated.
#[test]
fn scalar_min_and_max() {
    assert_eq!(
        sql_of(&from_watermarks(min2(oldest_seen(), big(5)))),
        r#"SELECT min("watermarks"."oldest_seen", ?) FROM "watermarks" -- binds: [5]"#
    );
    assert_eq!(
        sql_of(&from_watermarks(max2(newest_seen(), big(5)))),
        r#"SELECT max("watermarks"."newest_seen", ?) FROM "watermarks" -- binds: [5]"#
    );
}

/// Both coalesce arities render the same SQL; only their types differ.
#[test]
fn both_coalesce_arities() {
    assert_eq!(
        sql_of(&from_watermarks(coalesce(title(), bound::<Text, String>("x".into())))),
        r#"SELECT coalesce("watermarks"."title", ?) FROM "watermarks" -- binds: ["x"]"#
    );
    assert_eq!(
        sql_of(&from_watermarks(coalesce_opt(title(), title()))),
        r#"SELECT coalesce("watermarks"."title", "watermarks"."title") FROM "watermarks" -- binds: []"#
    );
}

/// The bitmask binds, and the operand grouping survives the comparison
/// it is wrapped in — `(kind & ?) != ?`, not `kind & (? != ?)`.
#[test]
fn bitwise_and_binds_its_mask() {
    let masked = bit_and(kind(), bound::<Integer, i32>(4));
    let differs = Grouped((masked, (Keyword(" != "), bound::<Integer, i32>(0))));
    let q = SelectQuery {
        select: chat(),
        source: Identifier("watermarks"),
        rest: (Keyword(" WHERE "), differs),
    };
    assert_eq!(
        sql_of(&q),
        r#"SELECT "watermarks"."chat" FROM "watermarks" WHERE (("watermarks"."kind" & ?) != ?) -- binds: [4, 0]"#
    );
}

fn set<V: QueryFragment>(name: &'static str, value: V) -> (Identifier, (Keyword, V)) {
    (Identifier(name), (Keyword(" = "), value))
}

/// The shape they exist for: an upsert whose `DO UPDATE` merges the
/// stored row with the incoming one instead of overwriting it.
#[test]
fn merging_upsert() {
    let insert = (
        Keyword(r#"INSERT INTO "watermarks" ("chat", "oldest_seen", "newest_seen") VALUES ("#),
        (
            (bound::<Text, String>("c".into()), Keyword(", ")),
            ((big(1), Keyword(", ")), (big(2), Keyword(") "))),
        ),
    );
    let updates = (
        (
            set("oldest_seen", min2(oldest_seen(), Excluded(oldest_seen()))),
            Keyword(", "),
        ),
        (
            (
                set("newest_seen", max2(newest_seen(), Excluded(newest_seen()))),
                Keyword(", "),
            ),
            set("title", coalesce_opt(Excluded(title()), title())),
        ),
    );
    let q = (insert, (Keyword(r#"ON CONFLICT ("chat") DO UPDATE SET "#), updates));
    assert_eq!(
        sql_of(&q),
        [
            r#"INSERT INTO "watermarks" ("chat", "oldest_seen", "newest_seen") VALUES (?, ?, ?) "#,
            r#"ON CONFLICT ("chat") DO UPDATE SET "#,
            r#""oldest_seen" = min("watermarks"."oldest_seen", excluded."oldest_seen"), "#,
            r#""newest_seen" = max("watermarks"."newest_seen", excluded."newest_seen"), "#,
            r#""title" = coalesce(excluded."title", "watermarks"."title") "#,
            r#"-- binds: ["c", 1, 2]"#,
        ]
        .concat()
    );
}

/// `exists_over` over an alias, which is the correlated shape the app
/// uses it in.
#[test]
fn exists_over_an_alias() {
    let w2 = SelectQuery {
        select: Keyword("*"),
        source: (Identifier("watermarks"), (Keyword(" AS "), Identifier("w2"))),
        rest: (
            Keyword(" WHERE "),
            Grouped((column_of::<Text>("w2", "chat"), (Keyword(" = "), chat()))),
        ),
    };
    let q = SelectQuery {
        select: chat(),
        source: Identifier("watermarks"),
        rest: (Keyword(" WHERE "), exists_over(w2)),
    };
    assert_eq!(
        sql_of(&q),
        [
            r#"SELECT "watermarks"."chat" FROM "watermarks" WHERE EXISTS "#,
            r#"(SELECT ? FROM "watermarks" AS "w2" WHERE ("w2"."chat" = "watermarks"."chat")) "#,
            r#"-- binds: [1]"#,
        ]
        .concat()
    );
}

#[test]
fn a_literal_takes_the_statement_out_of_the_cache() {
    let plain = prepare(&from_watermarks(chat())).unwrap();
    assert!(plain.safe_to_cache);
    let literal = prepare(&from_watermarks(SqlLiteral("count(*)".into()))).unwrap();
    assert!(!literal.safe_to_cache);
    assert_eq!(literal.sql, "SELECT count(*) FROM \"watermarks\"");
}

#[test]
fn an_identifier_is_quoted() {
    assert_eq!(
        prepare(&Identifier("a\"b")).unwrap().sql,
        "\"a\"\"b\""
    );
}

#[test]
fn binds_come_in_the_order_of_their_placeholders() {
    let q = (big(3), (big(1), big(2)));
    let prepared = prepare(&q).unwrap();
    assert_eq!(prepared.sql, "???");
    assert_eq!(
        prepared.binds,
        vec![Value::Integer(3), Value::Integer(1), Value::Integer(2)]
    );
}

struct Refuses;

impl ToSql<Text> for Refuses {
    fn written(&self) -> Result<ValueView, WriteErrorView> {
        unreachable!()
    }

    fn to_sql(&self, _out: &mut TursoBindBuffer) -> Result<IsNull, WriteError> {
        Err(WriteError::Custom("no".into()))
    }
}

#[test]
fn a_bind_that_cannot_be_written_is_an_error() {
    let q = (big(1), bound::<Text, Refuses>(Refuses));
    match prepare(&q) {
        Err(QueryError::SerializationError(WriteError::Custom(reason))) => {
            assert_eq!(reason, "no")
        }
        other => panic!("{other:?}"),
    }
    let list = many::<Text, Refuses>(vec![Refuses]);
    assert!(prepare(&list).is_err());
}
