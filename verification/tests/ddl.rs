use diesel_turso::union::ddl::{
    check_declarations, index_by_name, parse_create_types, strip_comments, TypeKind,
};

#[test]
fn parses_the_shapes_migrations_actually_write() {
    let decls = parse_create_types(
        "-- a comment mentioning CREATE TYPE nothing\n\
         CREATE TYPE telegram_mid AS STRUCT(\n\
         \x20   user_id   INT,   -- normalised to 0 for groups\n\
         \x20   topic_id  INT\n\
         );\n\
         CREATE TYPE message_id_v4 AS UNION(telegram telegram_mid, email INT);",
    );
    assert_eq!(decls.len(), 2);
    assert_eq!(decls[0].name, "telegram_mid");
    assert_eq!(decls[0].kind, TypeKind::Struct);
    assert_eq!(
        decls[0].members,
        vec![
            ("user_id".to_string(), "INT".to_string()),
            ("topic_id".to_string(), "INT".to_string()),
        ]
    );
    assert_eq!(
        decls[1].canonical(),
        "CREATE TYPE message_id_v4 AS UNION(telegram telegram_mid, email int)"
    );
}

#[test]
fn skips_domains_and_other_create_statements() {
    let decls = parse_create_types(
        "CREATE TYPE bigint(value integer) BASE integer;\
         CREATE TYPE uuid(value text) BASE blob ENCODE uuid_blob(value);\
         CREATE TABLE t(a INT);\
         CREATE TYPE x AS STRUCT(a INT);",
    );
    assert_eq!(decls.len(), 1);
    assert_eq!(decls[0].name, "x");
}

#[test]
fn formatting_and_case_do_not_count_as_drift() {
    let a = parse_create_types("create type Foo as struct(A int, B text)");
    let b = parse_create_types("CREATE TYPE foo AS STRUCT(\n  a   INT,\n  b   TEXT\n)");
    assert_eq!(a[0].canonical(), b[0].canonical());
}

/// The whole point: two same-typed members swapped is drift, even
/// though the set of members is identical.
#[test]
fn member_order_counts_as_drift() {
    let derived = "CREATE TYPE p AS STRUCT(first_name TEXT, last_name TEXT)";
    let stored = index_by_name(parse_create_types(
        "CREATE TYPE p AS STRUCT(last_name TEXT, first_name TEXT)",
    ));
    let drift = check_declarations(derived, &stored);
    assert!(drift.missing.is_empty());
    assert_eq!(drift.differs.len(), 1);
    assert_eq!(drift.differs[0].0, "p");
}

#[test]
fn reports_a_type_the_database_never_declared() {
    let stored = index_by_name(parse_create_types("CREATE TYPE other AS STRUCT(a INT)"));
    let drift = check_declarations("CREATE TYPE p AS STRUCT(a INT)", &stored);
    assert_eq!(drift.missing, vec!["p".to_string()]);
}

/// Extra declarations on the stored side are not drift — superseded
/// union versions live in the same database forever.
#[test]
fn extra_stored_types_are_ignored() {
    let stored = index_by_name(parse_create_types(
        "CREATE TYPE p AS STRUCT(a INT); CREATE TYPE p_v0 AS STRUCT(b TEXT)",
    ));
    let drift = check_declarations("CREATE TYPE p AS STRUCT(a INT)", &stored);
    assert!(drift.is_empty(), "{}", drift.describe());
}

#[test]
fn drift_is_told_in_lines() {
    let stored = index_by_name(parse_create_types("CREATE TYPE q AS STRUCT(b INT)"));
    let drift = check_declarations(
        "CREATE TYPE P AS STRUCT(a INT); CREATE TYPE q AS STRUCT(a INT)",
        &stored,
    );
    assert!(!drift.is_empty());
    assert_eq!(
        drift.describe(),
        "  P: not declared\n  q:\n    derive: CREATE TYPE q AS STRUCT(a int)\n    \
         stored: CREATE TYPE q AS STRUCT(b int)\n"
    );
}

#[test]
fn names_are_matched_in_lower_case() {
    let stored = index_by_name(parse_create_types("CREATE TYPE FOO AS STRUCT(ÄB TEXT)"));
    assert!(stored.get("foo").is_some());
    assert!(stored.get("FOO").is_none());
    let drift = check_declarations("CREATE TYPE foo AS STRUCT(äb text)", &stored);
    assert!(drift.is_empty(), "{}", drift.describe());
}

#[test]
fn the_last_declaration_of_a_name_counts() {
    let stored = index_by_name(parse_create_types(
        "CREATE TYPE p AS STRUCT(a INT); CREATE TYPE p AS STRUCT(b INT)",
    ));
    assert_eq!(
        stored.get("p").unwrap().canonical(),
        "CREATE TYPE p AS STRUCT(b int)"
    );
}

#[test]
fn parentheses_stay_inside_a_member() {
    let decls = parse_create_types("CREATE TYPE p AS STRUCT(a NUMERIC(10, 2), b  list( x, y ))");
    assert_eq!(
        decls[0].members,
        vec![
            ("a".to_string(), "NUMERIC(10, 2)".to_string()),
            ("b".to_string(), "list( x, y )".to_string()),
        ]
    );
}

#[test]
fn a_comment_marker_inside_a_string_is_no_comment() {
    let decls = parse_create_types("SELECT '--'; CREATE TYPE p AS UNION(a INT)");
    assert_eq!(decls.len(), 1);
    assert_eq!(decls[0].kind, TypeKind::Union);
    assert_eq!(decls[0].render(), "CREATE TYPE p AS UNION(a INT)");
}

#[test]
fn declarations_agree_with_themselves() {
    let ddl = "CREATE TYPE a AS STRUCT(x INT, y TEXT); CREATE TYPE u AS UNION(a a, n INT)";
    let drift = check_declarations(ddl, &index_by_name(parse_create_types(ddl)));
    assert!(drift.is_empty(), "{}", drift.describe());
}

#[test]
fn comments_and_spacing_do_not_count() {
    let plain = parse_create_types("CREATE TYPE a AS STRUCT(x INT, y TEXT)");
    let spaced = parse_create_types(
        "CREATE -- here\n TYPE\ta   AS\nSTRUCT ( -- fields\n x   INT ,\n\ty TEXT )",
    );
    assert_eq!(plain[0].canonical(), spaced[0].canonical());
}

#[test]
fn scripts_are_read_in_turn() {
    let a = "CREATE TYPE a AS STRUCT(x INT) -- ends in a comment ' (";
    let b = "CREATE TYPE b AS UNION(a a, n INT)";
    let both = parse_create_types(&format!("{a}\n;\n{b}"));
    let mut each = parse_create_types(a);
    each.extend(parse_create_types(b));
    assert_eq!(both, each);
    assert_eq!(both.len(), 2);
    // A declaration that stops short takes nothing from what follows.
    assert_eq!(parse_create_types(&format!("CREATE TYPE c AS STRUCT\n;\n{b}")).len(), 1);
}

#[test]
fn what_is_rendered_is_read_back() {
    let decl = &parse_create_types("create type Create As Union(Type TYPE, As , create Type)")[0];
    assert_eq!(decl.render(), "CREATE TYPE Create AS UNION(Type TYPE, As , create Type)");
    assert_eq!(parse_create_types(&decl.render()), vec![decl.clone()]);
    assert_eq!(decl.canonical(), "CREATE TYPE create AS UNION(type type, as , create type)");
    assert_eq!(parse_create_types(&decl.canonical()), vec![decl.lowercased()]);
}

#[test]
fn comments_are_stripped_once() {
    let sql = "a --b\n'--c' ---d\n-e- -- f";
    let once = strip_comments(sql);
    assert_eq!(once, "a \n'--c' \n-e- ");
    assert_eq!(strip_comments(&once), once);
    assert_eq!(once.matches('\n').count(), sql.matches('\n').count());
}
