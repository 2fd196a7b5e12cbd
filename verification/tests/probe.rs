use diesel_turso::error::TursoError;
use diesel_turso::probe::{
    stored_declarations, verify_declared_types, DeclaredType, TypeCheckError, STORED_TYPES_SQL,
};
use diesel_turso::value::Value;

fn declared(rust_type: &'static str, ddl: &str) -> DeclaredType {
    DeclaredType { rust_type, ddl: ddl.to_string() }
}

fn cells(texts: &[&str]) -> Vec<Value> {
    let mut cells: Vec<Value> = texts.iter().map(|t| Value::Text(t.to_string())).collect();
    cells.push(Value::Null);
    cells
}

#[test]
fn the_query_names_the_engines_table() {
    assert_eq!(STORED_TYPES_SQL, "SELECT sql FROM sqlite_turso_types");
}

#[test]
fn matching_declarations_pass() {
    let types = [declared("Point", "CREATE TYPE point AS STRUCT(x INT, y INT)")];
    let stored = cells(&[
        "CREATE TYPE bigint(value integer) BASE integer",
        "create type POINT as struct(\n x int,\n y int)",
    ]);
    assert!(verify_declared_types(&types, Ok(stored), &[]).is_ok());
}

#[test]
fn drift_is_reported_per_type() {
    let types = [
        declared("Fine", "CREATE TYPE fine AS STRUCT(a INT)"),
        declared("Point", "CREATE TYPE point AS STRUCT(x INT, y INT)"),
        declared("Lost", "CREATE TYPE lost AS STRUCT(a INT)"),
    ];
    let stored = cells(&[
        "CREATE TYPE fine AS STRUCT(a INT)",
        "CREATE TYPE point AS STRUCT(y INT, x INT)",
    ]);
    let error = match verify_declared_types(&types, Ok(stored), &[]) {
        Err(e) => e,
        Ok(()) => panic!("drift was not seen"),
    };
    assert_eq!(
        error.message(),
        "this database's composite type declarations do not match this build's:\n\
         Point:\n  point:\n    derive: CREATE TYPE point AS STRUCT(x int, y int)\n    \
         stored: CREATE TYPE point AS STRUCT(y int, x int)\n\
         Lost:\n  lost: not declared\n\
         Every UNION tag and STRUCT field is positional, so reading these rows \
         with this build's layout would silently return wrong values rather than \
         fail. Either run the migration that redeclares the types, or rebuild the \
         database."
    );
    match error {
        TypeCheckError::Drift(e) => {
            assert_eq!(e.drift.len(), 2);
            assert_eq!(e.drift[0].0, "Point");
            assert_eq!(e.drift[1].1.missing, vec!["lost".to_string()]);
        }
        TypeCheckError::Read(e) => panic!("{e:?}"),
    }
}

#[test]
fn waived_types_are_let_pass() {
    let types = [
        declared("Point", "CREATE TYPE point AS STRUCT(x INT, y INT)"),
        declared("Lost", "CREATE TYPE lost AS STRUCT(a INT)"),
    ];
    let stored = cells(&["CREATE TYPE point AS STRUCT(y INT, x INT)"]);
    assert!(verify_declared_types(&types, Ok(stored.clone()), &["point", "lost"]).is_ok());
    match verify_declared_types(&types, Ok(stored), &["point"]) {
        Err(TypeCheckError::Drift(e)) => {
            assert_eq!(e.drift.len(), 1);
            assert_eq!(e.drift[0].0, "Lost");
        }
        other => panic!("{other:?}"),
    }
}

#[test]
fn an_unreadable_database_is_another_error() {
    let failure = TursoError { message: "disk I/O error".into() };
    let types = [declared("Point", "CREATE TYPE point AS STRUCT(x INT)")];
    match verify_declared_types(&types, Err(failure), &[]) {
        Err(e) => {
            assert!(matches!(e, TypeCheckError::Read(_)));
            assert_eq!(e.message(), "reading sqlite_turso_types: disk I/O error");
        }
        Ok(()) => panic!("it could not be read"),
    }
}

#[test]
fn without_types_nothing_is_asked() {
    let failure = TursoError { message: "never asked".into() };
    assert!(verify_declared_types(&[], Err(failure), &[]).is_ok());
}

#[test]
fn only_texts_declare_anything() {
    let index = stored_declarations(vec![
        Value::Integer(1),
        Value::Blob(b"CREATE TYPE a AS STRUCT(x INT)".to_vec()),
        Value::Text("CREATE TYPE b AS STRUCT(x INT); CREATE TYPE C AS UNION(y INT)".into()),
    ]);
    assert!(index.get("a").is_none());
    assert!(index.get("b").is_some());
    assert!(index.get("c").is_some());
}
