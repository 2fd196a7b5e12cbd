use diesel_turso::connection::{
    flag_rollback_if_turso_still_holds_the_transaction, is_broken_transaction_manager,
    test_outcome, RowAnswer, RowStream, TursoConnection,
};
use diesel_turso::error::{
    is_no_transaction_error, turso_to_connection, turso_to_diesel, ConnectionError,
    DatabaseErrorKind, QueryError, TursoError,
};
use diesel_turso::pooled_connection::{checked, connected, has_broken, may_recycle, PoolError};
use diesel_turso::query::{bound, prepare, Keyword, SqlLiteral};
use diesel_turso::serialize::write_value;
use diesel_turso::sql_types::{BigInt, Text};
use diesel_turso::statement_cache::CacheSize;
use diesel_turso::transaction::TransactionManagerStatus;
use diesel_turso::value::Value;

fn failure(message: &str) -> TursoError {
    TursoError { message: message.to_string() }
}

fn message(e: &QueryError) -> &str {
    match e {
        QueryError::DatabaseError(DatabaseErrorKind::Unknown, info) => info.message(),
        other => panic!("{other:?}"),
    }
}

#[test]
fn a_database_in_memory_is_never_shared() {
    assert!(TursoConnection::establish("a.db").multiprocess_wal);
    assert!(!TursoConnection::establish(":memory:").multiprocess_wal);
    assert!(!TursoConnection::establish("").multiprocess_wal);
    assert!(!TursoConnection::establish_single_process("a.db").multiprocess_wal);
}

#[test]
fn every_door_enforces_foreign_keys() {
    assert_eq!(
        TursoConnection::establish("a.db").setup,
        "PRAGMA foreign_keys = ON"
    );
    assert_eq!(
        TursoConnection::establish_single_process(":memory:").setup,
        "PRAGMA foreign_keys = ON"
    );
}

#[test]
fn queries_reach_the_cache_by_their_verdict() {
    let mut conn = TursoConnection::new();
    let safe = prepare(&(Keyword("SELECT "), bound::<BigInt, i64>(1)));
    assert!(conn.admit_query(&safe));
    assert!(conn.admit_query(&safe));
    let literal = prepare(&SqlLiteral("SELECT 1".into()));
    assert!(!conn.admit_query(&literal));
    assert!(conn.admit_query(&literal));
    assert!(!conn.admit_query(&Err(QueryError::NotInTransaction)));
    let stats = conn.statement_cache_stats();
    assert_eq!(
        (stats.admitted, stats.hits, stats.uncached),
        (2, 1, 1)
    );
    conn.set_prepared_statement_cache_size(CacheSize::Disabled);
    assert!(!conn.admit_query(&safe));
}

#[test]
fn a_failure_that_leaves_a_transaction_open_owes_a_rollback() {
    let mut conn = TursoConnection::new();
    conn.transaction_state.begin_transaction().unwrap();
    conn.transaction_state.transaction_begun().unwrap();
    let e = conn.batch_failed(failure("constraint"), Ok(true));
    assert_eq!(message(&e), "constraint");
    assert!(!owes_rollback(&conn.transaction_state.status));
    conn.batch_failed(failure("constraint"), Err(failure("gone")));
    assert!(!owes_rollback(&conn.transaction_state.status));
    conn.batch_failed(failure("constraint"), Ok(false));
    assert!(owes_rollback(&conn.transaction_state.status));
}

fn owes_rollback(status: &TransactionManagerStatus) -> bool {
    match status {
        TransactionManagerStatus::Valid(valid) => match &valid.in_transaction {
            Some(inner) => inner.requires_rollback_maybe_up_to_top_level,
            None => false,
        },
        TransactionManagerStatus::InError => false,
    }
}

#[test]
fn nothing_is_owed_outside_a_transaction() {
    let mut conn = TursoConnection::new();
    flag_rollback_if_turso_still_holds_the_transaction(
        &mut conn.transaction_state.status,
        Ok(false),
    );
    assert!(!owes_rollback(&conn.transaction_state.status));
}

#[test]
fn a_connection_that_holds_a_transaction_is_broken() {
    let mut conn = TursoConnection::new();
    assert!(!conn.is_broken(Ok(true)));
    assert!(conn.is_broken(Ok(false)));
    assert!(conn.is_broken(Err(failure("gone"))));
    conn.transaction_state.transaction_begun().unwrap();
    assert!(conn.is_broken(Ok(true)));
    conn.transaction_state.status.set_test_transaction_flag();
    assert!(!is_broken_transaction_manager(&conn.transaction_state.status));
    assert!(!conn.is_broken(Ok(true)));
    assert!(conn.is_broken(Ok(false)));
    conn.transaction_state.status.set_in_error();
    assert!(conn.is_broken(Ok(true)));
}

#[test]
fn rows_come_until_the_engine_has_none() {
    let mut rows = RowStream::new(vec!["a".into(), "b".into()]);
    let first = rows
        .next_row(RowAnswer::Row(vec![Ok(Value::Integer(1)), Ok(Value::Null)]))
        .unwrap()
        .unwrap();
    assert_eq!(first.field_count(), 2);
    assert_eq!(first.get("b").unwrap().field_name(), Some("b"));
    assert!(first.get(1usize).unwrap().value().is_none());
    assert!(rows.is_open());
    assert!(rows.next_row(RowAnswer::Done).is_none());
    assert!(!rows.is_open());
    assert!(rows.next_row(RowAnswer::Row(vec![])).is_none());
}

#[test]
fn a_failure_ends_the_rows() {
    let mut rows = RowStream::new(vec!["a".into(), "b".into()]);
    let item = rows.next_row(RowAnswer::Row(vec![
        Ok(Value::Integer(1)),
        Err(failure("first")),
        Err(failure("second")),
    ]));
    match item {
        Some(Err(e)) => assert_eq!(message(&e), "first"),
        other => panic!("{other:?}"),
    }
    assert!(!rows.is_open());
    let mut rows = RowStream::new(vec![]);
    match rows.next_row(RowAnswer::Failed(failure("step"))) {
        Some(Err(e)) => assert_eq!(message(&e), "step"),
        other => panic!("{other:?}"),
    }
    assert!(!rows.is_open());
}

#[test]
fn a_test_transaction_is_rolled_back_either_way() {
    let (kept, end) = test_outcome::<i32, &str>(Ok(7));
    assert_eq!(kept, Some(7));
    assert!(matches!(end, QueryError::RollbackTransaction));
    let (kept, end) = test_outcome::<i32, &str>(Err("no"));
    assert_eq!(kept, None);
    assert!(matches!(end, QueryError::RollbackTransaction));
}

#[test]
fn engine_errors_keep_their_message() {
    let e = turso_to_diesel(failure("cannot commit - no transaction is active"));
    assert!(is_no_transaction_error(&e));
    assert!(!is_no_transaction_error(&turso_to_diesel(failure("busy"))));
    assert!(!is_no_transaction_error(&QueryError::NotInTransaction));
    match e {
        QueryError::DatabaseError(_, info) => {
            assert_eq!(info.message(), "cannot commit - no transaction is active");
            assert_eq!(info.details(), None);
            assert_eq!(info.hint(), None);
            assert_eq!(info.table_name(), None);
            assert_eq!(info.column_name(), None);
            assert_eq!(info.constraint_name(), None);
            assert_eq!(info.statement_position(), None);
        }
        other => panic!("{other:?}"),
    }
    match turso_to_connection(failure("locked")) {
        ConnectionError::BadConnection(text) => assert_eq!(text, "locked"),
        other => panic!("{other:?}"),
    }
}

#[test]
fn a_pool_drops_what_is_broken() {
    assert!(!has_broken(false, false));
    assert!(has_broken(true, false));
    assert!(has_broken(false, true));
    assert_eq!(may_recycle(false, false), Ok(()));
    assert_eq!(may_recycle(false, true), Err("Broken connection"));
    assert!(matches!(
        connected::<()>(Err(ConnectionError::BadConnection("x".into()))),
        Err(PoolError::ConnectionError(_))
    ));
    assert!(matches!(
        checked(Err(QueryError::NotInTransaction)),
        Err(PoolError::QueryError(_))
    ));
    assert!(checked(Ok(())).is_ok());
}

#[test]
fn a_borrowed_text_is_bound() {
    assert_eq!(
        write_value::<Text, str>("a").unwrap(),
        Value::Text("a".into())
    );
}
