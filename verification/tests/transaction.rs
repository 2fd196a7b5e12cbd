use diesel_turso::error::{turso_to_diesel, QueryError, TursoError};
use diesel_turso::transaction::{
    TransactionDepthChange, TursoTransactionManager, ValidTransactionManagerStatus,
};

fn failure(message: &str) -> QueryError {
    turso_to_diesel(TursoError { message: message.to_string() })
}

fn begin(m: &mut TursoTransactionManager) -> Option<&'static str> {
    let plan = m.begin_transaction().unwrap();
    m.transaction_begun().unwrap();
    plan.sql
}

#[test]
fn only_the_outermost_transaction_runs_sql() {
    let mut m = TursoTransactionManager::default();
    assert_eq!(begin(&mut m), Some("BEGIN"));
    assert_eq!(begin(&mut m), None);
    let inner = m.commit_transaction().unwrap();
    assert_eq!((inner.depth, inner.sql), (2, None));
    m.commit_answered(&inner, Ok(())).unwrap();
    let outer = m.commit_transaction().unwrap();
    assert_eq!((outer.depth, outer.sql), (1, Some("COMMIT")));
    m.commit_answered(&outer, Ok(())).unwrap();
    assert_eq!(m, TursoTransactionManager::default());
}

#[test]
fn an_inner_rollback_poisons_the_outer_commit() {
    let mut m = TursoTransactionManager::default();
    begin(&mut m);
    begin(&mut m);
    let inner = m.rollback_transaction().unwrap();
    assert_eq!(inner.sql, None);
    m.rollback_answered(&inner, Ok(())).unwrap();
    assert!(m.poisoned);
    begin(&mut m);
    let nested = m.commit_transaction().unwrap();
    m.commit_answered(&nested, Ok(())).unwrap();
    assert!(m.poisoned);
    let outer = m.commit_transaction().unwrap();
    assert_eq!(outer.sql, Some("ROLLBACK"));
    assert!(matches!(
        m.commit_answered(&outer, Ok(())),
        Err(QueryError::RollbackTransaction)
    ));
    assert!(!m.poisoned);
    assert_eq!(begin(&mut m), Some("BEGIN"));
}

#[test]
fn an_end_that_never_latched_is_success() {
    let mut m = TursoTransactionManager::default();
    begin(&mut m);
    let plan = m.commit_transaction().unwrap();
    m.commit_answered(&plan, Err(failure("cannot commit - no transaction is active")))
        .unwrap();
    assert!(m.last_commit_did_not_latch());
    begin(&mut m);
    assert!(!m.last_commit_did_not_latch());
    let plan = m.rollback_transaction().unwrap();
    m.rollback_answered(&plan, Err(failure("cannot rollback - no transaction is active")))
        .unwrap();
    assert!(m.last_commit_did_not_latch());
}

#[test]
fn a_failed_end_breaks_the_manager() {
    let mut m = TursoTransactionManager::default();
    begin(&mut m);
    let plan = m.commit_transaction().unwrap();
    assert!(m.commit_answered(&plan, Err(failure("disk full"))).is_err());
    assert!(matches!(
        m.begin_transaction(),
        Err(QueryError::BrokenTransactionManager)
    ));
    assert!(matches!(
        m.commit_transaction(),
        Err(QueryError::BrokenTransactionManager)
    ));
    assert!(matches!(
        m.rollback_transaction(),
        Err(QueryError::BrokenTransactionManager)
    ));
    assert!(matches!(
        m.transaction_begun(),
        Err(QueryError::BrokenTransactionManager)
    ));
}

#[test]
fn there_is_nothing_to_end_outside_a_transaction() {
    let m = TursoTransactionManager::default();
    assert!(matches!(
        m.commit_transaction(),
        Err(QueryError::NotInTransaction)
    ));
    assert!(matches!(
        m.rollback_transaction(),
        Err(QueryError::NotInTransaction)
    ));
    let mut status = ValidTransactionManagerStatus { in_transaction: None };
    assert!(matches!(
        status.change_transaction_depth(TransactionDepthChange::DecreaseDepth),
        Err(QueryError::NotInTransaction)
    ));
    assert_eq!(status.transaction_depth(), None);
}

#[test]
fn a_test_transaction_begins_outside_others() {
    let mut m = TursoTransactionManager::default();
    assert!(m.status.can_begin_test_transaction());
    begin(&mut m);
    assert!(!m.status.can_begin_test_transaction());
    m.status.set_in_error();
    assert!(!m.status.can_begin_test_transaction());
}
