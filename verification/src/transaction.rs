//! The transaction manager: `BEGIN`, `COMMIT` and `ROLLBACK` at the outermost
//! level, and nothing but bookkeeping inside.
//!
//! A nested transaction is part of the outer one. If it is rolled back, the
//! outer one is poisoned: its commit runs `ROLLBACK` and reports
//! [`QueryError::RollbackTransaction`]. What failed inside can then never be
//! committed, though nothing short of the whole can be undone.
//!
//! Each operation is a plan and an end. The plan says which SQL to run, if
//! any; the end is told what came of it.

use vstd::prelude::*;

use crate::error;
use crate::error::{is_no_transaction_error, QueryError};

verus! {

/// What is known of an open transaction.
#[derive(Debug, Clone, Copy, PartialEq, Eq, Structural)]
pub struct InTransactionStatus {
    /// How many transactions are open, one inside the other. At least one.
    pub transaction_depth: u32,
    /// Whether a rollback is owed, possibly of the outermost transaction.
    pub requires_rollback_maybe_up_to_top_level: bool,
    /// Whether the transaction is one that is never to be committed.
    pub test_transaction: bool,
}

/// Whether a transaction is open, and which.
#[derive(Debug, Clone, Copy, PartialEq, Eq, Structural)]
pub struct ValidTransactionManagerStatus {
    pub in_transaction: Option<InTransactionStatus>,
}

/// What the manager knows of the connection.
#[derive(Debug, Clone, Copy, PartialEq, Eq, Structural)]
pub enum TransactionManagerStatus {
    /// The state of the database is known.
    Valid(ValidTransactionManagerStatus),
    /// Ending a transaction failed: what state the database is in is unknown.
    InError,
}

/// Which way the depth changes.
#[derive(Debug, Clone, Copy, PartialEq, Eq, Structural)]
pub enum TransactionDepthChange {
    IncreaseDepth,
    DecreaseDepth,
}

impl ValidTransactionManagerStatus {
    /// The depth, where a transaction is open.
    pub open spec fn depth(self) -> Option<u32> {
        match self.in_transaction {
            Some(inner) => Some(inner.transaction_depth),
            None => None,
        }
    }

    /// The status one level further in. The depth stays at its last value
    /// once it has reached it.
    pub open spec fn deeper(self) -> ValidTransactionManagerStatus {
        ValidTransactionManagerStatus {
            in_transaction: Some(
                match self.in_transaction {
                    Some(inner) => InTransactionStatus {
                        transaction_depth: if inner.transaction_depth < u32::MAX {
                            (inner.transaction_depth + 1) as u32
                        } else {
                            u32::MAX
                        },
                        ..inner
                    },
                    None => InTransactionStatus {
                        transaction_depth: 1,
                        requires_rollback_maybe_up_to_top_level: false,
                        test_transaction: false,
                    },
                },
            ),
        }
    }

    /// The status one level further out, where a transaction is open.
    pub open spec fn shallower(self) -> Option<ValidTransactionManagerStatus> {
        match self.in_transaction {
            Some(inner) => Some(
                ValidTransactionManagerStatus {
                    in_transaction: if inner.transaction_depth <= 1 {
                        None
                    } else {
                        Some(
                            InTransactionStatus {
                                transaction_depth: (inner.transaction_depth - 1) as u32,
                                ..inner
                            },
                        )
                    },
                },
            ),
            None => None,
        }
    }

    /// The depth, where a transaction is open.
    pub fn transaction_depth(&self) -> (depth: Option<u32>)
        ensures
            depth == self.depth(),
    {
        match &self.in_transaction {
            Some(inner) => Some(inner.transaction_depth),
            None => None,
        }
    }

    /// Goes one level in or out. Going out where no transaction is open is an
    /// error and changes nothing.
    pub fn change_transaction_depth(&mut self, change: TransactionDepthChange) -> (r: Result<
        (),
        QueryError,
    >)
        ensures
            match change {
                TransactionDepthChange::IncreaseDepth => r == Ok::<(), QueryError>(()) && *final(self)
                    == old(self).deeper(),
                TransactionDepthChange::DecreaseDepth => match old(self).shallower() {
                    Some(next) => r == Ok::<(), QueryError>(()) && *final(self) == next,
                    None => r == Err::<(), QueryError>(QueryError::NotInTransaction) && *final(self) == *old(
                        self,
                    ),
                },
            },
    {
        match (self.in_transaction, change) {
            (Some(inner), TransactionDepthChange::IncreaseDepth) => {
                let mut next: InTransactionStatus = inner;
                next.transaction_depth = inner.transaction_depth.saturating_add(1);
                self.in_transaction = Some(next);
                Ok(())
            },
            (Some(inner), TransactionDepthChange::DecreaseDepth) => {
                if inner.transaction_depth <= 1 {
                    self.in_transaction = None;
                } else {
                    let mut next: InTransactionStatus = inner;
                    next.transaction_depth = inner.transaction_depth - 1;
                    self.in_transaction = Some(next);
                }
                Ok(())
            },
            (None, TransactionDepthChange::IncreaseDepth) => {
                self.in_transaction = Some(
                    InTransactionStatus {
                        transaction_depth: 1,
                        requires_rollback_maybe_up_to_top_level: false,
                        test_transaction: false,
                    },
                );
                Ok(())
            },
            (None, TransactionDepthChange::DecreaseDepth) => Err(QueryError::NotInTransaction),
        }
    }
}

impl TransactionManagerStatus {
    /// Records that the state of the database is unknown.
    pub fn set_in_error(&mut self)
        ensures
            *final(self) == TransactionManagerStatus::InError,
    {
        *self = TransactionManagerStatus::InError;
    }

    /// The status with a rollback owed, or no longer owed, by the open
    /// transaction.
    pub open spec fn owing_rollback(self, owed: bool) -> TransactionManagerStatus {
        match self {
            TransactionManagerStatus::Valid(
                ValidTransactionManagerStatus { in_transaction: Some(inner) },
            ) => TransactionManagerStatus::Valid(
                ValidTransactionManagerStatus {
                    in_transaction: Some(
                        InTransactionStatus {
                            requires_rollback_maybe_up_to_top_level: owed,
                            ..inner
                        },
                    ),
                },
            ),
            _ => self,
        }
    }

    /// Records whether a rollback is owed by the open transaction. Where none
    /// is open, nothing is.
    pub fn set_requires_rollback_maybe_up_to_top_level(&mut self, to: bool)
        ensures
            *final(self) == old(self).owing_rollback(to),
    {
        if let TransactionManagerStatus::Valid(valid) = *self {
            if let Some(inner) = valid.in_transaction {
                let mut next: InTransactionStatus = inner;
                next.requires_rollback_maybe_up_to_top_level = to;
                *self = TransactionManagerStatus::Valid(
                    ValidTransactionManagerStatus { in_transaction: Some(next) },
                );
            }
        }
    }

    /// The status with the open transaction marked as one for a test.
    pub open spec fn in_test(self) -> TransactionManagerStatus {
        match self {
            TransactionManagerStatus::Valid(
                ValidTransactionManagerStatus { in_transaction: Some(inner) },
            ) => TransactionManagerStatus::Valid(
                ValidTransactionManagerStatus {
                    in_transaction: Some(InTransactionStatus { test_transaction: true, ..inner }),
                },
            ),
            _ => self,
        }
    }

    /// Marks the open transaction as one that is never to be committed.
    pub fn set_test_transaction_flag(&mut self)
        ensures
            *final(self) == old(self).in_test(),
    {
        if let TransactionManagerStatus::Valid(valid) = *self {
            if let Some(inner) = valid.in_transaction {
                let mut next: InTransactionStatus = inner;
                next.test_transaction = true;
                *self = TransactionManagerStatus::Valid(
                    ValidTransactionManagerStatus { in_transaction: Some(next) },
                );
            }
        }
    }

    /// Whether a test transaction can be begun: the state is known and no
    /// transaction is open.
    pub fn can_begin_test_transaction(&self) -> (yes: bool)
        ensures
            yes == (*self matches TransactionManagerStatus::Valid(valid) && valid.depth() is None),
    {
        match self {
            TransactionManagerStatus::Valid(valid) => valid.in_transaction.is_none(),
            TransactionManagerStatus::InError => false,
        }
    }
}

/// The bookkeeping of one connection's transactions.
#[derive(Debug, Clone, Copy, PartialEq, Eq, Structural)]
pub struct TursoTransactionManager {
    pub status: TransactionManagerStatus,
    /// Set when a nested transaction was rolled back, for which no SQL ran.
    /// The outermost commit then has to roll back.
    pub poisoned: bool,
    /// Set when the engine answered the last end of a transaction with the
    /// message that none was active. Cleared when the next one begins.
    pub last_commit_did_not_latch: bool,
}

impl Default for TursoTransactionManager {
    fn default() -> (manager: Self)
        ensures
            manager == fresh_manager(),
    {
        TursoTransactionManager {
            status: TransactionManagerStatus::Valid(
                ValidTransactionManagerStatus { in_transaction: None },
            ),
            poisoned: false,
            last_commit_did_not_latch: false,
        }
    }
}

/// A manager of a connection on which nothing has happened.
pub open spec fn fresh_manager() -> TursoTransactionManager {
    TursoTransactionManager {
        status: TransactionManagerStatus::Valid(
            ValidTransactionManagerStatus { in_transaction: None },
        ),
        poisoned: false,
        last_commit_did_not_latch: false,
    }
}

/// What to do to begin a transaction.
#[derive(Debug, Clone, Copy)]
pub struct BeginPlan {
    /// The depth that the connection will be at.
    pub depth: u32,
    /// The SQL to run, if any.
    pub sql: Option<&'static str>,
}

/// What to do to end a transaction.
#[derive(Debug, Clone, Copy)]
pub struct EndPlan {
    /// The depth that the connection is at.
    pub depth: u32,
    /// Whether the transaction was poisoned when its end was asked for.
    pub poisoned: bool,
    /// The SQL to run, if any.
    pub sql: Option<&'static str>,
}

/// The text of a plan's SQL, if there is any.
pub open spec fn sql_of(sql: Option<&'static str>) -> Option<Seq<char>> {
    match sql {
        Some(text) => Some(text@),
        None => None,
    }
}

impl TursoTransactionManager {
    /// The depth, where the state is known and a transaction is open.
    pub open spec fn depth(self) -> Option<u32> {
        match self.status {
            TransactionManagerStatus::Valid(valid) => valid.depth(),
            TransactionManagerStatus::InError => None,
        }
    }

    /// The depth is at least one where there is one, and nothing is poisoned
    /// outside a transaction.
    pub open spec fn well_formed(self) -> bool {
        match self.status {
            TransactionManagerStatus::Valid(valid) => match valid.depth() {
                Some(depth) => depth >= 1,
                None => !self.poisoned,
            },
            TransactionManagerStatus::InError => true,
        }
    }

    /// The manager once a transaction has been begun.
    pub open spec fn begun(self) -> TursoTransactionManager {
        match self.status {
            TransactionManagerStatus::Valid(valid) => TursoTransactionManager {
                status: TransactionManagerStatus::Valid(valid.deeper()),
                ..self
            },
            TransactionManagerStatus::InError => self,
        }
    }

    /// The manager one level further out, and what that comes to.
    pub open spec fn left(self) -> (TursoTransactionManager, Result<(), QueryError>) {
        match self.status {
            TransactionManagerStatus::Valid(valid) => match valid.shallower() {
                Some(next) => (
                    TursoTransactionManager {
                        status: TransactionManagerStatus::Valid(next),
                        ..self
                    },
                    Ok(()),
                ),
                None => (self, Err(QueryError::NotInTransaction)),
            },
            TransactionManagerStatus::InError => (self, Err(QueryError::BrokenTransactionManager)),
        }
    }

    /// The manager after the SQL that ends the outermost transaction was
    /// answered, and what that comes to.
    pub open spec fn outermost_ended(
        self,
        answer: Result<(), QueryError>,
    ) -> (TursoTransactionManager, Result<(), QueryError>) {
        match answer {
            Ok(_) => TursoTransactionManager { poisoned: false, ..self }.left(),
            Err(e) => if error::says_no_transaction(e) {
                TursoTransactionManager {
                    poisoned: false,
                    last_commit_did_not_latch: true,
                    ..self
                }.left()
            } else {
                (
                    TursoTransactionManager { status: TransactionManagerStatus::InError, ..self },
                    Err(e),
                )
            },
        }
    }

    /// The manager after a rollback was planned and answered.
    pub open spec fn rolled_back(
        self,
        depth: u32,
        answer: Result<(), QueryError>,
    ) -> (TursoTransactionManager, Result<(), QueryError>) {
        if depth == 1 {
            self.outermost_ended(answer)
        } else {
            TursoTransactionManager { poisoned: true, ..self }.left()
        }
    }

    /// The manager after a commit was planned and answered. A poisoned one
    /// that ends well is reported as rolled back.
    pub open spec fn committed(
        self,
        depth: u32,
        poisoned: bool,
        answer: Result<(), QueryError>,
    ) -> (TursoTransactionManager, Result<(), QueryError>) {
        if depth == 1 {
            let (next, r) = self.outermost_ended(answer);
            if r is Ok && poisoned {
                (next, Err(QueryError::RollbackTransaction))
            } else {
                (next, r)
            }
        } else {
            self.left()
        }
    }

    /// Whether the last end of a transaction was answered with the message
    /// that none was active.
    pub fn last_commit_did_not_latch(&self) -> (yes: bool)
        ensures
            yes == self.last_commit_did_not_latch,
    {
        self.last_commit_did_not_latch
    }

    /// Goes one level in or out, where the state is known.
    fn change_depth(&mut self, change: TransactionDepthChange) -> (r: Result<(), QueryError>)
        ensures
            match change {
                TransactionDepthChange::IncreaseDepth => *final(self) == old(self).begun() && r == (
                if old(self).status is InError {
                    Err::<(), QueryError>(QueryError::BrokenTransactionManager)
                } else {
                    Ok(())
                }),
                TransactionDepthChange::DecreaseDepth => (*final(self), r) == old(self).left(),
            },
    {
        match self.status {
            TransactionManagerStatus::Valid(valid) => {
                let mut next: ValidTransactionManagerStatus = valid;
                let r: Result<(), QueryError> = next.change_transaction_depth(change);
                self.status = TransactionManagerStatus::Valid(next);
                r
            },
            TransactionManagerStatus::InError => Err(QueryError::BrokenTransactionManager),
        }
    }

    /// Plans the begin of a transaction: `BEGIN` where none is open.
    pub fn begin_transaction(&mut self) -> (plan: Result<BeginPlan, QueryError>)
        ensures
            match old(self).status {
                TransactionManagerStatus::InError => plan matches Err(e) && e
                    == QueryError::BrokenTransactionManager && *final(self) == *old(self),
                TransactionManagerStatus::Valid(valid) => {
                    &&& plan matches Ok(p)
                    &&& p.depth == valid.deeper().depth()->0
                    &&& sql_of(p.sql) == (if valid.depth() is None {
                        Some("BEGIN"@)
                    } else {
                        None
                    })
                    &&& sql_of(p.sql) == old(self).begin_sql()
                    &&& *final(self) == (if valid.depth() is None {
                        TursoTransactionManager { last_commit_did_not_latch: false, ..*old(self) }
                    } else {
                        *old(self)
                    })
                },
            },
    {
        let valid: ValidTransactionManagerStatus = match self.status {
            TransactionManagerStatus::Valid(valid) => valid,
            TransactionManagerStatus::InError => {
                return Err(QueryError::BrokenTransactionManager);
            },
        };
        match valid.transaction_depth() {
            None => {
                self.last_commit_did_not_latch = false;
                Ok(BeginPlan { depth: 1, sql: Some("BEGIN") })
            },
            Some(depth) => Ok(BeginPlan { depth: depth.saturating_add(1), sql: None }),
        }
    }

    /// Records that a transaction was begun: the SQL of its plan, if there
    /// was any, succeeded.
    pub fn transaction_begun(&mut self) -> (r: Result<(), QueryError>)
        ensures
            *final(self) == old(self).begun(),
            r == (if old(self).status is InError {
                Err::<(), QueryError>(QueryError::BrokenTransactionManager)
            } else {
                Ok(())
            }),
    {
        self.change_depth(TransactionDepthChange::IncreaseDepth)
    }

    /// Plans the rollback of a transaction: `ROLLBACK` of the outermost one,
    /// and no SQL inside it.
    pub fn rollback_transaction(&self) -> (plan: Result<EndPlan, QueryError>)
        ensures
            match self.status {
                TransactionManagerStatus::InError => plan matches Err(e) && e
                    == QueryError::BrokenTransactionManager,
                TransactionManagerStatus::Valid(valid) => match valid.depth() {
                    None => plan matches Err(e) && e == QueryError::NotInTransaction,
                    Some(depth) => {
                        &&& plan matches Ok(p)
                        &&& p.depth == depth
                        &&& p.poisoned == self.poisoned
                        &&& sql_of(p.sql) == (if depth == 1 {
                            Some("ROLLBACK"@)
                        } else {
                            None
                        })
                        &&& sql_of(p.sql) == self.rollback_sql()
                    },
                },
            },
    {
        match self.status {
            TransactionManagerStatus::Valid(valid) => match valid.transaction_depth() {
                None => Err(QueryError::NotInTransaction),
                Some(depth) => Ok(
                    EndPlan {
                        depth,
                        poisoned: self.poisoned,
                        sql: if depth == 1 {
                            Some("ROLLBACK")
                        } else {
                            None
                        },
                    },
                ),
            },
            TransactionManagerStatus::InError => Err(QueryError::BrokenTransactionManager),
        }
    }

    /// Plans the commit of a transaction: `COMMIT` of the outermost one, or
    /// `ROLLBACK` where it is poisoned, and no SQL inside it.
    pub fn commit_transaction(&self) -> (plan: Result<EndPlan, QueryError>)
        ensures
            match self.status {
                TransactionManagerStatus::InError => plan matches Err(e) && e
                    == QueryError::BrokenTransactionManager,
                TransactionManagerStatus::Valid(valid) => match valid.depth() {
                    None => plan matches Err(e) && e == QueryError::NotInTransaction,
                    Some(depth) => {
                        &&& plan matches Ok(p)
                        &&& p.depth == depth
                        &&& p.poisoned == self.poisoned
                        &&& sql_of(p.sql) == self.commit_sql()
                    },
                },
            },
    {
        match self.status {
            TransactionManagerStatus::Valid(valid) => match valid.transaction_depth() {
                None => Err(QueryError::NotInTransaction),
                Some(depth) => Ok(
                    EndPlan {
                        depth,
                        poisoned: self.poisoned,
                        sql: if depth != 1 {
                            None
                        } else if self.poisoned {
                            Some("ROLLBACK")
                        } else {
                            Some("COMMIT")
                        },
                    },
                ),
            },
            TransactionManagerStatus::InError => Err(QueryError::BrokenTransactionManager),
        }
    }

    /// The SQL that a begin runs, if any.
    pub open spec fn begin_sql(self) -> Option<Seq<char>> {
        if self.depth() is None {
            Some("BEGIN"@)
        } else {
            None
        }
    }

    /// The SQL that a rollback runs, if any.
    pub open spec fn rollback_sql(self) -> Option<Seq<char>> {
        if self.depth() == Some(1u32) {
            Some("ROLLBACK"@)
        } else {
            None
        }
    }

    /// The SQL that a commit runs, if any.
    pub open spec fn commit_sql(self) -> Option<Seq<char>> {
        if self.depth() != Some(1u32) {
            None
        } else if self.poisoned {
            Some("ROLLBACK"@)
        } else {
            Some("COMMIT"@)
        }
    }

    /// Bookkeeping for the answer that no transaction was active: nothing is
    /// poisoned any more, and the manager goes one level out.
    fn reset_after_no_transaction(&mut self) -> (r: Result<(), QueryError>)
        ensures
            (*final(self), r) == (TursoTransactionManager { poisoned: false, ..*old(self) }).left(),
    {
        self.poisoned = false;
        self.change_depth(TransactionDepthChange::DecreaseDepth)
    }

    /// Records the answer to the SQL that ends the outermost transaction.
    fn end_outermost(&mut self, answer: Result<(), QueryError>) -> (r: Result<(), QueryError>)
        ensures
            (*final(self), r) == old(self).outermost_ended(answer),
    {
        match answer {
            Ok(_) => {
                self.poisoned = false;
                self.change_depth(TransactionDepthChange::DecreaseDepth)
            },
            Err(e) => {
                if is_no_transaction_error(&e) {
                    self.last_commit_did_not_latch = true;
                    self.reset_after_no_transaction()
                } else {
                    self.status.set_in_error();
                    Err(e)
                }
            },
        }
    }

    /// Records what came of a planned rollback. `answer` is that to the
    /// plan's SQL, and `Ok` where it had none.
    pub fn rollback_answered(&mut self, plan: &EndPlan, answer: Result<(), QueryError>) -> (r: Result<
        (),
        QueryError,
    >)
        ensures
            (*final(self), r) == old(self).rolled_back(plan.depth, answer),
    {
        if plan.depth == 1 {
            self.end_outermost(answer)
        } else {
            self.poisoned = true;
            self.change_depth(TransactionDepthChange::DecreaseDepth)
        }
    }

    /// Records what came of a planned commit. `answer` is that to the plan's
    /// SQL, and `Ok` where it had none.
    pub fn commit_answered(&mut self, plan: &EndPlan, answer: Result<(), QueryError>) -> (r: Result<
        (),
        QueryError,
    >)
        ensures
            (*final(self), r) == old(self).committed(plan.depth, plan.poisoned, answer),
    {
        if plan.depth == 1 {
            match self.end_outermost(answer) {
                Ok(_) => {
                    if plan.poisoned {
                        Err(QueryError::RollbackTransaction)
                    } else {
                        Ok(())
                    }
                },
                Err(e) => Err(e),
            }
        } else {
            self.change_depth(TransactionDepthChange::DecreaseDepth)
        }
    }
}

// ---------------------------------------------------------------------------
// What the manager keeps to
// ---------------------------------------------------------------------------

/// Beginning keeps the manager well formed.
pub proof fn begin_keeps_the_manager_well_formed(m: TursoTransactionManager)
    requires
        m.well_formed(),
    ensures
        m.begun().well_formed(),
        (TursoTransactionManager { last_commit_did_not_latch: false, ..m }).well_formed(),
{
}

/// Ending, either way and whatever the engine answers, keeps the manager well
/// formed.
pub proof fn ends_keep_the_manager_well_formed(
    m: TursoTransactionManager,
    answer: Result<(), QueryError>,
)
    requires
        m.well_formed(),
        m.depth() is Some,
    ensures
        m.rolled_back(m.depth()->0, answer).0.well_formed(),
        m.committed(m.depth()->0, m.poisoned, answer).0.well_formed(),
{
}

/// A rollback inside poisons the outer transaction, runs no SQL and reports
/// no error.
pub proof fn inner_rollback_poisons(m: TursoTransactionManager)
    requires
        m.depth() matches Some(depth) && depth >= 2,
    ensures
        m.rolled_back(m.depth()->0, Ok(())).0.poisoned,
        m.rolled_back(m.depth()->0, Ok(())).0.depth() == Some((m.depth()->0 - 1) as u32),
        m.rolled_back(m.depth()->0, Ok(())).1 is Ok,
{
}

/// Once poisoned, a transaction stays so through everything that happens
/// inside it: beginnings, commits and rollbacks of nested transactions.
pub proof fn poison_stays_inside(m: TursoTransactionManager, answer: Result<(), QueryError>)
    requires
        m.poisoned,
        m.depth() matches Some(depth) && depth >= 1,
    ensures
        m.begun().poisoned,
        m.depth()->0 >= 2 ==> m.committed(m.depth()->0, m.poisoned, answer).0.poisoned,
        m.depth()->0 >= 2 ==> m.rolled_back(m.depth()->0, answer).0.poisoned,
{
}

/// A poisoned transaction is never committed: its outermost commit runs
/// `ROLLBACK`, and where that succeeds it reports the rollback.
pub proof fn poisoned_transactions_never_commit(m: TursoTransactionManager)
    requires
        m.poisoned,
        m.depth() is Some,
    ensures
        m.commit_sql() != Some("COMMIT"@),
        m.depth() == Some(1u32) ==> m.commit_sql() == Some("ROLLBACK"@) && m.committed(
            1,
            true,
            Ok(()),
        ) == (
            TursoTransactionManager {
                status: TransactionManagerStatus::Valid(
                    ValidTransactionManagerStatus { in_transaction: None },
                ),
                poisoned: false,
                ..m
            },
            Err::<(), QueryError>(QueryError::RollbackTransaction),
        ),
{
    reveal_strlit("COMMIT");
    reveal_strlit("ROLLBACK");
    assert("COMMIT"@.len() != "ROLLBACK"@.len());
}

/// Nested transactions run no SQL: none when they begin inside another, and
/// none when they end.
pub proof fn nested_commits_run_no_sql(m: TursoTransactionManager)
    requires
        m.depth() matches Some(depth) && depth >= 2,
    ensures
        m.commit_sql() is None,
        m.committed(m.depth()->0, m.poisoned, Ok(())).1 is Ok,
        m.committed(m.depth()->0, m.poisoned, Ok(())).0.depth() == Some((m.depth()->0 - 1) as u32),
{
}

/// A commit undoes the begin before it: the manager is back where it was, but
/// for what a beginning outside clears.
pub proof fn commit_undoes_begin(m: TursoTransactionManager)
    requires
        m.well_formed(),
        m.status is Valid,
        m.depth() matches Some(depth) ==> depth < u32::MAX,
    ensures
        m.begun().depth() is Some,
        m.begun().committed(m.begun().depth()->0, m.poisoned, Ok(())) == (
            m,
            Ok::<(), QueryError>(()),
        ),
{
}

/// An answer that no transaction was active is taken for success: the manager
/// is outside any transaction and says that nothing was latched.
pub proof fn unlatched_ends_are_success(m: TursoTransactionManager, e: QueryError)
    requires
        m.depth() == Some(1u32),
        error::says_no_transaction(e),
    ensures
        m.rolled_back(1, Err(e)).1 is Ok,
        m.rolled_back(1, Err(e)).0.depth() is None,
        m.rolled_back(1, Err(e)).0.last_commit_did_not_latch,
        !m.poisoned ==> m.committed(1, m.poisoned, Err(e)).1 is Ok,
        m.committed(1, m.poisoned, Err(e)).0.depth() is None,
        m.committed(1, m.poisoned, Err(e)).0.last_commit_did_not_latch,
{
}

/// Any other failure to end the outermost transaction is handed on and breaks
/// the manager for good: no transaction can be begun or ended after it.
pub proof fn failed_ends_break_the_manager(m: TursoTransactionManager, e: QueryError)
    requires
        m.depth() == Some(1u32),
        !error::says_no_transaction(e),
    ensures
        m.rolled_back(1, Err(e)).0.status is InError,
        m.rolled_back(1, Err(e)).1 == Err::<(), QueryError>(e),
        m.committed(1, m.poisoned, Err(e)).0.status is InError,
        m.committed(1, m.poisoned, Err(e)).1 == Err::<(), QueryError>(e),
{
}

/// The status of a manager outside any transaction.
pub open spec fn outside() -> TransactionManagerStatus {
    TransactionManagerStatus::Valid(ValidTransactionManagerStatus { in_transaction: None })
}

/// A rollback of the outermost transaction that the engine carries out undoes
/// its begin: the manager is back where it was.
pub proof fn rollback_undoes_begin(m: TursoTransactionManager)
    requires
        m.well_formed(),
        m.status == outside(),
    ensures
        m.begun().rolled_back(1, Ok(())) == (m, Ok::<(), QueryError>(())),
{
}

/// Ending the outermost transaction, where the engine carries that out, leaves
/// the manager outside any transaction and not poisoned, and keeps everything
/// else. A rollback and a commit differ in nothing but what a poisoned commit
/// reports.
pub proof fn outermost_ends_leave_the_transaction(m: TursoTransactionManager)
    requires
        m.depth() == Some(1u32),
    ensures
        m.rolled_back(1, Ok(())) == (
            TursoTransactionManager { status: outside(), poisoned: false, ..m },
            Ok::<(), QueryError>(()),
        ),
        m.committed(1, false, Ok(())) == m.rolled_back(1, Ok(())),
        m.committed(1, true, Ok(())).0 == m.rolled_back(1, Ok(())).0,
        m.committed(1, true, Ok(())).1 == Err::<(), QueryError>(QueryError::RollbackTransaction),
{
}

/// A begin goes exactly one level in: to depth one from outside, with nothing
/// owed and no test, and else one deeper with all else as it was. A manager
/// that is in error stays as it is.
pub proof fn a_begin_goes_one_level_in(m: TursoTransactionManager)
    ensures
        m.status is InError ==> m.begun() == m,
        m.status == outside() ==> m.begun() == (TursoTransactionManager {
            status: TransactionManagerStatus::Valid(
                ValidTransactionManagerStatus {
                    in_transaction: Some(
                        InTransactionStatus {
                            transaction_depth: 1,
                            requires_rollback_maybe_up_to_top_level: false,
                            test_transaction: false,
                        },
                    ),
                },
            ),
            ..m
        }),
        m.depth() matches Some(depth) ==> depth < u32::MAX ==> m.begun() == at_depth(
            m,
            (depth + 1) as u32,
        ),
{
}

/// A manager with its open transaction at another depth, and all else as it
/// is.
pub open spec fn at_depth(m: TursoTransactionManager, depth: u32) -> TursoTransactionManager {
    TursoTransactionManager {
        status: TransactionManagerStatus::Valid(
            ValidTransactionManagerStatus {
                in_transaction: Some(
                    InTransactionStatus {
                        transaction_depth: depth,
                        ..m.status->Valid_0.in_transaction->0
                    },
                ),
            },
        ),
        ..m
    }
}

/// An end inside another transaction goes exactly one level out and reports no
/// error. A rollback poisons on the way, and nothing else changes.
pub proof fn inner_ends_go_one_level_out(
    m: TursoTransactionManager,
    poisoned: bool,
    answer: Result<(), QueryError>,
)
    requires
        m.depth() matches Some(depth) && depth >= 2,
    ensures
        m.committed(m.depth()->0, poisoned, answer) == (
            at_depth(m, (m.depth()->0 - 1) as u32),
            Ok::<(), QueryError>(()),
        ),
        m.rolled_back(m.depth()->0, answer) == (
            TursoTransactionManager {
                poisoned: true,
                ..at_depth(m, (m.depth()->0 - 1) as u32)
            },
            Ok::<(), QueryError>(()),
        ),
{
}

/// What the engine's refusals leave of the manager: outside and not poisoned
/// where no transaction was active, and in error with all else kept for any
/// other.
pub proof fn refused_ends_keep_the_rest(m: TursoTransactionManager, e: QueryError)
    requires
        m.depth() == Some(1u32),
    ensures
        m.rolled_back(1, Err(e)).0 == m.committed(1, m.poisoned, Err(e)).0,
        m.rolled_back(1, Err(e)).0 == (if error::says_no_transaction(e) {
            TursoTransactionManager {
                status: outside(),
                poisoned: false,
                last_commit_did_not_latch: true,
            }
        } else {
            TursoTransactionManager { status: TransactionManagerStatus::InError, ..m }
        }),
        error::says_no_transaction(e) && m.poisoned ==> m.committed(1, m.poisoned, Err(e)).1 == Err::<
            (),
            QueryError,
        >(QueryError::RollbackTransaction),
{
}

/// SQL runs at the outermost level and nowhere else: `BEGIN` to open it,
/// `COMMIT` or `ROLLBACK` to close it, and never `COMMIT` on one that is
/// poisoned.
pub proof fn sql_runs_at_the_outermost_level_only(m: TursoTransactionManager)
    ensures
        m.begin_sql() == Some("BEGIN"@) <==> m.depth() is None,
        m.begin_sql() is Some <==> m.depth() is None,
        m.rollback_sql() is Some <==> m.depth() == Some(1u32),
        m.commit_sql() is Some <==> m.depth() == Some(1u32),
        m.rollback_sql() is Some ==> m.rollback_sql() == Some("ROLLBACK"@),
        m.commit_sql() == Some("COMMIT"@) <==> m.depth() == Some(1u32) && !m.poisoned,
        m.commit_sql() == Some("ROLLBACK"@) <==> m.depth() == Some(1u32) && m.poisoned,
{
    reveal_strlit("COMMIT");
    reveal_strlit("ROLLBACK");
    assert("COMMIT"@.len() != "ROLLBACK"@.len());
}

/// Marking a transaction, as one for a test or as owing a rollback, changes
/// that mark and nothing else, and marks nothing where none is open.
pub proof fn marks_change_nothing_else(status: TransactionManagerStatus, owed: bool)
    ensures
        status matches TransactionManagerStatus::Valid(valid) ==> valid.in_transaction matches Some(
            inner,
        ) ==> {
            &&& status.in_test() matches TransactionManagerStatus::Valid(next)
            &&& next.in_transaction == Some(
                InTransactionStatus {
                    transaction_depth: inner.transaction_depth,
                    requires_rollback_maybe_up_to_top_level:
                        inner.requires_rollback_maybe_up_to_top_level,
                    test_transaction: true,
                },
            )
            &&& status.owing_rollback(owed) matches TransactionManagerStatus::Valid(other)
            &&& other.in_transaction == Some(
                InTransactionStatus {
                    transaction_depth: inner.transaction_depth,
                    requires_rollback_maybe_up_to_top_level: owed,
                    test_transaction: inner.test_transaction,
                },
            )
        },
        status is InError || status == outside() ==> status.in_test() == status
            && status.owing_rollback(owed) == status,
{
}

/// A manager of a connection on which nothing has happened is outside any
/// transaction, poisoned by nothing, and is what a transaction that was begun
/// and ended on it leaves.
pub proof fn fresh_managers_are_at_rest()
    ensures
        fresh_manager().status == TransactionManagerStatus::Valid(
            ValidTransactionManagerStatus { in_transaction: None },
        ),
        fresh_manager().depth() is None,
        !fresh_manager().poisoned,
        !fresh_manager().last_commit_did_not_latch,
        fresh_manager().begun().rolled_back(1, Ok(())) == (fresh_manager(), Ok::<(), QueryError>(())),
        fresh_manager().begun().committed(1, false, Ok(())) == (
            fresh_manager(),
            Ok::<(), QueryError>(()),
        ),
{
}

} // verus!
