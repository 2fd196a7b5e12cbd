//! What a connection decides: how it is opened, which queries go through the
//! engine's statement cache, what a failure leaves behind, and whether it may
//! be handed on.
//!
//! The engine is asked elsewhere. Its answers come in as plain values.

use std::sync::Arc;

use vstd::prelude::*;

use crate::error;
use crate::error::{turso_to_diesel, QueryError, TursoError};
use crate::pragma;
use crate::pragma::foreign_keys;
use crate::query::Prepared;
use crate::row;
use crate::row::TursoRow;
use crate::statement_cache;
use crate::statement_cache::{CacheSize, CacheView, StatementCache, StatementCacheStats};
use crate::text::same_text;
use crate::transaction;
use crate::transaction::{
    TransactionManagerStatus, TursoTransactionManager,
};
use crate::value;
use crate::value::{Value, ValueView};

verus! {

/// How a database is opened.
#[derive(Debug, Clone, Copy)]
pub struct OpenPlan {
    /// Whether other processes may have the database open at the same time.
    pub multiprocess_wal: bool,
    /// What is run before the connection is handed to anyone.
    pub setup: &'static str,
}

/// Whether a database lives in memory.
pub open spec fn in_memory(database_url: Seq<char>) -> bool {
    database_url.len() == 0 || database_url == ":memory:"@
}

/// Plans the opening of a database. One in memory is never shared between
/// processes, and foreign keys are enforced in any case.
pub fn open_plan(database_url: &str, multiprocess_wal: bool) -> (plan: OpenPlan)
    ensures
        plan.multiprocess_wal == (multiprocess_wal && !in_memory(database_url@)),
        plan.setup@ == pragma::foreign_keys_sql(true),
{
    let is_in_memory: bool = same_text(database_url, "") || same_text(database_url, ":memory:");
    proof {
        reveal_strlit("");
        assert(database_url@.len() == 0 ==> database_url@ =~= ""@);
    }
    OpenPlan {
        multiprocess_wal: multiprocess_wal && !is_in_memory,
        setup: foreign_keys(true).sql(),
    }
}

/// What a connection keeps track of.
#[derive(Debug)]
pub struct TursoConnection {
    pub transaction_state: TursoTransactionManager,
    pub statement_cache: StatementCache,
}

/// What is known of a connection once the engine has been asked whether it is
/// in autocommit mode. One that cannot answer is not guessed about.
pub open spec fn holds_transaction(is_autocommit: Result<bool, TursoError>) -> bool {
    is_autocommit == Ok::<bool, TursoError>(false)
}

/// Records that a rollback is owed, where the engine says that the transaction
/// of a failed statement is still open. The engine closes none on an error, not
/// even on a failed commit, and one that nobody rolls back would swallow every
/// later write.
pub fn flag_rollback_if_turso_still_holds_the_transaction(
    status: &mut TransactionManagerStatus,
    is_autocommit: Result<bool, TursoError>,
)
    ensures
        *final(status) == (if holds_transaction(is_autocommit) {
            old(status).owing_rollback(true)
        } else {
            *old(status)
        }),
{
    let autocommit: bool = match is_autocommit {
        Ok(yes) => yes,
        Err(_) => true,
    };
    if !autocommit {
        status.set_requires_rollback_maybe_up_to_top_level(true);
    }
}

/// Whether a manager says that its connection is not to be reused: what state
/// the database is in is unknown, or a transaction is open that is not one of
/// a test.
pub open spec fn manager_is_broken(status: TransactionManagerStatus) -> bool {
    match status {
        TransactionManagerStatus::InError => true,
        TransactionManagerStatus::Valid(valid) => match valid.in_transaction {
            Some(inner) => !inner.test_transaction,
            None => false,
        },
    }
}

/// Whether a manager says that its connection is not to be reused.
pub fn is_broken_transaction_manager(status: &TransactionManagerStatus) -> (broken: bool)
    ensures
        broken == manager_is_broken(*status),
{
    match status {
        TransactionManagerStatus::InError => true,
        TransactionManagerStatus::Valid(valid) => match &valid.in_transaction {
            Some(inner) => !inner.test_transaction,
            None => false,
        },
    }
}

impl TursoConnection {
    /// A connection on which nothing has happened.
    pub fn new() -> (conn: TursoConnection)
        ensures
            conn.transaction_state == transaction::fresh_manager(),
            conn.statement_cache@ == statement_cache::fresh_cache(),
            conn.statement_cache@.well_formed(),
    {
        TursoConnection {
            transaction_state: TursoTransactionManager::default(),
            statement_cache: StatementCache::default(),
        }
    }

    /// How a connection is established: other processes may read along.
    pub fn establish(database_url: &str) -> (plan: OpenPlan)
        ensures
            plan.multiprocess_wal == !in_memory(database_url@),
            plan.setup@ == pragma::foreign_keys_sql(true),
    {
        open_plan(database_url, true)
    }

    /// How a connection is established to a database that no other process
    /// opens.
    pub fn establish_single_process(database_url: &str) -> (plan: OpenPlan)
        ensures
            !plan.multiprocess_wal,
            plan.setup@ == pragma::foreign_keys_sql(true),
    {
        open_plan(database_url, false)
    }

    /// What the statement cache has admitted, hit and refused so far.
    pub fn statement_cache_stats(&self) -> (stats: StatementCacheStats)
        ensures
            stats.admitted == self.statement_cache@.admitted.len(),
            stats.hits == self.statement_cache.hits,
            stats.uncached == self.statement_cache.uncached,
            stats.refused_at_cap == self.statement_cache.refused_at_cap,
            stats.variadic_families == self.statement_cache.variadic_families,
    {
        self.statement_cache.stats()
    }

    /// Whether a query is compiled through the engine's statement cache. One
    /// that could not be rendered is not, and leaves the cache as it was.
    ///
    /// The text that is hashed is the query's. Which number its hash is
    /// depends on the width of the machine's words, and is not stated here.
    pub fn admit_query(&mut self, prepared: &Result<Prepared, QueryError>) -> (cached: bool)
        requires
            old(self).statement_cache@.well_formed(),
            old(self).statement_cache@.counters_have_room(),
        ensures
            final(self).transaction_state == old(self).transaction_state,
            final(self).statement_cache@.well_formed(),
            match *prepared {
                Ok(p) => exists|given: &str, text: u64|
                    given@ == p.sql@ && #[trigger] call_ensures(
                        statement_cache::hash_of,
                        (given,),
                        text,
                    ) && (final(self).statement_cache@, cached) == old(self).statement_cache@.step(
                        text,
                        statement_cache::family_key(p.sql@),
                        p.safe_to_cache,
                    ),
                Err(_) => !cached && final(self).statement_cache@ == old(self).statement_cache@,
            },
    {
        match prepared {
            Ok(p) => self.statement_cache.admit_statement(p.sql.as_str(), p.safe_to_cache),
            Err(_) => false,
        }
    }

    /// Sets how many statements may be cached. Those that are cached stay so.
    pub fn set_prepared_statement_cache_size(&mut self, size: CacheSize)
        ensures
            final(self).transaction_state == old(self).transaction_state,
            final(self).statement_cache@ == (CacheView { size, ..old(self).statement_cache@ }),
            old(self).statement_cache@.well_formed() ==> final(self).statement_cache@.well_formed(),
    {
        self.statement_cache.set_size(size);
    }

    /// Records that a batch of statements failed, and what the engine then
    /// says of its transaction.
    pub fn batch_failed(&mut self, e: TursoError, is_autocommit: Result<bool, TursoError>) -> (error:
        QueryError)
        ensures
            error == error::database_error(e),
            final(self).statement_cache@ == old(self).statement_cache@,
            final(self).transaction_state == (TursoTransactionManager {
                status: if holds_transaction(is_autocommit) {
                    old(self).transaction_state.status.owing_rollback(true)
                } else {
                    old(self).transaction_state.status
                },
                ..old(self).transaction_state
            }),
    {
        flag_rollback_if_turso_still_holds_the_transaction(
            &mut self.transaction_state.status,
            is_autocommit,
        );
        turso_to_diesel(e)
    }

    /// Whether the connection is not to be handed on: the manager says so, or
    /// the engine holds a transaction that the manager knows nothing of, or it
    /// cannot answer.
    pub fn is_broken(&self, is_autocommit: Result<bool, TursoError>) -> (broken: bool)
        ensures
            broken == (manager_is_broken(self.transaction_state.status) || is_autocommit != Ok::<
                bool,
                TursoError,
            >(true)),
    {
        let autocommit: bool = match is_autocommit {
            Ok(yes) => yes,
            Err(_) => false,
        };
        is_broken_transaction_manager(&self.transaction_state.status) || !autocommit
    }
}

// ---------------------------------------------------------------------------
// Rows
// ---------------------------------------------------------------------------

/// What the engine answers when it is asked for the next row.
#[derive(Debug)]
pub enum RowAnswer {
    /// A row, with the answer to each of its columns.
    Row(Vec<Result<Value, TursoError>>),
    /// There are no more rows.
    Done,
    /// The statement failed.
    Failed(TursoError),
}

/// The rows of a result set, one at a time.
#[derive(Debug)]
pub struct RowStream {
    /// The names of the columns, until the stream is at its end.
    columns: Option<Arc<Vec<String>>>,
}

/// The first column that could not be read.
pub open spec fn first_failure(cells: Seq<Result<Value, TursoError>>, n: int) -> Option<TursoError>
    decreases n,
{
    if n <= 0 {
        None
    } else {
        match first_failure(cells, n - 1) {
            Some(e) => Some(e),
            None => match cells[n - 1] {
                Ok(_) => None,
                Err(e) => Some(e),
            },
        }
    }
}

/// The values of columns that could all be read.
pub open spec fn cell_views(cells: Seq<Result<Value, TursoError>>) -> Seq<ValueView> {
    Seq::new(cells.len(), |i: int| cells[i]->Ok_0@)
}

proof fn lemma_failure_stays(cells: Seq<Result<Value, TursoError>>, n: int, m: int)
    requires
        n <= m,
        first_failure(cells, n) is Some,
    ensures
        first_failure(cells, m) == first_failure(cells, n),
    decreases m - n,
{
    if n < m {
        lemma_failure_stays(cells, n, m - 1);
    }
}

impl RowStream {
    /// The names of the columns, until the stream is at its end.
    pub closed spec fn columns(&self) -> Option<Seq<Seq<char>>> {
        match self.columns {
            Some(names) => Some(row::name_views(names@)),
            None => None,
        }
    }

    /// The rows of a result set with these columns.
    pub fn new(column_names: Vec<String>) -> (stream: RowStream)
        ensures
            stream.columns() == Some(row::name_views(column_names@)),
    {
        RowStream { columns: Some(Arc::new(column_names)) }
    }

    /// Whether the engine is to be asked for another row.
    pub fn is_open(&self) -> (open: bool)
        ensures
            open == (self.columns() is Some),
    {
        self.columns.is_some()
    }

    /// What the next row comes to. The stream is at its end once the engine
    /// has none, or something failed.
    pub fn next_row(&mut self, answer: RowAnswer) -> (item: Option<Result<TursoRow, QueryError>>)
        ensures
            match old(self).columns() {
                None => item is None && final(self).columns() is None,
                Some(names) => match answer {
                    RowAnswer::Done => item is None && final(self).columns() is None,
                    RowAnswer::Failed(e) => (item matches Some(Err(error)) && error
                        == error::database_error(e)) && final(self).columns() is None,
                    RowAnswer::Row(cells) => match first_failure(cells@, cells@.len() as int) {
                        Some(e) => (item matches Some(Err(error)) && error
                            == error::database_error(e)) && final(self).columns() is None,
                        None => (item matches Some(Ok(r)) && r@.values == cell_views(cells@)
                            && r@.names == names) && final(self).columns() == Some(names),
                    },
                },
            },
    {
        let names: Arc<Vec<String>> = match self.columns.take() {
            Some(names) => names,
            None => {
                return None;
            },
        };
        match answer {
            RowAnswer::Done => None,
            RowAnswer::Failed(e) => Some(Err(turso_to_diesel(e))),
            RowAnswer::Row(cells) => {
                let ghost all = cells@;
                let mut values: Vec<Value> = Vec::new();
                for cell in it: cells
                    invariant
                        all == it.seq(),
                        answer matches RowAnswer::Row(given) && given@ == all,
                        old(self).columns() is Some,
                        self.columns() is None,
                        first_failure(all, it.index() as int) is None,
                        values@.len() == it.index(),
                        forall|i: int|
                            0 <= i < values@.len() ==> all[i] is Ok && values@[i]
                                == (#[trigger] all[i])->Ok_0,
                {
                    assert(all[it.index() as int] == cell);
                    match cell {
                        Ok(v) => values.push(v),
                        Err(e) => {
                            proof {
                                lemma_failure_stays(
                                    all,
                                    it.index() as int + 1,
                                    all.len() as int,
                                );
                            }
                            return Some(Err(turso_to_diesel(e)));
                        },
                    }
                }
                assert(value::views(values@) =~= cell_views(all));
                self.columns = Some(names.clone());
                Some(Ok(TursoRow::new(values, names)))
            },
        }
    }
}

// ---------------------------------------------------------------------------
// Test transactions
// ---------------------------------------------------------------------------

/// What a transaction for a test makes of its work: the result is kept, and the
/// transaction is told to roll back, however the work went.
pub fn test_outcome<R, E>(result: Result<R, E>) -> (outcome: (Option<R>, QueryError))
    ensures
        outcome.0 == (match result {
            Ok(kept) => Some(kept),
            Err(_) => None,
        }),
        outcome.1 == QueryError::RollbackTransaction,
{
    match result {
        Ok(kept) => (Some(kept), QueryError::RollbackTransaction),
        Err(_) => (None, QueryError::RollbackTransaction),
    }
}

// ---------------------------------------------------------------------------
// What a connection keeps to
// ---------------------------------------------------------------------------

/// A failure inside a transaction is not lost: where the engine still holds
/// it, the manager owes a rollback, and is otherwise as it was.
pub proof fn open_transactions_are_flagged(
    status: TransactionManagerStatus,
    is_autocommit: Result<bool, TursoError>,
)
    requires
        holds_transaction(is_autocommit),
        status matches TransactionManagerStatus::Valid(valid) && valid.in_transaction is Some,
    ensures
        status.owing_rollback(true) matches TransactionManagerStatus::Valid(valid)
            && valid.in_transaction matches Some(inner)
            && inner.requires_rollback_maybe_up_to_top_level && inner.transaction_depth
            == status->Valid_0.in_transaction->0.transaction_depth,
{
}

/// A connection whose manager owes a rollback is never handed on, unless the
/// transaction is one of a test, and not even then while the engine holds it.
pub proof fn owing_connections_are_broken(
    status: TransactionManagerStatus,
    is_autocommit: Result<bool, TursoError>,
)
    requires
        status matches TransactionManagerStatus::Valid(valid) && valid.in_transaction matches Some(
            inner,
        ) && inner.requires_rollback_maybe_up_to_top_level,
        holds_transaction(is_autocommit) || !status->Valid_0.in_transaction->0.test_transaction,
    ensures
        manager_is_broken(status) || is_autocommit != Ok::<bool, TursoError>(true),
{
}

/// The failure of a row is that of its first column that could not be read:
/// all before it could. There is none exactly where every column could be.
pub proof fn the_first_failure_is_reported(cells: Seq<Result<Value, TursoError>>, n: int)
    requires
        0 <= n <= cells.len(),
    ensures
        first_failure(cells, n) is None <==> forall|i: int| 0 <= i < n ==> (#[trigger] cells[i]) is Ok,
        first_failure(cells, n) matches Some(e) ==> exists|i: int|
            0 <= i < n && #[trigger] cells[i] == Err::<Value, _>(e) && forall|k: int|
                0 <= k < i ==> (#[trigger] cells[k]) is Ok,
    decreases n,
{
    if n > 0 {
        the_first_failure_is_reported(cells, n - 1);
        if first_failure(cells, n - 1) is None {
            assert(forall|i: int| 0 <= i < n - 1 ==> (#[trigger] cells[i]) is Ok);
            if let Err(e) = cells[n - 1] {
                assert(cells[n - 1] == Err::<Value, _>(e));
            }
        } else {
            let e = first_failure(cells, n - 1)->0;
            let i = choose|i: int|
                0 <= i < n - 1 && #[trigger] cells[i] == Err::<Value, _>(e) && forall|k: int|
                    0 <= k < i ==> (#[trigger] cells[k]) is Ok;
            assert(cells[i] is Err);
        }
    }
}

/// A connection may be reused with no transaction open, or with one of a test
/// open, and in no other state.
pub proof fn reusable_managers_are_at_rest(status: TransactionManagerStatus)
    ensures
        status is InError ==> manager_is_broken(status),
        status matches TransactionManagerStatus::Valid(valid) ==> (valid.in_transaction is None
            ==> !manager_is_broken(status)),
        status matches TransactionManagerStatus::Valid(valid) ==> (valid.in_transaction matches Some(
            inner,
        ) ==> (manager_is_broken(status) <==> !inner.test_transaction)),
{
}

/// Only the two names of a database in memory are such: the empty one and
/// `:memory:`.
pub proof fn databases_in_memory_have_two_names(url: Seq<char>)
    ensures
        in_memory(Seq::empty()),
        in_memory(seq![':', 'm', 'e', 'm', 'o', 'r', 'y', ':']),
        in_memory(url) ==> url.len() == 0 || url.len() == 8 && url[0] == ':' && url[7] == ':'
            && url.subrange(1, 7) == "memory"@,
{
    reveal_strlit(":memory:");
    reveal_strlit("memory");
    assert(":memory:"@ =~= seq![':', 'm', 'e', 'm', 'o', 'r', 'y', ':']);
    assert(":memory:"@.subrange(1, 7) =~= "memory"@);
}

/// A transaction is held where the engine says so. Autocommit, and an engine
/// that cannot say, leave the manager alone.
pub proof fn unknown_is_not_held(is_autocommit: Result<bool, TursoError>)
    ensures
        is_autocommit is Err ==> !holds_transaction(is_autocommit),
        is_autocommit matches Ok(yes) ==> holds_transaction(is_autocommit) == !yes,
{
}

} // verus!
