//! What the calls on a connection come to: how it is opened, what becomes of
//! its transactions and of its statement cache, and whether it is reused.

use vstd::prelude::*;

use crate::connection;
use crate::connection::{OpenPlan, TursoConnection};
use crate::error;
use crate::error::{ConnectionError, QueryError, TursoError};
use crate::pooled_connection;
use crate::pooled_connection::PoolError;
use crate::query::Prepared;
use crate::statement_cache;
use crate::statement_cache::{CacheSize, CacheView, StatementCache, StatementCacheStats};
use crate::text;
use crate::transaction::{
    BeginPlan, EndPlan, TransactionDepthChange, TransactionManagerStatus,
    TursoTransactionManager, ValidTransactionManagerStatus,
};

verus! {

/// A pool drops a connection exactly where it was returned by a panic or says
/// that it is broken, and asks one whether it answers exactly where it does
/// not drop it.
pub proof fn pools_ask_what_they_do_not_drop(
    panicking: bool,
    is_broken: bool,
    dropped: bool,
    asked: Result<(), &'static str>,
)
    requires
        call_ensures(pooled_connection::has_broken, (panicking, is_broken), dropped),
        call_ensures(pooled_connection::may_recycle, (panicking, is_broken), asked),
    ensures
        !dropped <==> !panicking && !is_broken,
        asked is Ok <==> !dropped,
        asked matches Err(reason) ==> reason@ == "Broken connection"@,
{
}

/// A pool is handed what it was to get, and else the reason, each kind of
/// failure under its own name.
pub proof fn pools_are_told_the_reason<C>(
    established: Result<C, ConnectionError>,
    connected: Result<C, PoolError>,
    ping: Result<(), QueryError>,
    checked: Result<(), PoolError>,
)
    requires
        call_ensures(pooled_connection::connected::<C>, (established,), connected),
        call_ensures(pooled_connection::checked, (ping,), checked),
    ensures
        established matches Ok(conn) ==> connected == Ok::<_, PoolError>(conn),
        established matches Err(e) ==> connected == Err::<C, _>(PoolError::ConnectionError(e)),
        ping is Ok <==> checked is Ok,
        ping matches Err(e) ==> checked == Err::<(), _>(PoolError::QueryError(e)),
{
}

/// Other processes may read along unless the database lives in memory or the
/// caller says that there are none; and foreign keys are enforced before
/// anyone gets a connection.
pub proof fn connections_enforce_foreign_keys(
    url: &str,
    shared: OpenPlan,
    single: OpenPlan,
    wal: bool,
    plan: OpenPlan,
)
    requires
        call_ensures(TursoConnection::establish, (url,), shared),
        call_ensures(TursoConnection::establish_single_process, (url,), single),
        call_ensures(connection::open_plan, (url, wal), plan),
    ensures
        shared.setup@ == "PRAGMA foreign_keys = ON"@,
        single.setup@ == "PRAGMA foreign_keys = ON"@,
        plan.setup@ == "PRAGMA foreign_keys = ON"@,
        !single.multiprocess_wal,
        shared.multiprocess_wal <==> url@.len() != 0 && url@ != ":memory:"@,
        plan.multiprocess_wal == (wal && shared.multiprocess_wal),
{
}

/// A transaction for a test rolls back however its work went, and keeps the
/// result of work that went well.
pub proof fn test_transactions_roll_back<R, E>(
    result: Result<R, E>,
    outcome: (Option<R>, QueryError),
)
    requires
        call_ensures(connection::test_outcome::<R, E>, (result,), outcome),
    ensures
        outcome.1 == QueryError::RollbackTransaction,
        result matches Ok(kept) ==> outcome.0 == Some(kept),
        result is Err ==> outcome.0 is None,
{
}

/// A connection is broken where its manager is, where the engine is not in
/// autocommit mode, and where the engine cannot say.
pub proof fn connections_are_broken_unless_all_is_well(
    conn: TursoConnection,
    status: TransactionManagerStatus,
    is_autocommit: Result<bool, TursoError>,
    broken: bool,
    manager_broken: bool,
)
    requires
        status == conn.transaction_state.status,
        call_ensures(TursoConnection::is_broken, (&conn, is_autocommit), broken),
        call_ensures(connection::is_broken_transaction_manager, (&status,), manager_broken),
    ensures
        !broken <==> !manager_broken && is_autocommit == Ok::<bool, TursoError>(true),
        status is InError ==> broken,
{
}

/// A transaction for a test is begun where the state is known and no
/// transaction is open.
pub proof fn test_transactions_are_outermost(status: TransactionManagerStatus, yes: bool)
    requires
        call_ensures(TransactionManagerStatus::can_begin_test_transaction, (&status,), yes),
    ensures
        yes <==> status == TransactionManagerStatus::Valid(
            ValidTransactionManagerStatus { in_transaction: None },
        ),
{
}

/// A transaction that is begun outside any other runs `BEGIN` and has the
/// depth one, and one that is begun inside another runs nothing and is one
/// deeper.
pub proof fn begins_run_sql_at_the_outermost_level(
    m: &mut TursoTransactionManager,
    plan: Result<BeginPlan, QueryError>,
    begun: &mut TursoTransactionManager,
    r: Result<(), QueryError>,
)
    requires
        call_ensures(TursoTransactionManager::begin_transaction, (m,), plan),
        *old(begun) == *final(m),
        call_ensures(TursoTransactionManager::transaction_begun, (begun,), r),
    ensures
        old(m).status is InError ==> plan == Err::<BeginPlan, _>(
            QueryError::BrokenTransactionManager,
        ) && r is Err && *final(begun) == *old(m),
        old(m).status is Valid ==> (plan matches Ok(p) && final(begun).depth() == Some(p.depth)
            && r is Ok && final(begun).poisoned == old(m).poisoned),
        old(m).status is Valid && old(m).depth() is None ==> (plan matches Ok(p) && p.depth == 1
            && (p.sql matches Some(sql) && sql@ == "BEGIN"@)
            && !final(begun).last_commit_did_not_latch),
        old(m).depth() matches Some(depth) ==> (plan matches Ok(p) && p.sql is None && (depth
            < u32::MAX ==> p.depth == depth + 1)),
{
}

/// A rollback that the engine carried out goes one level out: the outermost
/// one runs `ROLLBACK` and leaves no transaction and no poison, and an inner
/// one runs nothing and poisons what is left.
pub proof fn rollbacks_go_one_level_out(
    m: &mut TursoTransactionManager,
    plan: Result<EndPlan, QueryError>,
    given: &EndPlan,
    r: Result<(), QueryError>,
)
    requires
        old(m).depth() matches Some(depth) && depth >= 1,
        call_ensures(TursoTransactionManager::rollback_transaction, (&*old(m),), plan),
        plan == Ok::<_, QueryError>(*given),
        call_ensures(
            TursoTransactionManager::rollback_answered,
            (m, given, Ok::<(), QueryError>(())),
            r,
        ),
    ensures
        r is Ok,
        old(m).depth() == Some(1u32) ==> (given.sql matches Some(sql) && sql@ == "ROLLBACK"@)
            && final(m).depth() is None && final(m).status is Valid && !final(m).poisoned,
        old(m).depth()->0 > 1 ==> given.sql is None && final(m).poisoned && (
        final(m).depth() matches Some(depth) && depth == old(m).depth()->0 - 1),
        final(m).last_commit_did_not_latch == old(m).last_commit_did_not_latch,
{
}

/// A commit that the engine carried out goes one level out. The outermost one
/// runs `COMMIT`; but a poisoned one runs `ROLLBACK` and says so. An inner one
/// runs nothing and changes nothing else.
pub proof fn commits_go_one_level_out(
    m: &mut TursoTransactionManager,
    plan: Result<EndPlan, QueryError>,
    given: &EndPlan,
    r: Result<(), QueryError>,
)
    requires
        old(m).depth() matches Some(depth) && depth >= 1,
        call_ensures(TursoTransactionManager::commit_transaction, (&*old(m),), plan),
        plan == Ok::<_, QueryError>(*given),
        call_ensures(
            TursoTransactionManager::commit_answered,
            (m, given, Ok::<(), QueryError>(())),
            r,
        ),
    ensures
        old(m).depth() == Some(1u32) ==> final(m).depth() is None && final(m).status is Valid
            && !final(m).poisoned,
        old(m).depth() == Some(1u32) && !old(m).poisoned ==> r is Ok && (
        given.sql matches Some(sql) && sql@ == "COMMIT"@),
        old(m).depth() == Some(1u32) && old(m).poisoned ==> r == Err::<(), _>(
            QueryError::RollbackTransaction,
        ) && (given.sql matches Some(sql) && sql@ == "ROLLBACK"@),
        old(m).depth()->0 > 1 ==> r is Ok && given.sql is None && final(m).poisoned
            == old(m).poisoned && (final(m).depth() matches Some(depth) && depth
            == old(m).depth()->0 - 1),
{
}

/// Setting the size of a cache changes its size and nothing else, and a
/// disabled cache then admits nothing.
pub proof fn disabling_keeps_what_is_held(
    cache: &mut StatementCache,
    size: CacheSize,
    next: &mut StatementCache,
    text: u64,
    sql: &str,
    safe_to_cache: bool,
    cached: bool,
)
    requires
        old(cache)@.well_formed(),
        old(cache)@.counters_have_room(),
        call_ensures(StatementCache::set_size, (cache, size), ()),
        *old(next) == *final(cache),
        call_ensures(StatementCache::admit_text, (next, text, sql, safe_to_cache), cached),
    ensures
        final(cache)@ == (CacheView { size, ..old(cache)@ }),
        size == CacheSize::Disabled ==> !cached && final(next)@.admitted == old(cache)@.admitted
            && final(next)@.uncached == old(cache)@.uncached + 1 && final(next)@.hits
            == old(cache)@.hits,
        size == CacheSize::Unbounded && old(cache)@.admitted.contains(text) ==> cached
            && final(next)@.hits == old(cache)@.hits + 1 && final(next)@.uncached
            == old(cache)@.uncached,
{
}

/// Texts that are one but for the lengths of their placeholder runs have one
/// family.
pub proof fn families_ignore_the_length_of_runs(a: &str, b: &str, key_a: u64, key_b: u64)
    requires
        call_ensures(statement_cache::family_of, (a,), key_a),
        call_ensures(statement_cache::family_of, (b,), key_b),
        statement_cache::collapsed(vstd::utf8::encode_utf8(a@), 0) == statement_cache::collapsed(
            vstd::utf8::encode_utf8(b@),
            0,
        ),
    ensures
        key_a == key_b,
{
}

/// A new connection is outside any transaction and has admitted nothing, and
/// its counters are those of its cache.
pub proof fn new_connections_are_at_rest(conn: TursoConnection, stats: StatementCacheStats)
    requires
        call_ensures(TursoConnection::new, (), conn),
        call_ensures(TursoConnection::statement_cache_stats, (&conn,), stats),
    ensures
        conn.transaction_state.depth() is None,
        conn.transaction_state.status is Valid,
        !conn.transaction_state.poisoned,
        stats.admitted == 0 && stats.hits == 0 && stats.uncached == 0 && stats.refused_at_cap == 0
            && stats.variadic_families == 0,
{
}

/// A batch that failed leaves a rollback owed where the engine still holds a
/// transaction that the manager knows of, and nothing else changed.
pub proof fn failed_batches_owe_a_rollback(
    conn: &mut TursoConnection,
    e: TursoError,
    is_autocommit: Result<bool, TursoError>,
    error: QueryError,
)
    requires
        call_ensures(TursoConnection::batch_failed, (conn, e, is_autocommit), error),
    ensures
        error matches QueryError::DatabaseError(_, info) && info.0 == e.message,
        final(conn).statement_cache@ == old(conn).statement_cache@,
        final(conn).transaction_state.depth() == old(conn).transaction_state.depth(),
        final(conn).transaction_state.poisoned == old(conn).transaction_state.poisoned,
        is_autocommit != Ok::<bool, TursoError>(false) ==> final(conn).transaction_state
            == old(conn).transaction_state,
        is_autocommit == Ok::<bool, TursoError>(false) ==> (
        final(conn).transaction_state.status matches TransactionManagerStatus::Valid(valid) ==> (
        valid.in_transaction matches Some(inner)
            ==> inner.requires_rollback_maybe_up_to_top_level)),
{
}

/// The marks of a transaction are set on the open one, and change neither its
/// depth nor each other.
pub proof fn marks_are_set_on_the_open_transaction(
    owing: &mut TransactionManagerStatus,
    to: bool,
    tested: &mut TransactionManagerStatus,
    failed: &mut TransactionManagerStatus,
)
    requires
        call_ensures(
            TransactionManagerStatus::set_requires_rollback_maybe_up_to_top_level,
            (owing, to),
            (),
        ),
        call_ensures(TransactionManagerStatus::set_test_transaction_flag, (tested,), ()),
        call_ensures(TransactionManagerStatus::set_in_error, (failed,), ()),
    ensures
        *final(failed) is InError,
        *old(owing) matches TransactionManagerStatus::Valid(was) ==> (
        *final(owing) matches TransactionManagerStatus::Valid(left) && (match was.in_transaction {
            Some(inner) => left.in_transaction matches Some(now)
                && now.requires_rollback_maybe_up_to_top_level == to && now.transaction_depth
                == inner.transaction_depth && now.test_transaction == inner.test_transaction,
            None => left.in_transaction is None,
        })),
        *old(tested) matches TransactionManagerStatus::Valid(was) ==> (
        *final(tested) matches TransactionManagerStatus::Valid(left) && (match was.in_transaction {
            Some(inner) => left.in_transaction matches Some(now) && now.test_transaction
                && now.transaction_depth == inner.transaction_depth
                && now.requires_rollback_maybe_up_to_top_level
                == inner.requires_rollback_maybe_up_to_top_level,
            None => left.in_transaction is None,
        })),
        *old(owing) is InError ==> *final(owing) is InError,
        *old(tested) is InError ==> *final(tested) is InError,
{
}

/// Going in and out again leaves the status as it was, and going out of no
/// transaction is refused.
pub proof fn going_out_undoes_going_in(
    status: &mut ValidTransactionManagerStatus,
    inwards: Result<(), QueryError>,
    inside: &mut ValidTransactionManagerStatus,
    outwards: Result<(), QueryError>,
    outside: &mut ValidTransactionManagerStatus,
    refused: Result<(), QueryError>,
    depth: Option<u32>,
)
    requires
        old(status).depth() matches Some(d) ==> 1 <= d < u32::MAX,
        call_ensures(
            ValidTransactionManagerStatus::change_transaction_depth,
            (status, TransactionDepthChange::IncreaseDepth),
            inwards,
        ),
        *old(inside) == *final(status),
        call_ensures(
            ValidTransactionManagerStatus::change_transaction_depth,
            (inside, TransactionDepthChange::DecreaseDepth),
            outwards,
        ),
        old(outside).in_transaction is None,
        call_ensures(
            ValidTransactionManagerStatus::change_transaction_depth,
            (outside, TransactionDepthChange::DecreaseDepth),
            refused,
        ),
        call_ensures(ValidTransactionManagerStatus::transaction_depth, (&*final(status),), depth),
    ensures
        inwards is Ok && outwards is Ok,
        *final(inside) == *old(status),
        old(status).in_transaction is None ==> depth == Some(1u32),
        old(status).in_transaction matches Some(inner) ==> (depth matches Some(d) && d
            == inner.transaction_depth + 1),
        refused == Err::<(), _>(QueryError::NotInTransaction) && *final(outside) == *old(outside),
{
}

/// Whether the last end of a transaction took hold is told as it was
/// recorded.
pub proof fn latches_are_told(m: TursoTransactionManager, yes: bool)
    requires
        call_ensures(TursoTransactionManager::last_commit_did_not_latch, (&m,), yes),
    ensures
        yes == m.last_commit_did_not_latch,
{
}

/// A query that could not be rendered is not cached and leaves the cache
/// alone; and no query touches the transactions.
pub proof fn broken_queries_are_not_cached(
    conn: &mut TursoConnection,
    prepared: &Result<Prepared, QueryError>,
    cached: bool,
)
    requires
        old(conn).statement_cache@.well_formed(),
        old(conn).statement_cache@.counters_have_room(),
        call_ensures(TursoConnection::admit_query, (conn, prepared), cached),
    ensures
        final(conn).transaction_state == old(conn).transaction_state,
        prepared is Err ==> !cached && final(conn).statement_cache@ == old(conn).statement_cache@,
        prepared is Ok ==> ({
            let (was, now) = (old(conn).statement_cache@, final(conn).statement_cache@);
            now.hits + now.uncached + now.admitted.len() == was.hits + was.uncached + was.admitted.len()
                + 1
        }),
{
    if let Ok(p) = *prepared {
        let was = old(conn).statement_cache@;
        let (given, text) = choose|given: &str, text: u64|
            given@ == p.sql@ && #[trigger] call_ensures(
                statement_cache::hash_of,
                (given,),
                text,
            ) && (final(conn).statement_cache@, cached) == was.step(
                text,
                statement_cache::family_key(p.sql@),
                p.safe_to_cache,
            );
        statement_cache::every_execution_is_counted_once(
            was,
            text,
            statement_cache::family_key(p.sql@),
            p.safe_to_cache,
        );
    }
}

/// The counters that are told are those that were counted.
pub proof fn counters_are_told_as_counted(cache: StatementCache, stats: StatementCacheStats)
    requires
        call_ensures(StatementCache::stats, (&cache,), stats),
    ensures
        stats.admitted == cache@.admitted.len(),
        stats.hits == cache@.hits,
        stats.uncached == cache@.uncached,
        stats.refused_at_cap == cache@.refused_at_cap,
        stats.variadic_families == cache@.variadic_families,
{
}

/// The size of a connection's cache is set without a trace in its
/// transactions.
pub proof fn cache_sizes_are_set_apart(conn: &mut TursoConnection, size: CacheSize)
    requires
        call_ensures(TursoConnection::set_prepared_statement_cache_size, (conn, size), ()),
    ensures
        final(conn).transaction_state == old(conn).transaction_state,
        final(conn).statement_cache@ == (CacheView { size, ..old(conn).statement_cache@ }),
{
}

/// A rollback is owed exactly where the engine says that it still holds the
/// transaction, and an answer that it cannot give changes nothing.
pub proof fn rollbacks_are_owed_where_the_engine_holds_on(
    status: &mut TransactionManagerStatus,
    is_autocommit: Result<bool, TursoError>,
)
    requires
        call_ensures(
            connection::flag_rollback_if_turso_still_holds_the_transaction,
            (status, is_autocommit),
            (),
        ),
    ensures
        is_autocommit is Err || is_autocommit == Ok::<bool, TursoError>(true) ==> *final(status)
            == *old(status),
        is_autocommit == Ok::<bool, TursoError>(false) ==> (
        *old(status) matches TransactionManagerStatus::Valid(was) ==> (
        was.in_transaction matches Some(inner) ==> (
        *final(status) matches TransactionManagerStatus::Valid(left)
            && left.in_transaction matches Some(now) && now.requires_rollback_maybe_up_to_top_level
            && now.transaction_depth == inner.transaction_depth && now.test_transaction
            == inner.test_transaction))),
{
}

/// An error says that no transaction was active exactly where it is the
/// database's and its message holds those words.
pub proof fn missing_transactions_are_told_by_the_message(
    e: QueryError,
    yes: bool,
    before: Seq<char>,
    after: Seq<char>,
)
    requires
        call_ensures(error::is_no_transaction_error, (&e,), yes),
    ensures
        e !is DatabaseError ==> !yes,
        e matches QueryError::DatabaseError(_, info) ==> (info.0@ == before
            + "no transaction is active"@ + after ==> yes),
        yes ==> (e matches QueryError::DatabaseError(_, info) && text::holds(
            info.0@,
            "no transaction is active"@,
        )),
{
    if let QueryError::DatabaseError(_, info) = e {
        let words = "no transaction is active"@;
        if info.0@ == before + words + after {
            let n = before.len() as int;
            assert(info.0@.subrange(n, n + words.len()) =~= words);
            assert(text::stands_at(info.0@, words, n));
        }
    }
}

/// A text is admitted under the family of its own SQL: one that is safe to
/// cache at once while there is room, and any other not at its first sighting.
pub proof fn statements_are_admitted_by_safety_and_recurrence(
    cache: &mut StatementCache,
    sql: &str,
    safe_to_cache: bool,
    cached: bool,
)
    requires
        old(cache)@.well_formed(),
        old(cache)@.counters_have_room(),
        call_ensures(StatementCache::admit_statement, (cache, sql, safe_to_cache), cached),
    ensures
        final(cache)@.well_formed(),
        old(cache)@.size == CacheSize::Disabled ==> !cached,
        old(cache)@.size == CacheSize::Unbounded && safe_to_cache && old(cache)@.admitted.len() < 512
            ==> cached,
        cached ==> final(cache)@.admitted.len() > old(cache)@.admitted.len() || final(cache)@.hits
            == old(cache)@.hits + 1,
        !cached ==> final(cache)@.uncached == old(cache)@.uncached + 1,
        !safe_to_cache && old(cache)@.known(statement_cache::family_key(sql@)) is None && cached
            ==> final(cache)@.hits == old(cache)@.hits + 1,
{
    let was = old(cache)@;
    let family = statement_cache::family_key(sql@);
    let text = choose|text: u64|
        call_ensures(statement_cache::hash_of, (sql,), text) && (final(cache)@, cached)
            == #[trigger] was.step(text, family, safe_to_cache);
    statement_cache::every_execution_is_counted_once(was, text, family, safe_to_cache);
}

} // verus!
