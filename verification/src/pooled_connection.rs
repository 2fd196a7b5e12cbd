//! What a pool is told of its connections.

use vstd::prelude::*;

use crate::error::{ConnectionError, QueryError};

verus! {

/// Why a pool has no connection to give.
#[derive(Debug)]
pub enum PoolError {
    /// None could be established.
    ConnectionError(ConnectionError),
    /// One did not answer.
    QueryError(QueryError),
}

/// What a pool is told of a connection that was to be established.
pub fn connected<C>(r: Result<C, ConnectionError>) -> (answer: Result<C, PoolError>)
    ensures
        answer == (match r {
            Ok(conn) => Ok(conn),
            Err(e) => Err(PoolError::ConnectionError(e)),
        }),
{
    match r {
        Ok(conn) => Ok(conn),
        Err(e) => Err(PoolError::ConnectionError(e)),
    }
}

/// What a pool is told of a connection that was asked whether it answers.
pub fn checked(ping: Result<(), QueryError>) -> (answer: Result<(), PoolError>)
    ensures
        answer == (match ping {
            Ok(_) => Ok(()),
            Err(e) => Err(PoolError::QueryError(e)),
        }),
{
    match ping {
        Ok(_) => Ok(()),
        Err(e) => Err(PoolError::QueryError(e)),
    }
}

/// Whether a connection is to be dropped: it was returned by a panic, or says
/// itself that it is broken.
pub fn has_broken(panicking: bool, is_broken: bool) -> (broken: bool)
    ensures
        broken == (panicking || is_broken),
{
    panicking || is_broken
}

/// Whether a connection may be asked if it answers, before it is handed out
/// again. One that is to be dropped is refused unasked.
pub fn may_recycle(panicking: bool, is_broken: bool) -> (r: Result<(), &'static str>)
    ensures
        match r {
            Ok(_) => !panicking && !is_broken,
            Err(reason) => (panicking || is_broken) && reason@ == "Broken connection"@,
        },
{
    if has_broken(panicking, is_broken) {
        Err("Broken connection")
    } else {
        Ok(())
    }
}

} // verus!
