//! Cancelling a query that is in progress on another connection.

use vstd::prelude::*;

use crate::text;
use crate::text::push_decimal;

verus! {

/// What cancels a connection's query: the connection's id at the server.
#[derive(Clone, Copy, Debug, PartialEq, Eq, Structural)]
pub struct MysqlCancelToken {
    pub kill_id: u32,
}

impl MysqlCancelToken {
    /// The statement that cancels the query, to be run on a new connection.
    pub fn cancel_query_sql(&self) -> (sql: String)
        ensures
            sql@ == "KILL QUERY "@ + text::decimal(self.kill_id as nat) + ";"@,
    {
        let mut sql: String = String::new();
        sql.append("KILL QUERY ");
        push_decimal(&mut sql, self.kill_id as u64);
        sql.append(";");
        assert(sql@ =~= "KILL QUERY "@ + text::decimal(self.kill_id as nat) + ";"@);
        sql
    }
}

} // verus!
