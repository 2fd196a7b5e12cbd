//! `PRAGMA` statements, each with a function of its own. A misspelt pragma is
//! no error but does nothing, so the names are spelled once, here, and no text
//! of a caller's reaches the statement.

use vstd::prelude::*;

use crate::error::{QueryError, WriteErrorView};
use crate::query;
use crate::query::{AstPass, QueryFragment};
use crate::value::ValueView;

verus! {

/// The statement that [`foreign_keys`] returns.
#[derive(Debug, Clone, Copy)]
pub struct ForeignKeys {
    enabled: bool,
}

/// `PRAGMA foreign_keys = ON | OFF`. It holds per connection, and a new
/// connection has it off.
pub fn foreign_keys(enabled: bool) -> (pragma: ForeignKeys)
    ensures
        pragma.enabled() == enabled,
{
    ForeignKeys { enabled }
}

/// The statement's text.
pub open spec fn foreign_keys_sql(enabled: bool) -> Seq<char> {
    if enabled {
        "PRAGMA foreign_keys = ON"@
    } else {
        "PRAGMA foreign_keys = OFF"@
    }
}

impl ForeignKeys {
    /// Whether it turns enforcement on.
    pub closed spec fn enabled(&self) -> bool {
        self.enabled
    }

    /// The statement as text.
    pub fn sql(self) -> (text: &'static str)
        ensures
            text@ == foreign_keys_sql(self.enabled()),
    {
        if self.enabled {
            "PRAGMA foreign_keys = ON"
        } else {
            "PRAGMA foreign_keys = OFF"
        }
    }
}

impl QueryFragment for ForeignKeys {
    open spec fn sql(&self) -> Seq<char> {
        foreign_keys_sql(self.enabled())
    }

    open spec fn binds(&self) -> Result<Seq<ValueView>, WriteErrorView> {
        query::no_binds()
    }

    open spec fn cacheable(&self) -> bool {
        true
    }

    fn walk_ast(&self, out: &mut AstPass) -> (r: Result<(), QueryError>) {
        out.push_sql(ForeignKeys::sql(*self));
        Ok(())
    }
}

/// The two statements differ in their last word alone, and bind nothing.
pub proof fn foreign_keys_are_on_or_off(pragma: ForeignKeys)
    ensures
        foreign_keys_sql(true) == "PRAGMA foreign_keys = "@ + "ON"@,
        foreign_keys_sql(false) == "PRAGMA foreign_keys = "@ + "OFF"@,
        QueryFragment::sql(&pragma) == foreign_keys_sql(pragma.enabled()),
        pragma.binds() == query::no_binds(),
        pragma.cacheable(),
{
    reveal_strlit("PRAGMA foreign_keys = ");
    reveal_strlit("ON");
    reveal_strlit("OFF");
    reveal_strlit("PRAGMA foreign_keys = ON");
    reveal_strlit("PRAGMA foreign_keys = OFF");
    assert("PRAGMA foreign_keys = ON"@ =~= "PRAGMA foreign_keys = "@ + "ON"@);
    assert("PRAGMA foreign_keys = OFF"@ =~= "PRAGMA foreign_keys = "@ + "OFF"@);
}

} // verus!
