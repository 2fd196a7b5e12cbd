//! The errors of this crate, and what becomes of an error of the engine.

use vstd::prelude::*;

use crate::backend::TursoType;
use crate::text::contains_text;
use crate::value::{Value, ValueView};

verus! {

/// What kind of failure the database reported.
#[derive(Debug, Clone, Copy, PartialEq, Eq, Structural)]
pub enum DatabaseErrorKind {
    /// The engine does not say which constraint failed, or whether one did.
    Unknown,
}

/// What is known of a failure that the database reported: its message.
#[derive(Debug, PartialEq, Eq)]
pub struct TursoDbError(pub String);

impl TursoDbError {
    /// The engine's message.
    pub fn message(&self) -> (text: &str)
        ensures
            text@ == self.0@,
    {
        self.0.as_str()
    }

    /// The engine gives no details.
    pub fn details(&self) -> (text: Option<&str>)
        ensures
            text is None,
    {
        None
    }

    /// The engine gives no hint.
    pub fn hint(&self) -> (text: Option<&str>)
        ensures
            text is None,
    {
        None
    }

    /// The engine does not name the table.
    pub fn table_name(&self) -> (text: Option<&str>)
        ensures
            text is None,
    {
        None
    }

    /// The engine does not name the column.
    pub fn column_name(&self) -> (text: Option<&str>)
        ensures
            text is None,
    {
        None
    }

    /// The engine does not name the constraint.
    pub fn constraint_name(&self) -> (text: Option<&str>)
        ensures
            text is None,
    {
        None
    }

    /// The engine does not say where in the statement it failed.
    pub fn statement_position(&self) -> (position: Option<i32>)
        ensures
            position is None,
    {
        None
    }
}

/// Why a value could not be written as a bind.
#[derive(Debug)]
pub enum WriteError {
    /// A number does not fit in the narrower type that it is written as.
    OutOfRange,
    /// An element of a list was written as `got`, and `class` was promised.
    ListElement { got: Value, class: TursoType },
    /// A list could not be put into JSON.
    Json(serde_json::Error),
    /// A value refused to be written, for this reason.
    Custom(String),
}

/// What a [`WriteError`] says. Why there is no JSON is left out.
#[verifier::ext_equal]
pub enum WriteErrorView {
    OutOfRange,
    ListElement { got: ValueView, class: TursoType },
    Json,
    Custom(Seq<char>),
}

impl View for WriteError {
    type V = WriteErrorView;

    open spec fn view(&self) -> WriteErrorView {
        match *self {
            WriteError::OutOfRange => WriteErrorView::OutOfRange,
            WriteError::ListElement { got, class } => WriteErrorView::ListElement {
                got: got@,
                class,
            },
            WriteError::Json(_) => WriteErrorView::Json,
            WriteError::Custom(reason) => WriteErrorView::Custom(reason@),
        }
    }
}

/// Why a value could not be read as a type.
#[derive(Debug)]
pub enum ReadError {
    /// The value is of another storage class than expected.
    Mismatch { expected: &'static str, got: Value },
    /// The integer does not fit in the type.
    OutOfRange { value: i64, target: &'static str },
    /// The value is NULL, and the type has no room for that.
    UnexpectedNull,
    /// The blob has this many bytes, and a UUID has sixteen.
    UuidLength(usize),
    /// The text is not a JSON array of strings.
    Json { text: String, reason: serde_json::Error },
    /// The value is no date, time or timestamp.
    Temporal { expected: &'static str, got: Value },
    /// The value was refused, for this reason.
    Custom(String),
}

/// What a [`ReadError`] says. Why a text is not JSON is left out.
#[verifier::ext_equal]
pub enum ReadErrorView {
    Mismatch { expected: Seq<char>, got: ValueView },
    OutOfRange { value: i64, target: Seq<char> },
    UnexpectedNull,
    UuidLength(nat),
    Json { text: Seq<char> },
    Temporal { expected: Seq<char>, got: ValueView },
    Custom(Seq<char>),
}

impl View for ReadError {
    type V = ReadErrorView;

    open spec fn view(&self) -> ReadErrorView {
        match *self {
            ReadError::Mismatch { expected, got } => ReadErrorView::Mismatch {
                expected: expected@,
                got: got@,
            },
            ReadError::OutOfRange { value, target } => ReadErrorView::OutOfRange {
                value,
                target: target@,
            },
            ReadError::UnexpectedNull => ReadErrorView::UnexpectedNull,
            ReadError::UuidLength(n) => ReadErrorView::UuidLength(n as nat),
            ReadError::Json { text, reason } => ReadErrorView::Json { text: text@ },
            ReadError::Temporal { expected, got } => ReadErrorView::Temporal {
                expected: expected@,
                got: got@,
            },
            ReadError::Custom(reason) => ReadErrorView::Custom(reason@),
        }
    }
}

/// Why `serde_json` refused a text.
#[verifier::external_type_specification]
#[verifier::external_body]
pub struct ExJsonError(serde_json::Error);

/// The error of a value of another storage class than expected.
pub(crate) fn mismatch(expected: &'static str, got: &Value) -> (e: ReadError)
    ensures
        e@ == (ReadErrorView::Mismatch { expected: expected@, got: got@ }),
{
    ReadError::Mismatch { expected, got: got.clone() }
}

/// What can go wrong with a query or a transaction.
#[derive(Debug)]
pub enum QueryError {
    /// The database reported a failure.
    DatabaseError(DatabaseErrorKind, TursoDbError),
    /// A bind could not be written, for this reason.
    SerializationError(WriteError),
    /// A value could not be read, for this reason.
    DeserializationError(ReadError),
    /// The transaction was rolled back, as was asked.
    RollbackTransaction,
    /// A transaction was to be ended while none was open.
    NotInTransaction,
    /// An earlier failure left the transaction in a state that nobody knows.
    BrokenTransactionManager,
}

/// What can go wrong when a connection is opened.
#[derive(Debug)]
pub enum ConnectionError {
    /// The engine refused, with this message.
    BadConnection(String),
    /// The connection was opened and could not be set up.
    CouldntSetupConfiguration(QueryError),
}

/// An error of the engine: the message that it displays.
#[derive(Debug, PartialEq, Eq)]
pub struct TursoError {
    pub message: String,
}

/// The engine's error as one of a query. The engine has no structured kinds,
/// so the kind is always unknown.
pub open spec fn database_error(e: TursoError) -> QueryError {
    QueryError::DatabaseError(DatabaseErrorKind::Unknown, TursoDbError(e.message))
}

/// The closest error of this crate.
pub fn turso_to_diesel(e: TursoError) -> (error: QueryError)
    ensures
        error == database_error(e),
{
    QueryError::DatabaseError(DatabaseErrorKind::Unknown, TursoDbError(e.message))
}

/// The same for the opening of a connection.
pub fn turso_to_connection(e: TursoError) -> (error: ConnectionError)
    ensures
        error == ConnectionError::BadConnection(e.message),
{
    ConnectionError::BadConnection(e.message)
}

/// Whether an error says that there was no transaction to end.
pub open spec fn says_no_transaction(e: QueryError) -> bool {
    e matches QueryError::DatabaseError(_, info) && crate::text::holds(
        info.0@,
        "no transaction is active"@,
    )
}

/// Whether an error says that there was no transaction to end. The engine
/// answers so where a transaction only read: it was deferred and never began.
pub fn is_no_transaction_error(e: &QueryError) -> (yes: bool)
    ensures
        yes == says_no_transaction(*e),
{
    match e {
        QueryError::DatabaseError(_, info) => contains_text(
            info.message(),
            "no transaction is active",
        ),
        _ => false,
    }
}

/// An error keeps the engine's message, and says that there was no transaction
/// exactly where the message holds those words, wherever in it they stand.
pub proof fn messages_are_kept_and_searched(
    e: TursoError,
    before: Seq<char>,
    after: Seq<char>,
)
    ensures
        database_error(e) matches QueryError::DatabaseError(kind, info) && info.0 == e.message
            && kind == DatabaseErrorKind::Unknown,
        e.message@ == before + "no transaction is active"@ + after ==> says_no_transaction(
            database_error(e),
        ),
        says_no_transaction(database_error(e)) ==> e.message@.len() >= 24,
        !says_no_transaction(QueryError::NotInTransaction),
        !says_no_transaction(QueryError::RollbackTransaction),
        !says_no_transaction(QueryError::BrokenTransactionManager),
{
    reveal_strlit("no transaction is active");
    let needle = "no transaction is active"@;
    assert(needle.len() == 24);
    if e.message@ == before + needle + after {
        let n = before.len() as int;
        assert(e.message@.subrange(n, n + 24) =~= needle);
        assert(crate::text::stands_at(e.message@, needle, n));
    }
}

} // verus!
