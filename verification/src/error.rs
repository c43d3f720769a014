//! The errors of the library.

use vstd::prelude::*;
use vstd::string::StringExecFns;

verus! {

/// Errors of the operations that touch the `redb` file behind a
/// [`crate::RevocationCache`]. Purely in-memory operations never fail.
///
/// Each variant carries the text of what went wrong underneath.
#[derive(Debug)]
pub enum KvError {
    /// Failed to open or create the underlying `redb` database file.
    Database(String),
    /// Failed to start a `redb` transaction.
    Transaction(String),
    /// Failed to open a table within a `redb` transaction.
    Table(String),
    /// Failed to commit a `redb` write transaction.
    Commit(String),
    /// Failed to read or write a value from/to a `redb` table.
    Storage(String),
    /// Failed to encode or decode a stored value.
    Serialization(String),
}

impl KvError {
    /// What the error says of itself.
    pub open spec fn text(self) -> Seq<char> {
        match self {
            KvError::Database(cause) => "redb database error: "@ + cause@,
            KvError::Transaction(cause) => "redb transaction error: "@ + cause@,
            KvError::Table(cause) => "redb table error: "@ + cause@,
            KvError::Commit(cause) => "redb commit error: "@ + cause@,
            KvError::Storage(cause) => "redb storage error: "@ + cause@,
            KvError::Serialization(cause) => "serialization error: "@ + cause@,
        }
    }

    /// The text of the error, for people: what failed, then the cause.
    pub fn message(&self) -> (message: String)
        ensures
            message@ == self.text(),
    {
        match self {
            KvError::Database(cause) => joined("redb database error: ", cause),
            KvError::Transaction(cause) => joined("redb transaction error: ", cause),
            KvError::Table(cause) => joined("redb table error: ", cause),
            KvError::Commit(cause) => joined("redb commit error: ", cause),
            KvError::Storage(cause) => joined("redb storage error: ", cause),
            KvError::Serialization(cause) => joined("serialization error: ", cause),
        }
    }
}

/// An error says what failed, then the cause, whatever the cause is.
pub proof fn law_error_says_what_failed_and_why(cause: String)
    ensures
        KvError::Database(cause).text() == "redb database error: "@ + cause@,
        KvError::Transaction(cause).text() == "redb transaction error: "@ + cause@,
        KvError::Table(cause).text() == "redb table error: "@ + cause@,
        KvError::Commit(cause).text() == "redb commit error: "@ + cause@,
        KvError::Storage(cause).text() == "redb storage error: "@ + cause@,
        KvError::Serialization(cause).text() == "serialization error: "@ + cause@,
{
}

/// `prefix` followed by `rest`.
pub(crate) fn joined(prefix: &str, rest: &str) -> (whole: String)
    ensures
        whole@ == prefix@ + rest@,
{
    let mut whole = prefix.to_owned();
    whole.append(rest);
    whole
}

} // verus!
