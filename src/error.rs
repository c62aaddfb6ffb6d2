use vstd::prelude::*;

verus! {

/// Errors surfaced by every storage operation.
#[derive(Debug)]
pub enum DbError {
    /// The database file could not be created or opened.
    Database(redb::DatabaseError),
    /// A table could not be opened, read or written.
    Storage(redb::Error),
    /// A transaction could not be started.
    Transaction(redb::TransactionError),
    /// A transaction could not be committed.
    Commit(redb::CommitError),
    /// No document is stored under the given id.
    NotFound(String),
    /// A stored document or index list is not valid JSON of the expected shape.
    Serialization(String),
    /// The input breaks a rule of the data model.
    InvalidInput(String),
}

pub type DbResult<T> = Result<T, DbError>;

impl DbError {
    pub open spec fn is_not_found(&self) -> bool {
        self is NotFound
    }

    pub open spec fn is_serialization(&self) -> bool {
        self is Serialization
    }
}

} // verus!
