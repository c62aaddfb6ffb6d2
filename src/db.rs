use vstd::prelude::*;

use crate::engine::{
    begin_read, begin_write, commit, create_engine, ensure_table, lemma_table_names_distinct, APP_SETTINGS, COLLECTIONS,
    COLLECTIONS_BY_WORKSPACE, REQUESTS, REQUESTS_BY_COLLECTION, REQUESTS_BY_WORKSPACE, VARIABLES,
    VARIABLES_BY_SCOPE, WORKSPACES, WORKSPACES_BY_SYNC_GROUP, WORKSPACE_SYNC_GROUPS,
};
use crate::error::{DbError, DbResult};
use redb::Database as RedbDatabase;

verus! {

/// A handle on the one database file of the application; clones share it.
#[derive(Clone)]
pub struct Database {
    db: std::sync::Arc<RedbDatabase>,
}

impl Database {
    /// Opens the database file at `path`, creating it where it is missing, and
    /// makes sure that every table exists.
    pub fn open_at(path: &str) -> (r: DbResult<Database>)
        ensures
            r matches Err(e) ==> e is Database || e is Transaction || e is Storage || e is Commit,
    {
        let db = match create_engine(path) {
            Ok(d) => d,
            Err(e) => return Err(DbError::Database(e)),
        };
        let database = Database { db: std::sync::Arc::new(db) };
        database.init_tables()?;
        Ok(database)
    }

    fn init_tables(&self) -> (r: DbResult<()>)
        ensures
            r matches Err(e) ==> e is Transaction || e is Storage || e is Commit,
    {
        let mut txn = self.begin_write()?;
        let names: [&str; 11] = [
            WORKSPACES, WORKSPACE_SYNC_GROUPS, COLLECTIONS, REQUESTS, VARIABLES, APP_SETTINGS,
            COLLECTIONS_BY_WORKSPACE, REQUESTS_BY_COLLECTION, REQUESTS_BY_WORKSPACE,
            VARIABLES_BY_SCOPE, WORKSPACES_BY_SYNC_GROUP,
        ];
        proof {
            lemma_table_names_distinct();
        }
        let mut i: usize = 0;
        while i < 11
            invariant
                i <= 11,
                forall|j: int| 0 <= j < 11 ==> (#[trigger] names@[j])@.len() > 0,
            decreases 11 - i,
        {
            match ensure_table(&mut txn, names[i]) {
                Ok(()) => {},
                Err(e) => return Err(DbError::Storage(e)),
            }
            i += 1;
        }
        Database::commit(txn)
    }

    /// Begins a read transaction on a snapshot of what was committed.
    pub fn begin_read(&self) -> (r: DbResult<redb::ReadTransaction>)
        ensures
            r matches Err(e) ==> e is Transaction,
    {
        match begin_read(&self.db) {
            Ok(t) => Ok(t),
            Err(e) => Err(DbError::Transaction(e)),
        }
    }

    /// Begins a write transaction; the engine runs one at a time.
    pub fn begin_write(&self) -> (r: DbResult<redb::WriteTransaction>)
        ensures
            r matches Err(e) ==> e is Transaction,
    {
        match begin_write(&self.db) {
            Ok(t) => Ok(t),
            Err(e) => Err(DbError::Transaction(e)),
        }
    }

    /// Commits a write transaction: all of its writes take effect, or none.
    pub fn commit(txn: redb::WriteTransaction) -> (r: DbResult<()>)
        ensures
            r matches Err(e) ==> e is Commit,
    {
        match commit(txn) {
            Ok(()) => Ok(()),
            Err(e) => Err(DbError::Commit(e)),
        }
    }
}

} // verus!
