use vstd::prelude::*;

use redb::Database as RedbDatabase;

use crate::error::DbError;

verus! {

#[verifier::external_type_specification]
#[verifier::external_body]
pub struct ExRedbDatabase(RedbDatabase);

#[verifier::external_type_specification]
#[verifier::external_body]
pub struct ExReadTransaction(redb::ReadTransaction);

#[verifier::external_type_specification]
#[verifier::external_body]
pub struct ExWriteTransaction(redb::WriteTransaction);

#[verifier::external_type_specification]
#[verifier::external_body]
pub struct ExRedbError(redb::Error);

#[verifier::external_type_specification]
#[verifier::external_body]
pub struct ExDatabaseError(redb::DatabaseError);

#[verifier::external_type_specification]
#[verifier::external_body]
pub struct ExTransactionError(redb::TransactionError);

#[verifier::external_type_specification]
#[verifier::external_body]
pub struct ExCommitError(redb::CommitError);

/// Primary table: workspace id to workspace document.
pub const WORKSPACES: &'static str = "workspaces";
/// Primary table: sync group id to sync group document.
pub const WORKSPACE_SYNC_GROUPS: &'static str = "workspace_sync_groups";
/// Primary table: collection id to collection document.
pub const COLLECTIONS: &'static str = "collections";
/// Primary table: request id to request document.
pub const REQUESTS: &'static str = "requests";
/// Primary table: variable id to variable document.
pub const VARIABLES: &'static str = "variables";
/// Single-row table holding the application settings document.
pub const APP_SETTINGS: &'static str = "app_settings";
/// Index: workspace id to the ids of its collections.
pub const COLLECTIONS_BY_WORKSPACE: &'static str = "idx_collections_by_workspace";
/// Index: collection id to the ids of its requests.
pub const REQUESTS_BY_COLLECTION: &'static str = "idx_requests_by_collection";
/// Index: workspace id to the ids of its requests.
pub const REQUESTS_BY_WORKSPACE: &'static str = "idx_requests_by_workspace";
/// Index: scope key to the ids of the variables of that scope.
pub const VARIABLES_BY_SCOPE: &'static str = "idx_variables_by_scope";
/// Index: sync group id to the ids of its member workspaces.
pub const WORKSPACES_BY_SYNC_GROUP: &'static str = "idx_workspaces_by_sync_group";

/// What a write transaction holds in the named table: key to stored text.
pub uninterp spec fn write_table(t: redb::WriteTransaction, name: Seq<char>) -> Map<Seq<char>, Seq<char>>;

/// The tables other than those named in `changed` are the same in `a` and `b`.
pub open spec fn same_except(a: redb::WriteTransaction, b: redb::WriteTransaction, changed: Set<Seq<char>>) -> bool {
    forall|n: Seq<char>| !changed.contains(n) ==> #[trigger] write_table(a, n) == write_table(b, n)
}

/// What a read transaction's snapshot holds in the named table: key to stored text.
pub uninterp spec fn read_table(t: redb::ReadTransaction, name: Seq<char>) -> Map<Seq<char>, Seq<char>>;

/// Relies on redb::Database::create: creates the file, or opens an existing one.
#[verifier::external_body]
pub(crate) fn create_engine(path: &str) -> (r: Result<RedbDatabase, redb::DatabaseError>) {
    RedbDatabase::create(path)
}

/// Relies on redb::Database::begin_write.
#[verifier::external_body]
pub(crate) fn begin_write(db: &RedbDatabase) -> (r: Result<redb::WriteTransaction, redb::TransactionError>) {
    db.begin_write()
}

/// Relies on redb::ReadableDatabase::begin_read.
#[verifier::external_body]
pub(crate) fn begin_read(db: &RedbDatabase) -> (r: Result<redb::ReadTransaction, redb::TransactionError>) {
    redb::ReadableDatabase::begin_read(db)
}

/// Relies on redb::WriteTransaction::commit.
#[verifier::external_body]
pub(crate) fn commit(txn: redb::WriteTransaction) -> (r: Result<(), redb::CommitError>) {
    txn.commit()
}

/// Relies on redb::WriteTransaction::open_table (the name must not be empty,
/// as redb::TableDefinition::new asserts), which creates a missing table
/// and leaves the contents of every table as they were.
#[verifier::external_body]
pub(crate) fn ensure_table(txn: &mut redb::WriteTransaction, table: &str) -> (r: Result<(), redb::Error>)
    requires
        table@.len() > 0,
    ensures
        r is Ok ==> forall|n: Seq<char>| #[trigger] write_table(*final(txn), n) == write_table(*old(txn), n),
{
    txn.open_table(redb::TableDefinition::<&str, &str>::new(table))?;
    Ok(())
}

/// Relies on redb::WriteTransaction::open_table and redb::ReadableTable::get: a
/// write transaction sees its own writes; `None` when the key is absent.
#[verifier::external_body]
pub(crate) fn write_fetch(txn: &redb::WriteTransaction, table: &str, key: &str) -> (r: Result<Option<String>, redb::Error>)
    requires
        table@.len() > 0,
    ensures
        r matches Ok(o) ==> o.deep_view() == write_table(*txn, table@).get(key@),
{
    let t = txn.open_table(redb::TableDefinition::<&str, &str>::new(table))?;
    let v = redb::ReadableTable::get(&t, key)?;
    Ok(v.map(|g| g.value().to_string()))
}

/// Relies on redb::ReadTransaction::open_table and redb::ReadableTable::get.
#[verifier::external_body]
pub(crate) fn read_fetch(txn: &redb::ReadTransaction, table: &str, key: &str) -> (r: Result<Option<String>, redb::Error>)
    requires
        table@.len() > 0,
    ensures
        r matches Ok(o) ==> o.deep_view() == read_table(*txn, table@).get(key@),
{
    let t = txn.open_table(redb::TableDefinition::<&str, &str>::new(table))?;
    let v = redb::ReadableTable::get(&t, key)?;
    Ok(v.map(|g| g.value().to_string()))
}

/// `v` lists exactly the entries of `m`.
pub open spec fn lists_entries(v: Seq<(Seq<char>, Seq<char>)>, m: Map<Seq<char>, Seq<char>>) -> bool {
    &&& forall|i: int| 0 <= i < v.len() ==> m.contains_key(#[trigger] v[i].0) && m[v[i].0] == v[i].1
    &&& forall|k: Seq<char>| #[trigger] m.contains_key(k) ==> exists|i: int| 0 <= i < v.len() && v[i].0 == k
}

/// Relies on redb::ReadTransaction::open_table and redb::ReadableTable::iter,
/// which yields every entry of the table.
#[verifier::external_body]
pub(crate) fn read_entries(txn: &redb::ReadTransaction, table: &str) -> (r: Result<Vec<(String, String)>, redb::Error>)
    requires
        table@.len() > 0,
    ensures
        r matches Ok(v) ==> lists_entries(v.deep_view(), read_table(*txn, table@)),
{
    let t = txn.open_table(redb::TableDefinition::<&str, &str>::new(table))?;
    let entries = redb::ReadableTable::iter(&t)?;
    entries.map(|e| e.map(|(k, v)| (k.value().to_string(), v.value().to_string()))).collect::<Result<Vec<_>, _>>().map_err(redb::Error::from)
}

/// Relies on redb::Table::insert: the key maps to the value afterwards, any
/// earlier value is replaced, and no other entry of any table changes.
#[verifier::external_body]
pub(crate) fn write_insert(txn: &mut redb::WriteTransaction, table: &str, key: &str, value: &str) -> (r: Result<(), redb::Error>)
    requires
        table@.len() > 0,
    ensures
        r is Ok ==> forall|n: Seq<char>| #[trigger] write_table(*final(txn), n) == if n == table@ {
            write_table(*old(txn), n).insert(key@, value@)
        } else {
            write_table(*old(txn), n)
        },
{
    let mut t = txn.open_table(redb::TableDefinition::<&str, &str>::new(table))?;
    t.insert(key, value)?;
    Ok(())
}

/// Relies on redb::Table::remove: the key is absent afterwards, and no other
/// entry of any table changes.
#[verifier::external_body]
pub(crate) fn write_remove(txn: &mut redb::WriteTransaction, table: &str, key: &str) -> (r: Result<(), redb::Error>)
    requires
        table@.len() > 0,
    ensures
        r is Ok ==> forall|n: Seq<char>| #[trigger] write_table(*final(txn), n) == if n == table@ {
            write_table(*old(txn), n).remove(key@)
        } else {
            write_table(*old(txn), n)
        },
{
    let mut t = txn.open_table(redb::TableDefinition::<&str, &str>::new(table))?;
    t.remove(key)?;
    Ok(())
}

/// A consistent view of the tables: a read transaction's snapshot, or a write
/// transaction together with its own uncommitted writes.
pub enum Snapshot<'a> {
    Read(&'a redb::ReadTransaction),
    Write(&'a redb::WriteTransaction),
}

impl<'a> Snapshot<'a> {
    pub open spec fn table(&self, name: Seq<char>) -> Map<Seq<char>, Seq<char>> {
        match self {
            Snapshot::Read(t) => read_table(**t, name),
            Snapshot::Write(t) => write_table(**t, name),
        }
    }

    /// The text stored under `key` in `table`, `None` when absent.
    pub fn fetch(&self, table: &str, key: &str) -> (r: Result<Option<String>, DbError>)
        requires
            table@.len() > 0,
        ensures
            r matches Ok(o) ==> o.deep_view() == self.table(table@).get(key@),
            r matches Err(e) ==> e is Storage,
    {
        let res = match self {
            Snapshot::Read(t) => read_fetch(t, table, key),
            Snapshot::Write(t) => write_fetch(t, table, key),
        };
        match res {
            Ok(o) => Ok(o),
            Err(e) => Err(DbError::Storage(e)),
        }
    }
}

/// The table names are non-empty and pairwise distinct.
pub proof fn lemma_table_names_distinct()
    ensures
        WORKSPACES@.len() > 0,
        WORKSPACE_SYNC_GROUPS@.len() > 0,
        COLLECTIONS@.len() > 0,
        REQUESTS@.len() > 0,
        VARIABLES@.len() > 0,
        APP_SETTINGS@.len() > 0,
        COLLECTIONS_BY_WORKSPACE@.len() > 0,
        REQUESTS_BY_COLLECTION@.len() > 0,
        REQUESTS_BY_WORKSPACE@.len() > 0,
        VARIABLES_BY_SCOPE@.len() > 0,
        WORKSPACES_BY_SYNC_GROUP@.len() > 0,
        WORKSPACES@ != WORKSPACE_SYNC_GROUPS@,
        WORKSPACES@ != COLLECTIONS@,
        WORKSPACES@ != REQUESTS@,
        WORKSPACES@ != VARIABLES@,
        WORKSPACES@ != APP_SETTINGS@,
        WORKSPACES@ != COLLECTIONS_BY_WORKSPACE@,
        WORKSPACES@ != REQUESTS_BY_COLLECTION@,
        WORKSPACES@ != REQUESTS_BY_WORKSPACE@,
        WORKSPACES@ != VARIABLES_BY_SCOPE@,
        WORKSPACES@ != WORKSPACES_BY_SYNC_GROUP@,
        WORKSPACE_SYNC_GROUPS@ != COLLECTIONS@,
        WORKSPACE_SYNC_GROUPS@ != REQUESTS@,
        WORKSPACE_SYNC_GROUPS@ != VARIABLES@,
        WORKSPACE_SYNC_GROUPS@ != APP_SETTINGS@,
        WORKSPACE_SYNC_GROUPS@ != COLLECTIONS_BY_WORKSPACE@,
        WORKSPACE_SYNC_GROUPS@ != REQUESTS_BY_COLLECTION@,
        WORKSPACE_SYNC_GROUPS@ != REQUESTS_BY_WORKSPACE@,
        WORKSPACE_SYNC_GROUPS@ != VARIABLES_BY_SCOPE@,
        WORKSPACE_SYNC_GROUPS@ != WORKSPACES_BY_SYNC_GROUP@,
        COLLECTIONS@ != REQUESTS@,
        COLLECTIONS@ != VARIABLES@,
        COLLECTIONS@ != APP_SETTINGS@,
        COLLECTIONS@ != COLLECTIONS_BY_WORKSPACE@,
        COLLECTIONS@ != REQUESTS_BY_COLLECTION@,
        COLLECTIONS@ != REQUESTS_BY_WORKSPACE@,
        COLLECTIONS@ != VARIABLES_BY_SCOPE@,
        COLLECTIONS@ != WORKSPACES_BY_SYNC_GROUP@,
        REQUESTS@ != VARIABLES@,
        REQUESTS@ != APP_SETTINGS@,
        REQUESTS@ != COLLECTIONS_BY_WORKSPACE@,
        REQUESTS@ != REQUESTS_BY_COLLECTION@,
        REQUESTS@ != REQUESTS_BY_WORKSPACE@,
        REQUESTS@ != VARIABLES_BY_SCOPE@,
        REQUESTS@ != WORKSPACES_BY_SYNC_GROUP@,
        VARIABLES@ != APP_SETTINGS@,
        VARIABLES@ != COLLECTIONS_BY_WORKSPACE@,
        VARIABLES@ != REQUESTS_BY_COLLECTION@,
        VARIABLES@ != REQUESTS_BY_WORKSPACE@,
        VARIABLES@ != VARIABLES_BY_SCOPE@,
        VARIABLES@ != WORKSPACES_BY_SYNC_GROUP@,
        APP_SETTINGS@ != COLLECTIONS_BY_WORKSPACE@,
        APP_SETTINGS@ != REQUESTS_BY_COLLECTION@,
        APP_SETTINGS@ != REQUESTS_BY_WORKSPACE@,
        APP_SETTINGS@ != VARIABLES_BY_SCOPE@,
        APP_SETTINGS@ != WORKSPACES_BY_SYNC_GROUP@,
        COLLECTIONS_BY_WORKSPACE@ != REQUESTS_BY_COLLECTION@,
        COLLECTIONS_BY_WORKSPACE@ != REQUESTS_BY_WORKSPACE@,
        COLLECTIONS_BY_WORKSPACE@ != VARIABLES_BY_SCOPE@,
        COLLECTIONS_BY_WORKSPACE@ != WORKSPACES_BY_SYNC_GROUP@,
        REQUESTS_BY_COLLECTION@ != REQUESTS_BY_WORKSPACE@,
        REQUESTS_BY_COLLECTION@ != VARIABLES_BY_SCOPE@,
        REQUESTS_BY_COLLECTION@ != WORKSPACES_BY_SYNC_GROUP@,
        REQUESTS_BY_WORKSPACE@ != VARIABLES_BY_SCOPE@,
        REQUESTS_BY_WORKSPACE@ != WORKSPACES_BY_SYNC_GROUP@,
        VARIABLES_BY_SCOPE@ != WORKSPACES_BY_SYNC_GROUP@,
{
    reveal_strlit("workspaces");
    reveal_strlit("workspace_sync_groups");
    reveal_strlit("collections");
    reveal_strlit("requests");
    reveal_strlit("variables");
    reveal_strlit("app_settings");
    reveal_strlit("idx_collections_by_workspace");
    reveal_strlit("idx_requests_by_collection");
    reveal_strlit("idx_requests_by_workspace");
    reveal_strlit("idx_variables_by_scope");
    reveal_strlit("idx_workspaces_by_sync_group");
    assert(COLLECTIONS_BY_WORKSPACE@[4] != WORKSPACES_BY_SYNC_GROUP@[4]);
}

} // verus!
