//! Collections: named groups of requests inside one workspace.
use vstd::prelude::*;

use crate::codec::{collection_parse, decode_collection, encode_collection, new_id, now_millis};
use crate::db::Database;
use crate::document::{
    delete_doc, docs_view, get_doc, list_docs, list_readable, live_docs, malformed_at, or_keep, put_doc,
    scan_docs, Document,
};
use crate::engine::{
    lemma_table_names_distinct, same_except, write_table, Snapshot, COLLECTIONS, COLLECTIONS_BY_WORKSPACE,
    REQUESTS_BY_COLLECTION,
};
use crate::error::DbResult;
use crate::index::{add_to_index, drop_index_entry, ids_under, index_add, index_remove, index_view, load_ids, remove_from_index};
use crate::order::{sorted_by_name, views, Named};

verus! {

#[derive(Debug)]
pub struct Collection {
    pub id: String,
    pub name: String,
    pub description: String,
    pub workspace_id: String,
    /// Milliseconds since the Unix epoch.
    pub created_at: i64,
    /// Milliseconds since the Unix epoch.
    pub updated_at: i64,
}

pub struct CollectionView {
    pub id: Seq<char>,
    pub name: Seq<char>,
    pub description: Seq<char>,
    pub workspace_id: Seq<char>,
    pub created_at: i64,
    pub updated_at: i64,
}

impl View for Collection {
    type V = CollectionView;

    open spec fn view(&self) -> CollectionView {
        CollectionView {
            id: self.id@,
            name: self.name@,
            description: self.description@,
            workspace_id: self.workspace_id@,
            created_at: self.created_at,
            updated_at: self.updated_at,
        }
    }
}

impl Named for Collection {
    open spec fn name_view(&self) -> Seq<char> {
        self.name@
    }

    fn name_str(&self) -> (r: &str) {
        self.name.as_str()
    }
}

impl Document for Collection {
    open spec fn parse(s: Seq<char>) -> Option<CollectionView> {
        collection_parse(s)
    }

    fn encode(&self) -> (r: Result<String, String>) {
        encode_collection(self)
    }

    fn decode(s: &str) -> (r: Result<Collection, String>) {
        decode_collection(s)
    }
}

pub struct CreateCollectionInput {
    pub name: String,
    pub description: String,
    pub workspace_id: String,
}

pub struct UpdateCollectionInput {
    pub id: String,
    pub name: Option<String>,
    pub description: Option<String>,
}

/// The collections of a write transaction.
pub open spec fn collections_of(t: redb::WriteTransaction) -> Map<Seq<char>, Option<CollectionView>> {
    docs_view::<Collection>(write_table(t, COLLECTIONS@))
}

/// The collection-by-workspace index of a write transaction.
pub open spec fn collection_index_of(t: redb::WriteTransaction) -> Map<Seq<char>, Option<Seq<Seq<char>>>> {
    index_view(write_table(t, COLLECTIONS_BY_WORKSPACE@))
}

/// A new collection made from `input`.
pub open spec fn new_collection(id: Seq<char>, input: CreateCollectionInput, now: i64) -> CollectionView {
    CollectionView {
        id,
        name: input.name@,
        description: input.description@,
        workspace_id: input.workspace_id@,
        created_at: now,
        updated_at: now,
    }
}

/// `c` with the fields that `input` supplies.
pub open spec fn updated_collection(c: CollectionView, input: UpdateCollectionInput, now: i64) -> CollectionView {
    CollectionView {
        id: input.id@,
        name: or_keep(input.name.deep_view(), c.name),
        description: or_keep(input.description.deep_view(), c.description),
        updated_at: now,
        ..c
    }
}

/// Reads the collection stored under `id`.
pub fn get_collection_in(snap: &Snapshot, id: &str) -> (r: DbResult<Collection>)
    ensures
        r matches Ok(c) ==> docs_view::<Collection>(snap.table(COLLECTIONS@)).contains_key(id@)
            && docs_view::<Collection>(snap.table(COLLECTIONS@))[id@] == Some(c@),
        r matches Err(e) ==> e is Storage
            || (e is NotFound && !docs_view::<Collection>(snap.table(COLLECTIONS@)).contains_key(id@))
            || (e is Serialization && docs_view::<Collection>(snap.table(COLLECTIONS@)).contains_key(id@)
                && docs_view::<Collection>(snap.table(COLLECTIONS@))[id@] is None),
{
    proof { lemma_table_names_distinct(); }
    get_doc::<Collection>(snap, COLLECTIONS, id)
}

/// The collections that the index lists under `workspace_id`, in order of
/// their names; ids without a collection are skipped.
pub fn get_collections_by_workspace_in(snap: &Snapshot, workspace_id: &str) -> (r: DbResult<Vec<Collection>>)
    ensures
        r matches Ok(v) ==> list_readable::<Collection>(docs_view::<Collection>(snap.table(COLLECTIONS@)), index_view(snap.table(COLLECTIONS_BY_WORKSPACE@)), workspace_id@)
            && sorted_by_name(v@)
            && views(v@).to_multiset() == live_docs::<Collection>(
                docs_view::<Collection>(snap.table(COLLECTIONS@)),
                ids_under(index_view(snap.table(COLLECTIONS_BY_WORKSPACE@)), workspace_id@)->Some_0,
            ).to_multiset(),
        r matches Err(e) ==> e is Storage || (e is Serialization
            && !list_readable::<Collection>(docs_view::<Collection>(snap.table(COLLECTIONS@)), index_view(snap.table(COLLECTIONS_BY_WORKSPACE@)), workspace_id@)),
{
    proof { lemma_table_names_distinct(); }
    let ids = load_ids(snap, COLLECTIONS_BY_WORKSPACE, workspace_id)?;
    list_docs::<Collection>(snap, COLLECTIONS, &ids)
}

/// Stores a new collection made from `input` under `id` and lists it under
/// its workspace.
pub fn create_collection_in(txn: &mut redb::WriteTransaction, input: CreateCollectionInput, id: &str, now: i64) -> (r: DbResult<Collection>)
    ensures
        r matches Ok(c) ==> c@ == new_collection(id@, input, now)
            && collections_of(*final(txn)) == collections_of(*old(txn)).insert(id@, Some(c@))
            && collection_index_of(*final(txn)) == index_add(collection_index_of(*old(txn)), input.workspace_id@, id@)
            && same_except(*final(txn), *old(txn), set![COLLECTIONS@, COLLECTIONS_BY_WORKSPACE@]),
        r matches Err(e) ==> e is Storage
            || (e is Serialization && ids_under(collection_index_of(*old(txn)), input.workspace_id@) is None),
{
    proof { lemma_table_names_distinct(); }
    let c = Collection {
        id: id.to_owned(),
        name: input.name,
        description: input.description,
        workspace_id: input.workspace_id,
        created_at: now,
        updated_at: now,
    };
    put_doc(txn, COLLECTIONS, id, &c)?;
    add_to_index(txn, COLLECTIONS_BY_WORKSPACE, c.workspace_id.as_str(), id)?;
    Ok(c)
}

/// Applies the fields that `input` supplies to the collection it names.
pub fn update_collection_in(txn: &mut redb::WriteTransaction, input: UpdateCollectionInput, now: i64) -> (r: DbResult<Collection>)
    ensures
        r matches Ok(c) ==> collections_of(*old(txn)).contains_key(input.id@)
            && collections_of(*old(txn))[input.id@] is Some
            && c@ == updated_collection(collections_of(*old(txn))[input.id@]->Some_0, input, now)
            && collections_of(*final(txn)) == collections_of(*old(txn)).insert(input.id@, Some(c@))
            && same_except(*final(txn), *old(txn), set![COLLECTIONS@]),
        r matches Err(e) ==> e is Storage
            || (e is NotFound && !collections_of(*old(txn)).contains_key(input.id@))
            || (e is Serialization && malformed_at(collections_of(*old(txn)), input.id@)),
{
    proof { lemma_table_names_distinct(); }
    let mut c = get_collection_in(&Snapshot::Write(&*txn), input.id.as_str())?;
    c.id = input.id.clone();
    if let Some(name) = input.name {
        c.name = name;
    }
    if let Some(description) = input.description {
        c.description = description;
    }
    c.updated_at = now;
    put_doc(txn, COLLECTIONS, input.id.as_str(), &c)?;
    Ok(c)
}

/// Deletes the collection stored under `id`, takes it out of its workspace's
/// list, and drops the request index kept under it.
pub fn delete_collection_in(txn: &mut redb::WriteTransaction, id: &str) -> (r: DbResult<()>)
    ensures
        r is Ok ==> collections_of(*old(txn)).contains_key(id@) && collections_of(*old(txn))[id@] is Some,
        r is Ok ==> collections_of(*final(txn)) == collections_of(*old(txn)).remove(id@),
        r is Ok ==> collection_index_of(*final(txn)) == index_remove(collection_index_of(*old(txn)), collections_of(*old(txn))[id@]->Some_0.workspace_id, id@),
        r is Ok ==> index_view(write_table(*final(txn), REQUESTS_BY_COLLECTION@)) == index_view(write_table(*old(txn), REQUESTS_BY_COLLECTION@)).remove(id@),
        r is Ok ==> same_except(*final(txn), *old(txn), set![COLLECTIONS@, COLLECTIONS_BY_WORKSPACE@, REQUESTS_BY_COLLECTION@]),
        r matches Err(e) ==> e is Storage
            || (e is NotFound && !collections_of(*old(txn)).contains_key(id@))
            || (e is Serialization && (malformed_at(collections_of(*old(txn)), id@)
                || ids_under(collection_index_of(*old(txn)), collections_of(*old(txn))[id@]->Some_0.workspace_id) is None)),
{
    proof { lemma_table_names_distinct(); }
    let c = get_collection_in(&Snapshot::Write(&*txn), id)?;
    delete_doc::<Collection>(txn, COLLECTIONS, id)?;
    remove_from_index(txn, COLLECTIONS_BY_WORKSPACE, c.workspace_id.as_str(), id)?;
    drop_index_entry(txn, REQUESTS_BY_COLLECTION, id)?;
    Ok(())
}

/// Collection operations, each in a transaction of its own.
pub struct CollectionService {
    db: Database,
}

impl CollectionService {
    pub fn new(db: Database) -> (r: CollectionService) {
        CollectionService { db }
    }

    /// Every collection, in order of their names.
    pub fn get_all(&self) -> (r: DbResult<Vec<Collection>>) {
        proof { lemma_table_names_distinct(); }
        let txn = self.db.begin_read()?;
        scan_docs::<Collection>(&txn, COLLECTIONS)
    }

    pub fn get(&self, id: &str) -> (r: DbResult<Collection>) {
        let txn = self.db.begin_read()?;
        get_collection_in(&Snapshot::Read(&txn), id)
    }

    pub fn get_by_workspace(&self, workspace_id: &str) -> (r: DbResult<Vec<Collection>>) {
        let txn = self.db.begin_read()?;
        get_collections_by_workspace_in(&Snapshot::Read(&txn), workspace_id)
    }

    pub fn create(&self, input: CreateCollectionInput) -> (r: DbResult<Collection>)
        ensures
            r matches Ok(c) ==> c.name@ == input.name@ && c.description@ == input.description@
                && c.workspace_id@ == input.workspace_id@ && c.created_at == c.updated_at,
    {
        let id = new_id();
        let now = now_millis();
        let mut txn = self.db.begin_write()?;
        let c = create_collection_in(&mut txn, input, id.as_str(), now)?;
        crate::db::Database::commit(txn)?;
        Ok(c)
    }

    pub fn update(&self, input: UpdateCollectionInput) -> (r: DbResult<Collection>)
        ensures
            r matches Ok(c) ==> c.id@ == input.id@
                && exists|prev: CollectionView| c@ == #[trigger] updated_collection(prev, input, c.updated_at),
    {
        let ghost given = input;
        let now = now_millis();
        let mut txn = self.db.begin_write()?;
        let ghost before = collections_of(txn);
        let c = update_collection_in(&mut txn, input, now)?;
        assert(c@ == updated_collection(before[given.id@]->Some_0, given, c.updated_at));
        crate::db::Database::commit(txn)?;
        Ok(c)
    }

    pub fn delete(&self, id: &str) -> (r: DbResult<()>)
        ensures
            r matches Err(e) ==> !(e is Database),
    {
        let mut txn = self.db.begin_write()?;
        delete_collection_in(&mut txn, id)?;
        crate::db::Database::commit(txn)
    }
}

} // verus!
