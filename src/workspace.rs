//! Workspaces and the sync groups that link them.
use vstd::prelude::*;

use crate::codec::{
    decode_sync_group, decode_workspace, encode_sync_group, encode_workspace, now_millis, new_id,
    sync_group_parse, workspace_parse,
};
use crate::db::Database;
use crate::document::{
    all_readable, delete_doc, docs_view, get_doc, list_docs, list_readable, live_docs, malformed_at, or_keep,
    put_doc, scan_docs, Document,
};
use crate::engine::{
    lemma_table_names_distinct, same_except, write_table, Snapshot, COLLECTIONS_BY_WORKSPACE,
    REQUESTS_BY_WORKSPACE, WORKSPACES, WORKSPACES_BY_SYNC_GROUP, WORKSPACE_SYNC_GROUPS,
};
use crate::error::{DbError, DbResult};
use crate::index::{
    add_id, add_to_index, drop_index_entry, ids_under, index_add, index_remove, index_view,
    load_ids, remove_from_index, remove_id, store_ids, without_id,
};
use crate::order::{sorted_by_name, views, Named};

verus! {

#[derive(Debug)]
pub struct Workspace {
    pub id: String,
    pub name: String,
    pub description: String,
    pub tags: Vec<String>,
    pub sync_group_id: Option<String>,
    /// Milliseconds since the Unix epoch.
    pub created_at: i64,
    /// Milliseconds since the Unix epoch.
    pub updated_at: i64,
}

pub struct WorkspaceView {
    pub id: Seq<char>,
    pub name: Seq<char>,
    pub description: Seq<char>,
    pub tags: Seq<Seq<char>>,
    pub sync_group_id: Option<Seq<char>>,
    pub created_at: i64,
    pub updated_at: i64,
}

impl View for Workspace {
    type V = WorkspaceView;

    open spec fn view(&self) -> WorkspaceView {
        WorkspaceView {
            id: self.id@,
            name: self.name@,
            description: self.description@,
            tags: self.tags.deep_view(),
            sync_group_id: self.sync_group_id.deep_view(),
            created_at: self.created_at,
            updated_at: self.updated_at,
        }
    }
}

impl Named for Workspace {
    open spec fn name_view(&self) -> Seq<char> {
        self.name@
    }

    fn name_str(&self) -> (r: &str) {
        self.name.as_str()
    }
}

impl Document for Workspace {
    open spec fn parse(s: Seq<char>) -> Option<WorkspaceView> {
        workspace_parse(s)
    }

    fn encode(&self) -> (r: Result<String, String>) {
        encode_workspace(self)
    }

    fn decode(s: &str) -> (r: Result<Workspace, String>) {
        decode_workspace(s)
    }
}

pub struct CreateWorkspaceInput {
    pub name: String,
    pub description: String,
    pub tags: Vec<String>,
}

pub struct UpdateWorkspaceInput {
    pub id: String,
    pub name: Option<String>,
    pub description: Option<String>,
    pub tags: Option<Vec<String>>,
    pub sync_group_id: Option<String>,
}

#[derive(Debug)]
pub struct WorkspaceSyncGroup {
    pub id: String,
    pub name: String,
    pub workspace_ids: Vec<String>,
    pub synced_variable_names: Vec<String>,
    pub sync_secrets: bool,
    /// Milliseconds since the Unix epoch.
    pub created_at: i64,
    /// Milliseconds since the Unix epoch.
    pub updated_at: i64,
}

pub struct SyncGroupView {
    pub id: Seq<char>,
    pub name: Seq<char>,
    pub workspace_ids: Seq<Seq<char>>,
    pub synced_variable_names: Seq<Seq<char>>,
    pub sync_secrets: bool,
    pub created_at: i64,
    pub updated_at: i64,
}

impl View for WorkspaceSyncGroup {
    type V = SyncGroupView;

    open spec fn view(&self) -> SyncGroupView {
        SyncGroupView {
            id: self.id@,
            name: self.name@,
            workspace_ids: self.workspace_ids.deep_view(),
            synced_variable_names: self.synced_variable_names.deep_view(),
            sync_secrets: self.sync_secrets,
            created_at: self.created_at,
            updated_at: self.updated_at,
        }
    }
}

impl Named for WorkspaceSyncGroup {
    open spec fn name_view(&self) -> Seq<char> {
        self.name@
    }

    fn name_str(&self) -> (r: &str) {
        self.name.as_str()
    }
}

impl Document for WorkspaceSyncGroup {
    open spec fn parse(s: Seq<char>) -> Option<SyncGroupView> {
        sync_group_parse(s)
    }

    fn encode(&self) -> (r: Result<String, String>) {
        encode_sync_group(self)
    }

    fn decode(s: &str) -> (r: Result<WorkspaceSyncGroup, String>) {
        decode_sync_group(s)
    }
}

pub struct CreateSyncGroupInput {
    pub name: String,
    pub workspace_ids: Vec<String>,
    pub synced_variable_names: Vec<String>,
    pub sync_secrets: bool,
}

pub struct UpdateSyncGroupInput {
    pub id: String,
    pub name: Option<String>,
    pub synced_variable_names: Option<Vec<String>>,
    pub sync_secrets: Option<bool>,
}

/// The workspaces of a write transaction.
pub open spec fn workspaces_of(t: redb::WriteTransaction) -> Map<Seq<char>, Option<WorkspaceView>> {
    docs_view::<Workspace>(write_table(t, WORKSPACES@))
}

/// The sync groups of a write transaction.
pub open spec fn groups_of(t: redb::WriteTransaction) -> Map<Seq<char>, Option<SyncGroupView>> {
    docs_view::<WorkspaceSyncGroup>(write_table(t, WORKSPACE_SYNC_GROUPS@))
}

/// The workspace-by-sync-group index of a write transaction.
pub open spec fn sync_index_of(t: redb::WriteTransaction) -> Map<Seq<char>, Option<Seq<Seq<char>>>> {
    index_view(write_table(t, WORKSPACES_BY_SYNC_GROUP@))
}

/// A new workspace made from `input`.
pub open spec fn new_workspace(id: Seq<char>, input: CreateWorkspaceInput, now: i64) -> WorkspaceView {
    WorkspaceView {
        id,
        name: input.name@,
        description: input.description@,
        tags: input.tags.deep_view(),
        sync_group_id: None,
        created_at: now,
        updated_at: now,
    }
}

/// `w` with the fields that `input` supplies.
pub open spec fn updated_workspace(w: WorkspaceView, input: UpdateWorkspaceInput, now: i64) -> WorkspaceView {
    WorkspaceView {
        id: input.id@,
        name: or_keep(input.name.deep_view(), w.name),
        description: or_keep(input.description.deep_view(), w.description),
        tags: or_keep(input.tags.deep_view(), w.tags),
        sync_group_id: if input.sync_group_id is Some {
            input.sync_group_id.deep_view()
        } else {
            w.sync_group_id
        },
        updated_at: now,
        ..w
    }
}

/// `w` linked to group `g` (or unlinked, for `None`) at time `now`.
pub open spec fn relinked(w: WorkspaceView, g: Option<Seq<char>>, now: i64) -> WorkspaceView {
    WorkspaceView { sync_group_id: g, updated_at: now, ..w }
}

/// The workspaces after the one stored under `k`, if any, is relinked.
pub open spec fn relink_one(ws: Map<Seq<char>, Option<WorkspaceView>>, k: Seq<char>, g: Option<Seq<char>>, now: i64) -> Map<Seq<char>, Option<WorkspaceView>> {
    if ws.contains_key(k) && ws[k] is Some {
        ws.insert(k, Some(relinked(ws[k]->Some_0, g, now)))
    } else {
        ws
    }
}

/// The workspaces after each stored one among `ids` is relinked.
pub open spec fn relink_all(ws: Map<Seq<char>, Option<WorkspaceView>>, ids: Seq<Seq<char>>, g: Option<Seq<char>>, now: i64) -> Map<Seq<char>, Option<WorkspaceView>>
    decreases ids.len(),
{
    if ids.len() == 0 {
        ws
    } else {
        relink_one(relink_all(ws, ids.drop_last(), g, now), ids.last(), g, now)
    }
}

/// Relinking the workspaces among `ids` changes exactly the well-formed ones
/// among them, each to the same relinked value.
pub proof fn lemma_relink_all_at(ws: Map<Seq<char>, Option<WorkspaceView>>, ids: Seq<Seq<char>>, g: Option<Seq<char>>, now: i64, k: Seq<char>)
    ensures
        relink_all(ws, ids, g, now).contains_key(k) == ws.contains_key(k),
        ws.contains_key(k) ==> relink_all(ws, ids, g, now)[k] == if ids.contains(k) && ws[k] is Some {
            Some(relinked(ws[k]->Some_0, g, now))
        } else {
            ws[k]
        },
    decreases ids.len(),
{
    if ids.len() > 0 {
        lemma_relink_all_at(ws, ids.drop_last(), g, now, k);
        assert(ids.contains(k) <==> (ids.drop_last().contains(k) || ids.last() == k)) by {
            if ids.contains(k) {
                let j = choose|j: int| 0 <= j < ids.len() && ids[j] == k;
                if j < ids.len() - 1 {
                    assert(ids.drop_last()[j] == k);
                }
            }
            if ids.drop_last().contains(k) {
                let j = choose|j: int| 0 <= j < ids.drop_last().len() && ids.drop_last()[j] == k;
                assert(ids[j] == k);
            }
            if ids.last() == k {
                assert(ids[ids.len() - 1] == k);
            }
        }
    }
}

/// The text of an optional id, as a value.
pub open spec fn opt_view(o: Option<&str>) -> Option<Seq<char>> {
    match o {
        Some(s) => Some(s@),
        None => None,
    }
}

/// A new sync group made from `input`.
pub open spec fn new_group(id: Seq<char>, input: CreateSyncGroupInput, now: i64) -> SyncGroupView {
    SyncGroupView {
        id,
        name: input.name@,
        workspace_ids: input.workspace_ids.deep_view(),
        synced_variable_names: input.synced_variable_names.deep_view(),
        sync_secrets: input.sync_secrets,
        created_at: now,
        updated_at: now,
    }
}

/// `g` with the fields that `input` supplies.
pub open spec fn updated_group(g: SyncGroupView, input: UpdateSyncGroupInput, now: i64) -> SyncGroupView {
    SyncGroupView {
        id: input.id@,
        name: or_keep(input.name.deep_view(), g.name),
        synced_variable_names: or_keep(input.synced_variable_names.deep_view(), g.synced_variable_names),
        sync_secrets: or_keep(input.sync_secrets, g.sync_secrets),
        updated_at: now,
        ..g
    }
}

/// `g` with workspace `w` among its members; touched only where `w` is new.
pub open spec fn joined(g: SyncGroupView, w: Seq<char>, now: i64) -> SyncGroupView {
    if g.workspace_ids.contains(w) {
        g
    } else {
        SyncGroupView { workspace_ids: g.workspace_ids.push(w), updated_at: now, ..g }
    }
}

/// `g` without workspace `w` among its members.
pub open spec fn left(g: SyncGroupView, w: Seq<char>, now: i64) -> SyncGroupView {
    SyncGroupView { workspace_ids: without_id(g.workspace_ids, w), updated_at: now, ..g }
}

/// The sync groups after workspace `w` leaves group `g`, where `g` is stored.
pub open spec fn group_left(groups: Map<Seq<char>, Option<SyncGroupView>>, g: Seq<char>, w: Seq<char>, now: i64) -> Map<Seq<char>, Option<SyncGroupView>> {
    if groups.contains_key(g) && groups[g] is Some {
        groups.insert(g, Some(left(groups[g]->Some_0, w, now)))
    } else {
        groups
    }
}

/// The group that workspace `w` belongs to other than `g`, if any.
pub open spec fn other_group(w: WorkspaceView, g: Seq<char>) -> Option<Seq<char>> {
    match w.sync_group_id {
        Some(g0) => if g0 != g { Some(g0) } else { None },
        None => None,
    }
}

/// The sync group documents of `groups` that can be read, with `w` out of
/// the one named by `prior`, if any.
pub open spec fn leave_prior(groups: Map<Seq<char>, Option<SyncGroupView>>, prior: Option<Seq<char>>, w: Seq<char>, now: i64) -> Map<Seq<char>, Option<SyncGroupView>> {
    match prior {
        Some(g0) => group_left(groups, g0, w, now),
        None => groups,
    }
}

/// The index with `w` out of the list of `prior`, if any.
pub open spec fn unindex_prior(ix: Map<Seq<char>, Option<Seq<Seq<char>>>>, prior: Option<Seq<char>>, w: Seq<char>) -> Map<Seq<char>, Option<Seq<Seq<char>>>> {
    match prior {
        Some(g0) => index_remove(ix, g0, w),
        None => ix,
    }
}

/// Leaving group `prior` reads a malformed document or list.
pub open spec fn prior_malformed(groups: Map<Seq<char>, Option<SyncGroupView>>, ix: Map<Seq<char>, Option<Seq<Seq<char>>>>, prior: Option<Seq<char>>) -> bool {
    match prior {
        Some(g0) => malformed_at(groups, g0) || ids_under(ix, g0) is None,
        None => false,
    }
}

/// Reads the workspace stored under `id`.
pub fn get_workspace_in(snap: &Snapshot, id: &str) -> (r: DbResult<Workspace>)
    ensures
        r matches Ok(w) ==> docs_view::<Workspace>(snap.table(WORKSPACES@)).contains_key(id@)
            && docs_view::<Workspace>(snap.table(WORKSPACES@))[id@] == Some(w@),
        r matches Err(e) ==> e is Storage
            || (e is NotFound && !docs_view::<Workspace>(snap.table(WORKSPACES@)).contains_key(id@))
            || (e is Serialization && malformed_at(docs_view::<Workspace>(snap.table(WORKSPACES@)), id@)),
{
    proof { lemma_table_names_distinct(); }
    get_doc::<Workspace>(snap, WORKSPACES, id)
}

/// Reads the sync group stored under `id`.
pub fn get_sync_group_in(snap: &Snapshot, id: &str) -> (r: DbResult<WorkspaceSyncGroup>)
    ensures
        r matches Ok(g) ==> docs_view::<WorkspaceSyncGroup>(snap.table(WORKSPACE_SYNC_GROUPS@)).contains_key(id@)
            && docs_view::<WorkspaceSyncGroup>(snap.table(WORKSPACE_SYNC_GROUPS@))[id@] == Some(g@),
        r matches Err(e) ==> e is Storage
            || (e is NotFound && !docs_view::<WorkspaceSyncGroup>(snap.table(WORKSPACE_SYNC_GROUPS@)).contains_key(id@))
            || (e is Serialization && malformed_at(docs_view::<WorkspaceSyncGroup>(snap.table(WORKSPACE_SYNC_GROUPS@)), id@)),
{
    proof { lemma_table_names_distinct(); }
    get_doc::<WorkspaceSyncGroup>(snap, WORKSPACE_SYNC_GROUPS, id)
}

/// Stores a new workspace made from `input` under `id`.
pub fn create_workspace_in(txn: &mut redb::WriteTransaction, input: CreateWorkspaceInput, id: &str, now: i64) -> (r: DbResult<Workspace>)
    ensures
        r matches Ok(w) ==> w@ == new_workspace(id@, input, now)
            && workspaces_of(*final(txn)) == workspaces_of(*old(txn)).insert(id@, Some(w@))
            && same_except(*final(txn), *old(txn), set![WORKSPACES@]),
        r matches Err(e) ==> e is Storage,
{
    proof { lemma_table_names_distinct(); }
    let w = Workspace {
        id: id.to_owned(),
        name: input.name,
        description: input.description,
        tags: input.tags,
        sync_group_id: None,
        created_at: now,
        updated_at: now,
    };
    put_doc(txn, WORKSPACES, id, &w)?;
    Ok(w)
}

/// Applies the fields that `input` supplies to the workspace it names.
pub fn update_workspace_in(txn: &mut redb::WriteTransaction, input: UpdateWorkspaceInput, now: i64) -> (r: DbResult<Workspace>)
    ensures
        r matches Ok(w) ==> workspaces_of(*old(txn)).contains_key(input.id@)
            && workspaces_of(*old(txn))[input.id@] is Some
            && w@ == updated_workspace(workspaces_of(*old(txn))[input.id@]->Some_0, input, now)
            && workspaces_of(*final(txn)) == workspaces_of(*old(txn)).insert(input.id@, Some(w@))
            && same_except(*final(txn), *old(txn), set![WORKSPACES@]),
        r matches Err(e) ==> e is Storage
            || (e is NotFound && !workspaces_of(*old(txn)).contains_key(input.id@))
            || (e is Serialization && malformed_at(workspaces_of(*old(txn)), input.id@)),
{
    proof { lemma_table_names_distinct(); }
    let mut w = get_workspace_in(&Snapshot::Write(&*txn), input.id.as_str())?;
    w.id = input.id.clone();
    if let Some(name) = input.name {
        w.name = name;
    }
    if let Some(description) = input.description {
        w.description = description;
    }
    if let Some(tags) = input.tags {
        w.tags = tags;
    }
    if let Some(group) = input.sync_group_id {
        w.sync_group_id = Some(group);
    }
    w.updated_at = now;
    put_doc(txn, WORKSPACES, input.id.as_str(), &w)?;
    Ok(w)
}

/// Takes workspace `ws_id` out of the member list of group `group_id`, where
/// that group is stored, and out of the group's index list.
fn leave_group(txn: &mut redb::WriteTransaction, group_id: &str, ws_id: &str, now: i64) -> (r: DbResult<()>)
    ensures
        r is Ok ==> groups_of(*final(txn)) == group_left(groups_of(*old(txn)), group_id@, ws_id@, now),
        r is Ok ==> sync_index_of(*final(txn)) == index_remove(sync_index_of(*old(txn)), group_id@, ws_id@),
        r is Ok ==> same_except(*final(txn), *old(txn), set![WORKSPACE_SYNC_GROUPS@, WORKSPACES_BY_SYNC_GROUP@]),
        r matches Err(e) ==> e is Storage
            || (e is Serialization && (malformed_at(groups_of(*old(txn)), group_id@) || ids_under(sync_index_of(*old(txn)), group_id@) is None)),
{
    proof { lemma_table_names_distinct(); }
    match get_sync_group_in(&Snapshot::Write(&*txn), group_id) {
        Ok(mut g) => {
            g.workspace_ids = remove_id(&g.workspace_ids, ws_id);
            g.updated_at = now;
            put_doc(txn, WORKSPACE_SYNC_GROUPS, group_id, &g)?;
        },
        Err(DbError::NotFound(_)) => {},
        Err(e) => return Err(e),
    }
    remove_from_index(txn, WORKSPACES_BY_SYNC_GROUP, group_id, ws_id)
}

/// Deletes the workspace stored under `id`, takes it out of its sync group's
/// member list and index, and drops the collection and request indexes kept
/// under it.
pub fn delete_workspace_in(txn: &mut redb::WriteTransaction, id: &str, now: i64) -> (r: DbResult<()>)
    ensures
        r is Ok ==> workspaces_of(*old(txn)).contains_key(id@) && workspaces_of(*old(txn))[id@] is Some,
        r is Ok ==> workspaces_of(*final(txn)) == workspaces_of(*old(txn)).remove(id@),
        r is Ok ==> groups_of(*final(txn)) == leave_prior(groups_of(*old(txn)), workspaces_of(*old(txn))[id@]->Some_0.sync_group_id, id@, now),
        r is Ok ==> sync_index_of(*final(txn)) == unindex_prior(sync_index_of(*old(txn)), workspaces_of(*old(txn))[id@]->Some_0.sync_group_id, id@),
        r is Ok ==> index_view(write_table(*final(txn), COLLECTIONS_BY_WORKSPACE@)) == index_view(write_table(*old(txn), COLLECTIONS_BY_WORKSPACE@)).remove(id@),
        r is Ok ==> index_view(write_table(*final(txn), REQUESTS_BY_WORKSPACE@)) == index_view(write_table(*old(txn), REQUESTS_BY_WORKSPACE@)).remove(id@),
        r is Ok ==> same_except(*final(txn), *old(txn), set![WORKSPACES@, WORKSPACE_SYNC_GROUPS@, WORKSPACES_BY_SYNC_GROUP@, COLLECTIONS_BY_WORKSPACE@, REQUESTS_BY_WORKSPACE@]),
        r matches Err(e) ==> e is Storage
            || (e is NotFound && !workspaces_of(*old(txn)).contains_key(id@))
            || (e is Serialization && (malformed_at(workspaces_of(*old(txn)), id@) || prior_malformed(groups_of(*old(txn)), sync_index_of(*old(txn)), workspaces_of(*old(txn))[id@]->Some_0.sync_group_id))),
{
    proof { lemma_table_names_distinct(); }
    let w = get_workspace_in(&Snapshot::Write(&*txn), id)?;
    delete_doc::<Workspace>(txn, WORKSPACES, id)?;
    if let Some(g) = &w.sync_group_id {
        leave_group(txn, g.as_str(), id, now)?;
    }
    drop_index_entry(txn, COLLECTIONS_BY_WORKSPACE, id)?;
    drop_index_entry(txn, REQUESTS_BY_WORKSPACE, id)?;
    Ok(())
}

/// Sets the sync group of the workspace stored under `ws_id`; an id with no
/// workspace is skipped.
fn relink_workspace(txn: &mut redb::WriteTransaction, ws_id: &str, group: Option<&str>, now: i64) -> (r: DbResult<()>)
    ensures
        r is Ok ==> workspaces_of(*final(txn)) == relink_one(workspaces_of(*old(txn)), ws_id@, opt_view(group), now),
        r is Ok ==> same_except(*final(txn), *old(txn), set![WORKSPACES@]),
        r matches Err(e) ==> e is Storage || (e is Serialization && malformed_at(workspaces_of(*old(txn)), ws_id@)),
{
    proof { lemma_table_names_distinct(); }
    match get_workspace_in(&Snapshot::Write(&*txn), ws_id) {
        Ok(mut w) => {
            w.sync_group_id = match group {
                Some(g) => Some(g.to_owned()),
                None => None,
            };
            w.updated_at = now;
            put_doc(txn, WORKSPACES, ws_id, &w)
        },
        Err(DbError::NotFound(_)) => Ok(()),
        Err(e) => Err(e),
    }
}

/// Sets the sync group of every stored workspace among `ids`.
fn relink_members(txn: &mut redb::WriteTransaction, ids: &Vec<String>, group: Option<&str>, now: i64) -> (r: DbResult<()>)
    ensures
        r is Ok ==> workspaces_of(*final(txn)) == relink_all(workspaces_of(*old(txn)), ids.deep_view(), opt_view(group), now),
        r is Ok ==> same_except(*final(txn), *old(txn), set![WORKSPACES@]),
        r matches Err(e) ==> e is Storage || (e is Serialization && !all_readable::<Workspace>(workspaces_of(*old(txn)), ids.deep_view())),
{
    let ghost idv = ids.deep_view();
    let mut i: usize = 0;
    assert(idv.take(0) =~= Seq::<Seq<char>>::empty());
    while i < ids.len()
        invariant
            i <= ids.len(),
            idv == ids.deep_view(),
            workspaces_of(*txn) == relink_all(workspaces_of(*old(txn)), idv.take(i as int), opt_view(group), now),
            same_except(*txn, *old(txn), set![WORKSPACES@]),
        decreases ids.len() - i,
    {
        let ghost k = idv[i as int];
        let res = relink_workspace(txn, ids[i].as_str(), group, now);
        if res.is_err() {
            proof {
                lemma_relink_all_at(workspaces_of(*old(txn)), idv.take(i as int), opt_view(group), now, k);
                assert(idv.contains(k));
            }
            return res;
        }
        assert(idv.take(i + 1).drop_last() =~= idv.take(i as int));
        i += 1;
    }
    assert(idv.take(ids.len() as int) =~= idv);
    Ok(())
}

/// Stores a new sync group made from `input` under `id`, indexes its members,
/// and links each member workspace that exists to it.
pub fn create_sync_group_in(txn: &mut redb::WriteTransaction, input: CreateSyncGroupInput, id: &str, now: i64) -> (r: DbResult<WorkspaceSyncGroup>)
    ensures
        r matches Ok(g) ==> g@ == new_group(id@, input, now)
            && groups_of(*final(txn)) == groups_of(*old(txn)).insert(id@, Some(g@))
            && sync_index_of(*final(txn)) == sync_index_of(*old(txn)).insert(id@, Some(input.workspace_ids.deep_view()))
            && workspaces_of(*final(txn)) == relink_all(workspaces_of(*old(txn)), input.workspace_ids.deep_view(), Some(id@), now)
            && same_except(*final(txn), *old(txn), set![WORKSPACES@, WORKSPACE_SYNC_GROUPS@, WORKSPACES_BY_SYNC_GROUP@]),
        r matches Err(e) ==> e is Storage
            || (e is Serialization && !all_readable::<Workspace>(workspaces_of(*old(txn)), input.workspace_ids.deep_view())),
{
    proof { lemma_table_names_distinct(); }
    let group = WorkspaceSyncGroup {
        id: id.to_owned(),
        name: input.name,
        workspace_ids: input.workspace_ids,
        synced_variable_names: input.synced_variable_names,
        sync_secrets: input.sync_secrets,
        created_at: now,
        updated_at: now,
    };
    put_doc(txn, WORKSPACE_SYNC_GROUPS, id, &group)?;
    store_ids(txn, WORKSPACES_BY_SYNC_GROUP, id, &group.workspace_ids)?;
    relink_members(txn, &group.workspace_ids, Some(id), now)?;
    Ok(group)
}

/// Applies the fields that `input` supplies to the sync group it names.
pub fn update_sync_group_in(txn: &mut redb::WriteTransaction, input: UpdateSyncGroupInput, now: i64) -> (r: DbResult<WorkspaceSyncGroup>)
    ensures
        r matches Ok(g) ==> groups_of(*old(txn)).contains_key(input.id@)
            && groups_of(*old(txn))[input.id@] is Some
            && g@ == updated_group(groups_of(*old(txn))[input.id@]->Some_0, input, now)
            && groups_of(*final(txn)) == groups_of(*old(txn)).insert(input.id@, Some(g@))
            && same_except(*final(txn), *old(txn), set![WORKSPACE_SYNC_GROUPS@]),
        r matches Err(e) ==> e is Storage
            || (e is NotFound && !groups_of(*old(txn)).contains_key(input.id@))
            || (e is Serialization && malformed_at(groups_of(*old(txn)), input.id@)),
{
    proof { lemma_table_names_distinct(); }
    let mut g = get_sync_group_in(&Snapshot::Write(&*txn), input.id.as_str())?;
    g.id = input.id.clone();
    if let Some(name) = input.name {
        g.name = name;
    }
    if let Some(names) = input.synced_variable_names {
        g.synced_variable_names = names;
    }
    if let Some(secrets) = input.sync_secrets {
        g.sync_secrets = secrets;
    }
    g.updated_at = now;
    put_doc(txn, WORKSPACE_SYNC_GROUPS, input.id.as_str(), &g)?;
    Ok(g)
}

/// Unlinks every member of the sync group stored under `id`, then deletes the
/// group and its index entry.
pub fn delete_sync_group_in(txn: &mut redb::WriteTransaction, id: &str, now: i64) -> (r: DbResult<()>)
    ensures
        r is Ok ==> groups_of(*old(txn)).contains_key(id@) && groups_of(*old(txn))[id@] is Some,
        r is Ok ==> workspaces_of(*final(txn)) == relink_all(workspaces_of(*old(txn)), groups_of(*old(txn))[id@]->Some_0.workspace_ids, None, now),
        r is Ok ==> groups_of(*final(txn)) == groups_of(*old(txn)).remove(id@),
        r is Ok ==> sync_index_of(*final(txn)) == sync_index_of(*old(txn)).remove(id@),
        r is Ok ==> same_except(*final(txn), *old(txn), set![WORKSPACES@, WORKSPACE_SYNC_GROUPS@, WORKSPACES_BY_SYNC_GROUP@]),
        r matches Err(e) ==> e is Storage
            || (e is NotFound && !groups_of(*old(txn)).contains_key(id@))
            || (e is Serialization && (malformed_at(groups_of(*old(txn)), id@) || !all_readable::<Workspace>(workspaces_of(*old(txn)), groups_of(*old(txn))[id@]->Some_0.workspace_ids))),
{
    proof { lemma_table_names_distinct(); }
    let g = get_sync_group_in(&Snapshot::Write(&*txn), id)?;
    relink_members(txn, &g.workspace_ids, None, now)?;
    delete_doc::<WorkspaceSyncGroup>(txn, WORKSPACE_SYNC_GROUPS, id)?;
    drop_index_entry(txn, WORKSPACES_BY_SYNC_GROUP, id)?;
    Ok(())
}

/// Makes workspace `ws_id` a member of sync group `group_id`: it first leaves
/// any other group it belonged to; then the group lists it once, the
/// workspace names the group, and the index holds it.
pub fn add_workspace_to_sync_group_in(txn: &mut redb::WriteTransaction, group_id: &str, ws_id: &str, now: i64) -> (r: DbResult<()>)
    ensures
        r is Ok ==> groups_of(*old(txn)).contains_key(group_id@) && groups_of(*old(txn))[group_id@] is Some,
        r is Ok ==> workspaces_of(*old(txn)).contains_key(ws_id@) && workspaces_of(*old(txn))[ws_id@] is Some,
        r is Ok ==> groups_of(*final(txn)) == leave_prior(groups_of(*old(txn)), other_group(workspaces_of(*old(txn))[ws_id@]->Some_0, group_id@), ws_id@, now)
            .insert(group_id@, Some(joined(groups_of(*old(txn))[group_id@]->Some_0, ws_id@, now))),
        r is Ok ==> workspaces_of(*final(txn)) == workspaces_of(*old(txn)).insert(ws_id@, Some(relinked(workspaces_of(*old(txn))[ws_id@]->Some_0, Some(group_id@), now))),
        r is Ok ==> sync_index_of(*final(txn)) == index_add(unindex_prior(sync_index_of(*old(txn)), other_group(workspaces_of(*old(txn))[ws_id@]->Some_0, group_id@), ws_id@), group_id@, ws_id@),
        r is Ok ==> same_except(*final(txn), *old(txn), set![WORKSPACES@, WORKSPACE_SYNC_GROUPS@, WORKSPACES_BY_SYNC_GROUP@]),
        r matches Err(e) ==> e is Storage
            || (e is NotFound && (!groups_of(*old(txn)).contains_key(group_id@) || !workspaces_of(*old(txn)).contains_key(ws_id@)))
            || (e is Serialization && (malformed_at(groups_of(*old(txn)), group_id@) || malformed_at(workspaces_of(*old(txn)), ws_id@)
                || prior_malformed(groups_of(*old(txn)), sync_index_of(*old(txn)), other_group(workspaces_of(*old(txn))[ws_id@]->Some_0, group_id@))
                || ids_under(sync_index_of(*old(txn)), group_id@) is None)),
{
    proof { lemma_table_names_distinct(); }
    let mut g = get_sync_group_in(&Snapshot::Write(&*txn), group_id)?;
    let mut w = get_workspace_in(&Snapshot::Write(&*txn), ws_id)?;
    let target = group_id.to_owned();
    if let Some(prior) = &w.sync_group_id {
        if !(*prior == target) {
            leave_group(txn, prior.as_str(), ws_id, now)?;
        }
    }
    let ghost g0 = g@;
    let before = g.workspace_ids.len();
    add_id(&mut g.workspace_ids, ws_id);
    assert(g.workspace_ids.deep_view().len() == g.workspace_ids@.len());
    if g.workspace_ids.len() != before {
        g.updated_at = now;
    }
    assert(g@ == joined(g0, ws_id@, now));
    w.sync_group_id = Some(group_id.to_owned());
    w.updated_at = now;
    put_doc(txn, WORKSPACE_SYNC_GROUPS, group_id, &g)?;
    add_to_index(txn, WORKSPACES_BY_SYNC_GROUP, group_id, ws_id)?;
    put_doc(txn, WORKSPACES, ws_id, &w)?;
    Ok(())
}

/// Takes workspace `ws_id` out of sync group `group_id`: the group no longer
/// lists it, the workspace names no group, and the index drops it.
pub fn remove_workspace_from_sync_group_in(txn: &mut redb::WriteTransaction, group_id: &str, ws_id: &str, now: i64) -> (r: DbResult<()>)
    ensures
        r is Ok ==> groups_of(*old(txn)).contains_key(group_id@) && groups_of(*old(txn))[group_id@] is Some,
        r is Ok ==> workspaces_of(*old(txn)).contains_key(ws_id@) && workspaces_of(*old(txn))[ws_id@] is Some,
        r is Ok ==> groups_of(*final(txn)) == groups_of(*old(txn)).insert(group_id@, Some(left(groups_of(*old(txn))[group_id@]->Some_0, ws_id@, now))),
        r is Ok ==> workspaces_of(*final(txn)) == workspaces_of(*old(txn)).insert(ws_id@, Some(relinked(workspaces_of(*old(txn))[ws_id@]->Some_0, None, now))),
        r is Ok ==> sync_index_of(*final(txn)) == index_remove(sync_index_of(*old(txn)), group_id@, ws_id@),
        r is Ok ==> same_except(*final(txn), *old(txn), set![WORKSPACES@, WORKSPACE_SYNC_GROUPS@, WORKSPACES_BY_SYNC_GROUP@]),
        r matches Err(e) ==> e is Storage
            || (e is NotFound && (!groups_of(*old(txn)).contains_key(group_id@) || !workspaces_of(*old(txn)).contains_key(ws_id@)))
            || (e is Serialization && (malformed_at(groups_of(*old(txn)), group_id@) || malformed_at(workspaces_of(*old(txn)), ws_id@) || ids_under(sync_index_of(*old(txn)), group_id@) is None)),
{
    proof { lemma_table_names_distinct(); }
    let mut g = get_sync_group_in(&Snapshot::Write(&*txn), group_id)?;
    let mut w = get_workspace_in(&Snapshot::Write(&*txn), ws_id)?;
    g.workspace_ids = remove_id(&g.workspace_ids, ws_id);
    g.updated_at = now;
    w.sync_group_id = None;
    w.updated_at = now;
    put_doc(txn, WORKSPACE_SYNC_GROUPS, group_id, &g)?;
    remove_from_index(txn, WORKSPACES_BY_SYNC_GROUP, group_id, ws_id)?;
    put_doc(txn, WORKSPACES, ws_id, &w)?;
    Ok(())
}

/// The sync group that workspace `ws_id` names, `None` where it names none.
pub fn get_sync_group_for_workspace_in(snap: &Snapshot, ws_id: &str) -> (r: DbResult<Option<WorkspaceSyncGroup>>)
    ensures
        r matches Ok(o) ==> docs_view::<Workspace>(snap.table(WORKSPACES@)).contains_key(ws_id@) && docs_view::<Workspace>(snap.table(WORKSPACES@))[ws_id@] is Some
            && match docs_view::<Workspace>(snap.table(WORKSPACES@))[ws_id@]->Some_0.sync_group_id {
                None => o is None,
                Some(g) => o matches Some(x) && docs_view::<WorkspaceSyncGroup>(snap.table(WORKSPACE_SYNC_GROUPS@)).contains_key(g) && docs_view::<WorkspaceSyncGroup>(snap.table(WORKSPACE_SYNC_GROUPS@))[g] == Some(x@),
            },
        r matches Err(e) ==> e is Storage
            || (e is NotFound && (!docs_view::<Workspace>(snap.table(WORKSPACES@)).contains_key(ws_id@)
                || (docs_view::<Workspace>(snap.table(WORKSPACES@))[ws_id@] is Some && docs_view::<Workspace>(snap.table(WORKSPACES@))[ws_id@]->Some_0.sync_group_id is Some
                    && !docs_view::<WorkspaceSyncGroup>(snap.table(WORKSPACE_SYNC_GROUPS@)).contains_key(docs_view::<Workspace>(snap.table(WORKSPACES@))[ws_id@]->Some_0.sync_group_id->Some_0))))
            || (e is Serialization && (malformed_at(docs_view::<Workspace>(snap.table(WORKSPACES@)), ws_id@)
                || (docs_view::<Workspace>(snap.table(WORKSPACES@))[ws_id@] is Some && docs_view::<Workspace>(snap.table(WORKSPACES@))[ws_id@]->Some_0.sync_group_id is Some
                    && malformed_at(docs_view::<WorkspaceSyncGroup>(snap.table(WORKSPACE_SYNC_GROUPS@)), docs_view::<Workspace>(snap.table(WORKSPACES@))[ws_id@]->Some_0.sync_group_id->Some_0)))),
{
    let w = get_workspace_in(snap, ws_id)?;
    match &w.sync_group_id {
        Some(g) => Ok(Some(get_sync_group_in(snap, g.as_str())?)),
        None => Ok(None),
    }
}

/// The member workspaces that the index lists under `group_id`, in order of
/// their names; ids without a workspace are skipped.
pub fn get_workspaces_by_sync_group_in(snap: &Snapshot, group_id: &str) -> (r: DbResult<Vec<Workspace>>)
    ensures
        r matches Ok(v) ==> list_readable::<Workspace>(docs_view::<Workspace>(snap.table(WORKSPACES@)), index_view(snap.table(WORKSPACES_BY_SYNC_GROUP@)), group_id@)
            && sorted_by_name(v@)
            && views(v@).to_multiset() == live_docs::<Workspace>(
                docs_view::<Workspace>(snap.table(WORKSPACES@)),
                ids_under(index_view(snap.table(WORKSPACES_BY_SYNC_GROUP@)), group_id@)->Some_0,
            ).to_multiset(),
        r matches Err(e) ==> e is Storage
            || (e is Serialization && !list_readable::<Workspace>(docs_view::<Workspace>(snap.table(WORKSPACES@)), index_view(snap.table(WORKSPACES_BY_SYNC_GROUP@)), group_id@)),
{
    proof { lemma_table_names_distinct(); }
    let ids = load_ids(snap, WORKSPACES_BY_SYNC_GROUP, group_id)?;
    list_docs::<Workspace>(snap, WORKSPACES, &ids)
}

/// Workspace and sync group operations, each in a transaction of its own.
pub struct WorkspaceService {
    db: Database,
}

impl WorkspaceService {
    pub fn new(db: Database) -> (r: WorkspaceService) {
        WorkspaceService { db }
    }

    /// Every workspace, in order of their names.
    pub fn get_all(&self) -> (r: DbResult<Vec<Workspace>>) {
        proof { lemma_table_names_distinct(); }
        let txn = self.db.begin_read()?;
        scan_docs::<Workspace>(&txn, WORKSPACES)
    }

    pub fn get(&self, id: &str) -> (r: DbResult<Workspace>) {
        let txn = self.db.begin_read()?;
        get_workspace_in(&Snapshot::Read(&txn), id)
    }

    pub fn create(&self, input: CreateWorkspaceInput) -> (r: DbResult<Workspace>)
        ensures
            r matches Ok(w) ==> w.name@ == input.name@ && w.description@ == input.description@
                && w.tags.deep_view() == input.tags.deep_view() && w.sync_group_id is None
                && w.created_at == w.updated_at,
    {
        let id = new_id();
        let now = now_millis();
        let mut txn = self.db.begin_write()?;
        let w = create_workspace_in(&mut txn, input, id.as_str(), now)?;
        Database::commit(txn)?;
        Ok(w)
    }

    pub fn update(&self, input: UpdateWorkspaceInput) -> (r: DbResult<Workspace>)
        ensures
            r matches Ok(w) ==> w.id@ == input.id@
                && exists|prev: WorkspaceView| w@ == #[trigger] updated_workspace(prev, input, w.updated_at),
    {
        let ghost given = input;
        let now = now_millis();
        let mut txn = self.db.begin_write()?;
        let ghost before = workspaces_of(txn);
        let w = update_workspace_in(&mut txn, input, now)?;
        assert(w@ == updated_workspace(before[given.id@]->Some_0, given, w.updated_at));
        Database::commit(txn)?;
        Ok(w)
    }

    pub fn delete(&self, id: &str) -> (r: DbResult<()>)
        ensures
            r matches Err(e) ==> !(e is Database) && !(e is InvalidInput),
    {
        let now = now_millis();
        let mut txn = self.db.begin_write()?;
        delete_workspace_in(&mut txn, id, now)?;
        Database::commit(txn)
    }

    /// Every sync group, in order of their names.
    pub fn get_all_sync_groups(&self) -> (r: DbResult<Vec<WorkspaceSyncGroup>>) {
        proof { lemma_table_names_distinct(); }
        let txn = self.db.begin_read()?;
        scan_docs::<WorkspaceSyncGroup>(&txn, WORKSPACE_SYNC_GROUPS)
    }

    pub fn get_sync_group(&self, id: &str) -> (r: DbResult<WorkspaceSyncGroup>) {
        let txn = self.db.begin_read()?;
        get_sync_group_in(&Snapshot::Read(&txn), id)
    }

    pub fn get_sync_group_for_workspace(&self, workspace_id: &str) -> (r: DbResult<Option<WorkspaceSyncGroup>>) {
        let txn = self.db.begin_read()?;
        get_sync_group_for_workspace_in(&Snapshot::Read(&txn), workspace_id)
    }

    pub fn create_sync_group(&self, input: CreateSyncGroupInput) -> (r: DbResult<WorkspaceSyncGroup>)
        ensures
            r matches Ok(g) ==> g.name@ == input.name@ && g.workspace_ids.deep_view() == input.workspace_ids.deep_view()
                && g.synced_variable_names.deep_view() == input.synced_variable_names.deep_view()
                && g.sync_secrets == input.sync_secrets && g.created_at == g.updated_at,
    {
        let id = new_id();
        let now = now_millis();
        let mut txn = self.db.begin_write()?;
        let g = create_sync_group_in(&mut txn, input, id.as_str(), now)?;
        Database::commit(txn)?;
        Ok(g)
    }

    pub fn update_sync_group(&self, input: UpdateSyncGroupInput) -> (r: DbResult<WorkspaceSyncGroup>)
        ensures
            r matches Ok(g) ==> g.id@ == input.id@
                && exists|prev: SyncGroupView| g@ == #[trigger] updated_group(prev, input, g.updated_at),
    {
        let ghost given = input;
        let now = now_millis();
        let mut txn = self.db.begin_write()?;
        let ghost before = groups_of(txn);
        let g = update_sync_group_in(&mut txn, input, now)?;
        assert(g@ == updated_group(before[given.id@]->Some_0, given, g.updated_at));
        Database::commit(txn)?;
        Ok(g)
    }

    pub fn delete_sync_group(&self, id: &str) -> (r: DbResult<()>)
        ensures
            r matches Err(e) ==> !(e is Database) && !(e is InvalidInput),
    {
        let now = now_millis();
        let mut txn = self.db.begin_write()?;
        delete_sync_group_in(&mut txn, id, now)?;
        Database::commit(txn)
    }

    pub fn get_workspaces_by_sync_group(&self, sync_group_id: &str) -> (r: DbResult<Vec<Workspace>>) {
        let txn = self.db.begin_read()?;
        get_workspaces_by_sync_group_in(&Snapshot::Read(&txn), sync_group_id)
    }

    pub fn add_workspace_to_sync_group(&self, sync_group_id: &str, workspace_id: &str) -> (r: DbResult<()>)
        ensures
            r matches Err(e) ==> !(e is Database) && !(e is InvalidInput),
    {
        let now = now_millis();
        let mut txn = self.db.begin_write()?;
        add_workspace_to_sync_group_in(&mut txn, sync_group_id, workspace_id, now)?;
        Database::commit(txn)
    }

    pub fn remove_workspace_from_sync_group(&self, sync_group_id: &str, workspace_id: &str) -> (r: DbResult<()>)
        ensures
            r matches Err(e) ==> !(e is Database) && !(e is InvalidInput),
    {
        let now = now_millis();
        let mut txn = self.db.begin_write()?;
        remove_workspace_from_sync_group_in(&mut txn, sync_group_id, workspace_id, now)?;
        Database::commit(txn)
    }
}

} // verus!
