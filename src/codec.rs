use vstd::prelude::*;

use crate::collection::{Collection, CollectionView};
use crate::variable::{Variable, VariableRecord, VariableRecordView};
use crate::request::{RequestRecord, RequestRecordView};
use crate::workspace::{SyncGroupView, Workspace, WorkspaceSyncGroup, WorkspaceView};

verus! {

/// What serde_json::from_str reads from a text as a list of strings, `None`
/// where the text is not a JSON array of strings.
pub uninterp spec fn ids_parse(s: Seq<char>) -> Option<Seq<Seq<char>>>;

/// Relies on serde_json::to_string on a list of strings, which fails only
/// for a failing `Serialize` impl or a map with non-string keys, so never
/// here; its text
/// serde_json::from_str reads back as the same list.
#[verifier::external_body]
pub(crate) fn encode_ids(ids: &Vec<String>) -> (r: Result<String, String>)
    ensures
        r is Ok,
        r matches Ok(s) ==> ids_parse(s@) == Some(ids.deep_view()),
{
    serde_json::to_string(ids).map_err(|e| e.to_string())
}

/// Relies on serde_json::from_str into a list of strings.
#[verifier::external_body]
pub(crate) fn decode_ids(s: &str) -> (r: Result<Vec<String>, String>)
    ensures
        match ids_parse(s@) {
            Some(v) => r matches Ok(ids) && ids.deep_view() == v,
            None => r is Err,
        },
{
    serde_json::from_str(s).map_err(|e| e.to_string())
}

/// What serde_json::from_str reads from a workspace document.
pub uninterp spec fn workspace_parse(s: Seq<char>) -> Option<WorkspaceView>;

/// Relies on serde_json::to_string on the tuple of a workspace's fields, whose
/// text serde_json::from_str reads back as the same fields. to_string fails
/// only for a failing `Serialize` impl or non-string map keys: never here.
#[verifier::external_body]
pub(crate) fn encode_workspace(w: &Workspace) -> (r: Result<String, String>)
    ensures
        r is Ok,
        r matches Ok(s) ==> workspace_parse(s@) == Some(w@),
{
    let fields = (&w.id, &w.name, &w.description, &w.tags, &w.sync_group_id, w.created_at, w.updated_at);
    serde_json::to_string(&fields).map_err(|e| e.to_string())
}

/// Relies on serde_json::from_str into the tuple of a workspace's fields.
#[verifier::external_body]
pub(crate) fn decode_workspace(s: &str) -> (r: Result<Workspace, String>)
    ensures
        match workspace_parse(s@) {
            Some(v) => r matches Ok(w) && w@ == v,
            None => r is Err,
        },
{
    let (id, name, description, tags, sync_group_id, created_at, updated_at) =
        serde_json::from_str::<(String, String, String, Vec<String>, Option<String>, i64, i64)>(s).map_err(|e| e.to_string())?;
    Ok(Workspace { id, name, description, tags, sync_group_id, created_at, updated_at })
}

/// What serde_json::from_str reads from a sync group document.
pub uninterp spec fn sync_group_parse(s: Seq<char>) -> Option<SyncGroupView>;

/// Relies on serde_json::to_string on the tuple of a sync group's fields,
/// whose text serde_json::from_str reads back as the same fields. to_string
/// fails only for a failing `Serialize` impl or non-string map keys: never here.
#[verifier::external_body]
pub(crate) fn encode_sync_group(g: &WorkspaceSyncGroup) -> (r: Result<String, String>)
    ensures
        r is Ok,
        r matches Ok(s) ==> sync_group_parse(s@) == Some(g@),
{
    let fields = (&g.id, &g.name, &g.workspace_ids, &g.synced_variable_names, g.sync_secrets, g.created_at, g.updated_at);
    serde_json::to_string(&fields).map_err(|e| e.to_string())
}

/// Relies on serde_json::from_str into the tuple of a sync group's fields.
#[verifier::external_body]
pub(crate) fn decode_sync_group(s: &str) -> (r: Result<WorkspaceSyncGroup, String>)
    ensures
        match sync_group_parse(s@) {
            Some(v) => r matches Ok(g) && g@ == v,
            None => r is Err,
        },
{
    let (id, name, workspace_ids, synced_variable_names, sync_secrets, created_at, updated_at) =
        serde_json::from_str::<(String, String, Vec<String>, Vec<String>, bool, i64, i64)>(s).map_err(|e| e.to_string())?;
    Ok(WorkspaceSyncGroup { id, name, workspace_ids, synced_variable_names, sync_secrets, created_at, updated_at })
}

/// What serde_json::from_str reads from a collection document.
pub uninterp spec fn collection_parse(s: Seq<char>) -> Option<CollectionView>;

/// Relies on serde_json::to_string on the tuple of a collection's fields,
/// whose text serde_json::from_str reads back as the same fields. to_string
/// fails only for a failing `Serialize` impl or non-string map keys: never here.
#[verifier::external_body]
pub(crate) fn encode_collection(c: &Collection) -> (r: Result<String, String>)
    ensures
        r is Ok,
        r matches Ok(s) ==> collection_parse(s@) == Some(c@),
{
    let fields = (&c.id, &c.name, &c.description, &c.workspace_id, c.created_at, c.updated_at);
    serde_json::to_string(&fields).map_err(|e| e.to_string())
}

/// Relies on serde_json::from_str into the tuple of a collection's fields.
#[verifier::external_body]
pub(crate) fn decode_collection(s: &str) -> (r: Result<Collection, String>)
    ensures
        match collection_parse(s@) {
            Some(v) => r matches Ok(c) && c@ == v,
            None => r is Err,
        },
{
    let (id, name, description, workspace_id, created_at, updated_at) =
        serde_json::from_str::<(String, String, String, String, i64, i64)>(s).map_err(|e| e.to_string())?;
    Ok(Collection { id, name, description, workspace_id, created_at, updated_at })
}

/// What serde_json::from_str reads from a request document.
pub uninterp spec fn request_record_parse(s: Seq<char>) -> Option<RequestRecordView>;

/// Relies on serde_json::to_string on the tuple of a request record's
/// fields, whose text serde_json::from_str reads back as the same fields.
/// to_string fails only for a failing `Serialize` impl or non-string map
/// keys: never here.
#[verifier::external_body]
pub(crate) fn encode_request(q: &RequestRecord) -> (r: Result<String, String>)
    ensures
        r is Ok,
        r matches Ok(s) ==> request_record_parse(s@) == Some(q@),
{
    let fields = (&q.id, &q.name, q.method, &q.url, &q.headers, &q.params, q.body_type, &q.body, &q.form_data, &q.collection_id, &q.workspace_id, q.created_at, q.updated_at);
    serde_json::to_string(&fields).map_err(|e| e.to_string())
}

/// Relies on serde_json::from_str into the tuple of a request record's fields.
#[verifier::external_body]
pub(crate) fn decode_request(s: &str) -> (r: Result<RequestRecord, String>)
    ensures
        match request_record_parse(s@) {
            Some(v) => r matches Ok(rec) && rec@ == v,
            None => r is Err,
        },
{
    let (id, name, method, url, headers, params, body_type, body, form_data, collection_id, workspace_id, created_at, updated_at) =
        serde_json::from_str(s).map_err(|e: serde_json::Error| e.to_string())?;
    Ok(RequestRecord { id, name, method, url, headers, params, body_type, body, form_data, collection_id, workspace_id, created_at, updated_at })
}

/// What serde_json::from_str reads from a variable document.
pub uninterp spec fn variable_record_parse(s: Seq<char>) -> Option<VariableRecordView>;

/// Relies on serde_json::to_string on the tuple of a variable's fields, with
/// the scope given as a number; serde_json::from_str reads the text back as
/// the same fields. to_string fails only for a failing `Serialize` impl or
/// non-string map keys: never here.
#[verifier::external_body]
pub(crate) fn encode_variable(v: &Variable, scope: u8) -> (r: Result<String, String>)
    ensures
        r is Ok,
        r matches Ok(s) ==> variable_record_parse(s@) == Some(VariableRecordView { scope, ..crate::variable::variable_record_of(v@) }),
{
    let fields = (&v.id, &v.name, &v.value, scope, &v.scope_id, v.is_secret, &v.description, v.created_at, v.updated_at);
    serde_json::to_string(&fields).map_err(|e| e.to_string())
}

/// Relies on serde_json::from_str into the tuple of a variable's fields.
#[verifier::external_body]
pub(crate) fn decode_variable(s: &str) -> (r: Result<VariableRecord, String>)
    ensures
        match variable_record_parse(s@) {
            Some(v) => r matches Ok(rec) && rec@ == v,
            None => r is Err,
        },
{
    let (id, name, value, scope, scope_id, is_secret, description, created_at, updated_at) =
        serde_json::from_str(s).map_err(|e: serde_json::Error| e.to_string())?;
    Ok(VariableRecord { id, name, value, scope, scope_id, is_secret, description, created_at, updated_at })
}

/// Relies on uuid::Uuid::new_v4 and its hyphenated text form.
#[verifier::external_body]
pub(crate) fn new_id() -> (r: String) {
    uuid::Uuid::new_v4().to_string()
}

/// Relies on chrono::Utc::now: milliseconds since the Unix epoch.
#[verifier::external_body]
pub(crate) fn now_millis() -> (r: i64) {
    chrono::Utc::now().timestamp_millis()
}

} // verus!
