use resona::collection::{CollectionService, CreateCollectionInput, UpdateCollectionInput};
use resona::db::Database;
use resona::error::DbError;
use resona::request::{
    BodyType, CreateRequestInput, FormDataItem, HttpMethod, RequestHeader, RequestParam,
    RequestService, UpdateRequestInput,
};
use resona::variable::{CreateVariableInput, UpdateVariableInput, VariableScope, VariableService};
use resona::workspace::{CreateSyncGroupInput, CreateWorkspaceInput, WorkspaceService};

fn fresh_db() -> Database {
    let path = format!("/tmp/resona_entities_{}.redb", uuid::Uuid::new_v4());
    Database::open_at(&path).expect("database")
}

fn new_workspace(db: &Database, name: &str) -> String {
    WorkspaceService::new(db.clone())
        .create(CreateWorkspaceInput { name: name.to_string(), description: String::new(), tags: vec![] })
        .unwrap()
        .id
}

fn new_collection(db: &Database, workspace_id: &str, name: &str) -> String {
    CollectionService::new(db.clone())
        .create(CreateCollectionInput {
            name: name.to_string(),
            description: format!("{} collection", name),
            workspace_id: workspace_id.to_string(),
        })
        .unwrap()
        .id
}

fn request_input(name: &str, workspace_id: &str, collection_id: Option<&str>) -> CreateRequestInput {
    CreateRequestInput {
        name: name.to_string(),
        method: HttpMethod::Get,
        url: String::new(),
        headers: vec![],
        params: vec![],
        body_type: BodyType::Empty,
        body: String::new(),
        form_data: vec![],
        collection_id: collection_id.map(|c| c.to_string()),
        workspace_id: workspace_id.to_string(),
    }
}

fn variable(db: &Database, name: &str, value: &str, scope: VariableScope, scope_id: Option<&str>) -> String {
    VariableService::new(db.clone())
        .create(CreateVariableInput {
            name: name.to_string(),
            value: value.to_string(),
            scope,
            scope_id: scope_id.map(|s| s.to_string()),
            is_secret: false,
            description: None,
        })
        .unwrap()
        .id
}

#[test]
fn request_round_trip_keeps_every_field() {
    let db = fresh_db();
    let ws = new_workspace(&db, "W");
    let coll = new_collection(&db, &ws, "C");
    let service = RequestService::new(db);
    let created = service
        .create(CreateRequestInput {
            name: "Login".to_string(),
            method: HttpMethod::Post,
            url: "https://example.com/login".to_string(),
            headers: vec![RequestHeader { key: "Accept".to_string(), value: "*/*".to_string(), enabled: true }],
            params: vec![RequestParam { key: "q".to_string(), value: "1".to_string(), enabled: false }],
            body_type: BodyType::XWwwFormUrlencoded,
            body: "{\"a\": \"\u{e9}\"}".to_string(),
            form_data: vec![FormDataItem {
                key: "f".to_string(),
                value: "v".to_string(),
                item_type: "text".to_string(),
                enabled: true,
            }],
            collection_id: Some(coll.clone()),
            workspace_id: ws.clone(),
        })
        .unwrap();
    let got = service.get(&created.id).unwrap();
    assert_eq!(got.name, "Login");
    assert_eq!(got.method, HttpMethod::Post);
    assert_eq!(got.url, "https://example.com/login");
    assert_eq!(got.headers.len(), 1);
    assert_eq!(got.headers[0].key, "Accept");
    assert_eq!(got.headers[0].value, "*/*");
    assert!(got.headers[0].enabled);
    assert_eq!(got.params[0].key, "q");
    assert!(!got.params[0].enabled);
    assert_eq!(got.body_type, BodyType::XWwwFormUrlencoded);
    assert_eq!(got.body, "{\"a\": \"\u{e9}\"}");
    assert_eq!(got.form_data[0].item_type, "text");
    assert_eq!(got.collection_id, Some(coll));
    assert_eq!(got.workspace_id, ws);
    assert_eq!(got.created_at, created.created_at);
}

#[test]
fn collection_round_trip_and_update() {
    let db = fresh_db();
    let ws = new_workspace(&db, "W");
    let service = CollectionService::new(db);
    let c = service
        .create(CreateCollectionInput { name: "Auth".to_string(), description: "d".to_string(), workspace_id: ws.clone() })
        .unwrap();
    let got = service.get(&c.id).unwrap();
    assert_eq!(got.name, "Auth");
    assert_eq!(got.description, "d");
    assert_eq!(got.workspace_id, ws);
    let updated = service
        .update(UpdateCollectionInput { id: c.id.clone(), name: None, description: Some("e".to_string()) })
        .unwrap();
    assert_eq!(updated.name, "Auth");
    assert_eq!(updated.description, "e");
    assert_eq!(service.get_all().unwrap().len(), 1);
    assert!(matches!(service.get("missing"), Err(DbError::NotFound(_))));
}

#[test]
fn listing_children_follows_creates_and_deletes() {
    let db = fresh_db();
    let ws = new_workspace(&db, "W");
    let other = new_workspace(&db, "Other");
    let service = CollectionService::new(db.clone());
    let c = new_collection(&db, &ws, "charlie");
    let a = new_collection(&db, &ws, "alpha");
    let b = new_collection(&db, &ws, "bravo");
    let d = new_collection(&db, &ws, "delta");
    new_collection(&db, &other, "elsewhere");
    service.delete(&b).unwrap();
    service.delete(&d).unwrap();
    let e = new_collection(&db, &ws, "echo");
    let listed: Vec<String> = service.get_by_workspace(&ws).unwrap().into_iter().map(|c| c.id).collect();
    assert_eq!(listed, vec![a, c, e]);
    assert!(service.get_by_workspace("nobody").unwrap().is_empty());
}

#[test]
fn moving_request_between_collections() {
    let db = fresh_db();
    let ws = new_workspace(&db, "W");
    let c1 = new_collection(&db, &ws, "C1");
    let c2 = new_collection(&db, &ws, "C2");
    let service = RequestService::new(db);
    let r = service.create(request_input("R", &ws, Some(&c1))).unwrap();
    assert_eq!(service.get_by_collection(&c1).unwrap().len(), 1);

    let moved = service
        .update(UpdateRequestInput {
            id: r.id.clone(),
            name: None,
            method: Some(HttpMethod::Delete),
            url: None,
            headers: None,
            params: None,
            body_type: None,
            body: None,
            form_data: None,
            collection_id: Some(Some(c2.clone())),
        })
        .unwrap();
    assert_eq!(moved.collection_id, Some(c2.clone()));
    assert_eq!(moved.method, HttpMethod::Delete);
    assert_eq!(moved.name, "R");
    assert!(service.get_by_collection(&c1).unwrap().is_empty());
    let in_c2 = service.get_by_collection(&c2).unwrap();
    assert_eq!(in_c2.len(), 1);
    assert_eq!(in_c2[0].id, r.id);
    assert!(service.get_standalone_by_workspace(&ws).unwrap().is_empty());

    service
        .update(UpdateRequestInput {
            id: r.id.clone(),
            name: None,
            method: None,
            url: None,
            headers: None,
            params: None,
            body_type: None,
            body: None,
            form_data: None,
            collection_id: Some(None),
        })
        .unwrap();
    assert!(service.get_by_collection(&c2).unwrap().is_empty());
    let standalone = service.get_standalone_by_workspace(&ws).unwrap();
    assert_eq!(standalone.len(), 1);
    assert_eq!(standalone[0].id, r.id);
}

#[test]
fn standalone_requests_exclude_collection_requests() {
    let db = fresh_db();
    let ws = new_workspace(&db, "W");
    let c = new_collection(&db, &ws, "C");
    let service = RequestService::new(db);
    let in_coll = service.create(request_input("b-in", &ws, Some(&c))).unwrap();
    let alone = service.create(request_input("a-alone", &ws, None)).unwrap();
    let standalone = service.get_standalone_by_workspace(&ws).unwrap();
    assert_eq!(standalone.len(), 1);
    assert_eq!(standalone[0].id, alone.id);
    let all: Vec<String> = service.get_all_by_workspace(&ws).unwrap().into_iter().map(|r| r.id).collect();
    assert_eq!(all, vec![alone.id.clone(), in_coll.id.clone()]);
    service.delete(&alone.id).unwrap();
    assert!(service.get_standalone_by_workspace(&ws).unwrap().is_empty());
    assert_eq!(service.get_all_by_workspace(&ws).unwrap().len(), 1);
    assert!(matches!(service.delete(&alone.id), Err(DbError::NotFound(_))));
}

#[test]
fn variable_precedence_across_scopes() {
    let db = fresh_db();
    let ws = new_workspace(&db, "W");
    let coll = new_collection(&db, &ws, "C");
    let req = RequestService::new(db.clone()).create(request_input("R", &ws, Some(&coll))).unwrap().id;
    variable(&db, "X", "1", VariableScope::Global, None);
    variable(&db, "X", "2", VariableScope::Workspace, Some(&ws));
    variable(&db, "X", "3", VariableScope::Collection, Some(&coll));
    variable(&db, "X", "4", VariableScope::Request, Some(&req));
    let service = VariableService::new(db);

    let only_global = service.get_resolved(None, None, None).unwrap();
    assert_eq!(only_global.len(), 1);
    assert_eq!(only_global[0].value, "1");
    assert_eq!(only_global[0].scope, VariableScope::Global);

    let at_ws = service.get_resolved(Some(&ws), None, None).unwrap();
    assert_eq!(at_ws.len(), 1);
    assert_eq!(at_ws[0].value, "2");

    let at_coll = service.get_resolved(Some(&ws), Some(&coll), None).unwrap();
    assert_eq!(at_coll.len(), 1);
    assert_eq!(at_coll[0].value, "3");

    let at_req = service.get_resolved(Some(&ws), Some(&coll), Some(&req)).unwrap();
    assert_eq!(at_req.len(), 1);
    assert_eq!(at_req[0].name, "X");
    assert_eq!(at_req[0].value, "4");
    assert_eq!(at_req[0].scope, VariableScope::Request);
}

#[test]
fn resolution_keeps_names_defined_only_below() {
    let db = fresh_db();
    let ws = new_workspace(&db, "W");
    variable(&db, "B", "global-b", VariableScope::Global, None);
    variable(&db, "A", "global-a", VariableScope::Global, None);
    variable(&db, "A", "ws-a", VariableScope::Workspace, Some(&ws));
    variable(&db, "C", "ws-c", VariableScope::Workspace, Some(&ws));
    let resolved = VariableService::new(db).get_resolved(Some(&ws), None, None).unwrap();
    let pairs: Vec<(String, String)> = resolved.into_iter().map(|r| (r.name, r.value)).collect();
    assert_eq!(
        pairs,
        vec![
            ("A".to_string(), "ws-a".to_string()),
            ("B".to_string(), "global-b".to_string()),
            ("C".to_string(), "ws-c".to_string()),
        ]
    );
}

#[test]
fn variable_update_and_delete_maintain_scope_lists() {
    let db = fresh_db();
    let ws = new_workspace(&db, "W");
    let id = variable(&db, "TOKEN", "t", VariableScope::Workspace, Some(&ws));
    let service = VariableService::new(db);
    let updated = service
        .update(UpdateVariableInput {
            id: id.clone(),
            name: None,
            value: Some("u".to_string()),
            is_secret: Some(true),
            description: Some("secret token".to_string()),
        })
        .unwrap();
    assert_eq!(updated.value, "u");
    assert!(updated.is_secret);
    assert_eq!(updated.description, Some("secret token".to_string()));
    assert_eq!(updated.scope, VariableScope::Workspace);
    let listed = service.get_by_workspace(&ws).unwrap();
    assert_eq!(listed.len(), 1);
    assert_eq!(listed[0].value, "u");
    assert!(service.get_global().unwrap().is_empty());
    service.delete(&id).unwrap();
    assert!(service.get_by_workspace(&ws).unwrap().is_empty());
    assert!(matches!(service.get(&id), Err(DbError::NotFound(_))));
}

#[test]
fn collection_and_request_scopes_are_separate() {
    let db = fresh_db();
    variable(&db, "K", "c", VariableScope::Collection, Some("same"));
    variable(&db, "K", "r", VariableScope::Request, Some("same"));
    let service = VariableService::new(db);
    assert_eq!(service.get_by_collection("same").unwrap()[0].value, "c");
    assert_eq!(service.get_by_request("same").unwrap()[0].value, "r");
}

#[test]
fn deleting_workspace_cascades_to_its_lists() {
    let db = fresh_db();
    let ws = new_workspace(&db, "W");
    let coll = new_collection(&db, &ws, "C");
    let requests = RequestService::new(db.clone());
    let r1 = requests.create(request_input("R1", &ws, Some(&coll))).unwrap();
    requests.create(request_input("R2", &ws, None)).unwrap();
    let workspaces = WorkspaceService::new(db.clone());
    let group = workspaces
        .create_sync_group(CreateSyncGroupInput {
            name: "G".to_string(),
            workspace_ids: vec![ws.clone()],
            synced_variable_names: vec![],
            sync_secrets: false,
        })
        .unwrap();
    workspaces.delete(&ws).unwrap();
    assert!(matches!(workspaces.get(&ws), Err(DbError::NotFound(_))));
    let collections = CollectionService::new(db.clone());
    assert!(collections.get_by_workspace(&ws).unwrap().is_empty());
    assert!(requests.get_all_by_workspace(&ws).unwrap().is_empty());
    assert!(requests.get_standalone_by_workspace(&ws).unwrap().is_empty());
    assert_eq!(collections.get(&coll).unwrap().workspace_id, ws);
    assert_eq!(requests.get(&r1.id).unwrap().collection_id, Some(coll));
    assert!(workspaces.get_workspaces_by_sync_group(&group.id).unwrap().is_empty());
}

#[test]
fn deleting_sync_group_clears_member_links() {
    let db = fresh_db();
    let ws = new_workspace(&db, "W");
    let workspaces = WorkspaceService::new(db);
    let group = workspaces
        .create_sync_group(CreateSyncGroupInput {
            name: "G".to_string(),
            workspace_ids: vec![ws.clone()],
            synced_variable_names: vec![],
            sync_secrets: false,
        })
        .unwrap();
    assert_eq!(workspaces.get(&ws).unwrap().sync_group_id, Some(group.id.clone()));
    workspaces.delete_sync_group(&group.id).unwrap();
    assert_eq!(workspaces.get(&ws).unwrap().sync_group_id, None);
    assert!(matches!(workspaces.get_sync_group(&group.id), Err(DbError::NotFound(_))));
    assert!(workspaces.get_workspaces_by_sync_group(&group.id).unwrap().is_empty());
}

#[test]
fn deleting_collection_drops_its_request_list() {
    let db = fresh_db();
    let ws = new_workspace(&db, "W");
    let coll = new_collection(&db, &ws, "C");
    let requests = RequestService::new(db.clone());
    requests.create(request_input("R", &ws, Some(&coll))).unwrap();
    CollectionService::new(db.clone()).delete(&coll).unwrap();
    assert!(requests.get_by_collection(&coll).unwrap().is_empty());
    assert!(CollectionService::new(db).get_by_workspace(&ws).unwrap().is_empty());
}

#[test]
fn children_with_equal_names_are_all_listed() {
    let db = fresh_db();
    let ws = new_workspace(&db, "W");
    let service = RequestService::new(db);
    let a = service.create(request_input("same", &ws, None)).unwrap();
    let b = service.create(request_input("same", &ws, None)).unwrap();
    let mut ids: Vec<String> = service.get_standalone_by_workspace(&ws).unwrap().into_iter().map(|r| r.id).collect();
    ids.sort();
    let mut expected = vec![a.id, b.id];
    expected.sort();
    assert_eq!(ids, expected);
}

#[test]
fn opening_a_directory_is_a_database_error() {
    assert!(matches!(Database::open_at("/tmp"), Err(DbError::Database(_))));
}

#[test]
fn scoped_variable_without_owner_is_rejected() {
    let service = VariableService::new(fresh_db());
    let r = service.create(CreateVariableInput {
        name: "X".to_string(),
        value: "1".to_string(),
        scope: VariableScope::Workspace,
        scope_id: None,
        is_secret: false,
        description: None,
    });
    assert!(matches!(r, Err(DbError::InvalidInput(_))));
    assert!(service.get_by_workspace("").unwrap().is_empty());
    let global = service
        .create(CreateVariableInput {
            name: "G".to_string(),
            value: "1".to_string(),
            scope: VariableScope::Global,
            scope_id: None,
            is_secret: false,
            description: None,
        })
        .unwrap();
    assert_eq!(global.scope, VariableScope::Global);
}

#[test]
fn malformed_listed_document_is_an_error() {
    let db = fresh_db();
    let ws = new_workspace(&db, "W");
    let c = new_collection(&db, &ws, "C");
    let requests = RequestService::new(db.clone());
    let r = requests.create(request_input("R", &ws, Some(&c))).unwrap();
    let txn = db.begin_write().unwrap();
    {
        let mut table = txn.open_table(redb::TableDefinition::<&str, &str>::new("requests")).unwrap();
        table.insert(r.id.as_str(), "[1, 2").unwrap();
    }
    txn.commit().unwrap();
    assert!(matches!(requests.get_by_collection(&c), Err(DbError::Serialization(_))));
    assert!(matches!(requests.get_all_by_workspace(&ws), Err(DbError::Serialization(_))));
}
