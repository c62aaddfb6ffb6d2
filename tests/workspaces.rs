use resona::db::Database;
use resona::error::DbError;
use resona::workspace::{
    CreateSyncGroupInput, CreateWorkspaceInput, UpdateSyncGroupInput, UpdateWorkspaceInput,
    WorkspaceService,
};

fn create_test_db() -> Database {
    let path = format!("/tmp/resona_test_{}.redb", uuid::Uuid::new_v4());
    Database::open_at(&path).expect("Failed to create test database")
}

fn workspace_input(name: &str, description: &str, tag: &str) -> CreateWorkspaceInput {
    CreateWorkspaceInput {
        name: name.to_string(),
        description: description.to_string(),
        tags: vec![tag.to_string()],
    }
}

#[test]
fn test_workspace_crud() {
    let db = create_test_db();
    let service = WorkspaceService::new(db);

    let workspace = service
        .create(CreateWorkspaceInput {
            name: "Test Workspace".to_string(),
            description: "A test workspace".to_string(),
            tags: vec!["Development".to_string()],
        })
        .expect("Failed to create workspace");

    assert_eq!(workspace.name, "Test Workspace");
    assert_eq!(workspace.tags, vec!["Development".to_string()]);

    let fetched = service.get(&workspace.id).expect("Failed to get workspace");
    assert_eq!(fetched.id, workspace.id);

    let updated = service
        .update(UpdateWorkspaceInput {
            id: workspace.id.clone(),
            name: Some("Updated Workspace".to_string()),
            description: None,
            tags: None,
            sync_group_id: None,
        })
        .expect("Failed to update workspace");

    assert_eq!(updated.name, "Updated Workspace");
    assert_eq!(updated.description, "A test workspace");

    let all = service.get_all().expect("Failed to get all workspaces");
    assert_eq!(all.len(), 1);

    service
        .delete(&workspace.id)
        .expect("Failed to delete workspace");
    let all = service.get_all().expect("Failed to get all workspaces");
    assert_eq!(all.len(), 0);
}

#[test]
fn test_sync_groups() {
    let db = create_test_db();
    let service = WorkspaceService::new(db);

    let ws1 = service
        .create(CreateWorkspaceInput {
            name: "Workspace 1".to_string(),
            description: "First workspace".to_string(),
            tags: vec!["Development".to_string()],
        })
        .expect("Failed to create workspace 1");

    let ws2 = service
        .create(CreateWorkspaceInput {
            name: "Workspace 2".to_string(),
            description: "Second workspace".to_string(),
            tags: vec!["Production".to_string()],
        })
        .expect("Failed to create workspace 2");

    let group = service
        .create_sync_group(CreateSyncGroupInput {
            name: "Test Sync Group".to_string(),
            workspace_ids: vec![ws1.id.clone(), ws2.id.clone()],
            synced_variable_names: vec!["API_KEY".to_string()],
            sync_secrets: false,
        })
        .expect("Failed to create sync group");

    let ws1_updated = service.get(&ws1.id).expect("Failed to get workspace 1");
    assert_eq!(ws1_updated.sync_group_id, Some(group.id.clone()));

    let grouped = service
        .get_workspaces_by_sync_group(&group.id)
        .expect("Failed to get workspaces by sync group");
    assert_eq!(grouped.len(), 2);

    service
        .delete_sync_group(&group.id)
        .expect("Failed to delete sync group");

    let ws1_final = service.get(&ws1.id).expect("Failed to get workspace 1");
    assert_eq!(ws1_final.sync_group_id, None);
}

#[test]
fn workspace_round_trip_keeps_fields() {
    let service = WorkspaceService::new(create_test_db());
    let created = service.create(workspace_input("Alpha", "first", "dev")).unwrap();
    let fetched = service.get(&created.id).unwrap();
    assert_eq!(fetched.id, created.id);
    assert_eq!(fetched.name, "Alpha");
    assert_eq!(fetched.description, "first");
    assert_eq!(fetched.tags, vec!["dev".to_string()]);
    assert_eq!(fetched.sync_group_id, None);
    assert_eq!(fetched.created_at, created.created_at);
    assert_eq!(fetched.updated_at, created.updated_at);
    assert_eq!(created.created_at, created.updated_at);
}

#[test]
fn workspaces_are_listed_by_name() {
    let service = WorkspaceService::new(create_test_db());
    service.create(workspace_input("beta", "", "t")).unwrap();
    service.create(workspace_input("Alpha", "", "t")).unwrap();
    service.create(workspace_input("alpha", "", "t")).unwrap();
    let names: Vec<String> = service.get_all().unwrap().into_iter().map(|w| w.name).collect();
    assert_eq!(names, vec!["Alpha".to_string(), "alpha".to_string(), "beta".to_string()]);
}

#[test]
fn update_keeps_fields_not_supplied() {
    let service = WorkspaceService::new(create_test_db());
    let w = service.create(workspace_input("Keep", "desc", "a")).unwrap();
    let updated = service
        .update(UpdateWorkspaceInput {
            id: w.id.clone(),
            name: None,
            description: Some("new desc".to_string()),
            tags: Some(vec!["b".to_string(), "c".to_string()]),
            sync_group_id: None,
        })
        .unwrap();
    assert_eq!(updated.name, "Keep");
    assert_eq!(updated.description, "new desc");
    assert_eq!(updated.tags, vec!["b".to_string(), "c".to_string()]);
    assert!(updated.updated_at >= w.updated_at);
    assert_eq!(updated.created_at, w.created_at);
}

#[test]
fn missing_workspace_is_not_found() {
    let service = WorkspaceService::new(create_test_db());
    assert!(matches!(service.get("nope"), Err(DbError::NotFound(_))));
    assert!(matches!(service.delete("nope"), Err(DbError::NotFound(_))));
    let update = service.update(UpdateWorkspaceInput {
        id: "nope".to_string(),
        name: None,
        description: None,
        tags: None,
        sync_group_id: None,
    });
    assert!(matches!(update, Err(DbError::NotFound(_))));
    assert!(matches!(service.get_sync_group("nope"), Err(DbError::NotFound(_))));
}

#[test]
fn malformed_document_is_a_serialization_error() {
    let db = create_test_db();
    let txn = db.begin_write().unwrap();
    {
        let mut table = txn
            .open_table(redb::TableDefinition::<&str, &str>::new("workspaces"))
            .unwrap();
        table.insert("broken", "{not json").unwrap();
    }
    txn.commit().unwrap();
    let service = WorkspaceService::new(db);
    assert!(matches!(service.get("broken"), Err(DbError::Serialization(_))));
    assert!(matches!(service.get_all(), Err(DbError::Serialization(_))));
}

#[test]
fn add_and_remove_member_links_both_sides() {
    let service = WorkspaceService::new(create_test_db());
    let w = service.create(workspace_input("Solo", "", "x")).unwrap();
    let g = service
        .create_sync_group(CreateSyncGroupInput {
            name: "Group".to_string(),
            workspace_ids: vec![],
            synced_variable_names: vec![],
            sync_secrets: true,
        })
        .unwrap();
    assert!(service.get_sync_group_for_workspace(&w.id).unwrap().is_none());

    service.add_workspace_to_sync_group(&g.id, &w.id).unwrap();
    let found = service.get_sync_group_for_workspace(&w.id).unwrap().unwrap();
    assert_eq!(found.id, g.id);
    assert_eq!(found.workspace_ids, vec![w.id.clone()]);
    let members = service.get_workspaces_by_sync_group(&g.id).unwrap();
    assert_eq!(members.len(), 1);
    assert_eq!(members[0].id, w.id);

    service.add_workspace_to_sync_group(&g.id, &w.id).unwrap();
    assert_eq!(service.get_sync_group(&g.id).unwrap().workspace_ids.len(), 1);

    service.remove_workspace_from_sync_group(&g.id, &w.id).unwrap();
    assert!(service.get_sync_group_for_workspace(&w.id).unwrap().is_none());
    assert!(service.get_sync_group(&g.id).unwrap().workspace_ids.is_empty());
    assert!(service.get_workspaces_by_sync_group(&g.id).unwrap().is_empty());
}

#[test]
fn create_sync_group_skips_missing_workspaces() {
    let service = WorkspaceService::new(create_test_db());
    let w = service.create(workspace_input("Real", "", "x")).unwrap();
    let g = service
        .create_sync_group(CreateSyncGroupInput {
            name: "Mixed".to_string(),
            workspace_ids: vec![w.id.clone(), "ghost".to_string()],
            synced_variable_names: vec![],
            sync_secrets: false,
        })
        .unwrap();
    assert_eq!(service.get(&w.id).unwrap().sync_group_id, Some(g.id.clone()));
    let members = service.get_workspaces_by_sync_group(&g.id).unwrap();
    assert_eq!(members.len(), 1);
    assert_eq!(members[0].id, w.id);
}

#[test]
fn update_sync_group_applies_supplied_fields() {
    let service = WorkspaceService::new(create_test_db());
    let g = service
        .create_sync_group(CreateSyncGroupInput {
            name: "Old".to_string(),
            workspace_ids: vec![],
            synced_variable_names: vec!["A".to_string()],
            sync_secrets: false,
        })
        .unwrap();
    let updated = service
        .update_sync_group(UpdateSyncGroupInput {
            id: g.id.clone(),
            name: Some("New".to_string()),
            synced_variable_names: None,
            sync_secrets: Some(true),
        })
        .unwrap();
    assert_eq!(updated.name, "New");
    assert_eq!(updated.synced_variable_names, vec!["A".to_string()]);
    assert!(updated.sync_secrets);
    assert_eq!(service.get_all_sync_groups().unwrap().len(), 1);
}

#[test]
fn deleting_workspace_unindexes_it_from_its_group() {
    let service = WorkspaceService::new(create_test_db());
    let w = service.create(workspace_input("Member", "", "x")).unwrap();
    let g = service
        .create_sync_group(CreateSyncGroupInput {
            name: "G".to_string(),
            workspace_ids: vec![w.id.clone()],
            synced_variable_names: vec![],
            sync_secrets: false,
        })
        .unwrap();
    service.delete(&w.id).unwrap();
    assert!(service.get_workspaces_by_sync_group(&g.id).unwrap().is_empty());
}

#[test]
fn joining_a_second_group_leaves_the_first() {
    let service = WorkspaceService::new(create_test_db());
    let w = service.create(workspace_input("Mover", "", "x")).unwrap();
    let first = service
        .create_sync_group(CreateSyncGroupInput {
            name: "First".to_string(),
            workspace_ids: vec![w.id.clone()],
            synced_variable_names: vec![],
            sync_secrets: false,
        })
        .unwrap();
    let second = service
        .create_sync_group(CreateSyncGroupInput {
            name: "Second".to_string(),
            workspace_ids: vec![],
            synced_variable_names: vec![],
            sync_secrets: false,
        })
        .unwrap();
    service.add_workspace_to_sync_group(&second.id, &w.id).unwrap();
    assert_eq!(service.get(&w.id).unwrap().sync_group_id, Some(second.id.clone()));
    assert!(!service.get_sync_group(&first.id).unwrap().workspace_ids.contains(&w.id));
    assert!(service.get_workspaces_by_sync_group(&first.id).unwrap().is_empty());
    assert_eq!(service.get_sync_group(&second.id).unwrap().workspace_ids, vec![w.id.clone()]);
    assert_eq!(service.get_workspaces_by_sync_group(&second.id).unwrap().len(), 1);
}

#[test]
fn deleting_member_workspace_unlinks_group_document() {
    let service = WorkspaceService::new(create_test_db());
    let w = service.create(workspace_input("Gone", "", "x")).unwrap();
    let stay = service.create(workspace_input("Stay", "", "x")).unwrap();
    let g = service
        .create_sync_group(CreateSyncGroupInput {
            name: "G".to_string(),
            workspace_ids: vec![w.id.clone(), stay.id.clone()],
            synced_variable_names: vec![],
            sync_secrets: false,
        })
        .unwrap();
    service.delete(&w.id).unwrap();
    assert_eq!(service.get_sync_group(&g.id).unwrap().workspace_ids, vec![stay.id.clone()]);
    let members = service.get_workspaces_by_sync_group(&g.id).unwrap();
    assert_eq!(members.len(), 1);
    assert_eq!(members[0].id, stay.id);
}

#[test]
fn update_returns_the_requested_id() {
    let service = WorkspaceService::new(create_test_db());
    let w = service.create(workspace_input("Id", "", "x")).unwrap();
    let g = service
        .create_sync_group(CreateSyncGroupInput {
            name: "G".to_string(),
            workspace_ids: vec![],
            synced_variable_names: vec![],
            sync_secrets: false,
        })
        .unwrap();
    let updated = service
        .update_sync_group(UpdateSyncGroupInput { id: g.id.clone(), name: None, synced_variable_names: None, sync_secrets: None })
        .unwrap();
    assert_eq!(updated.id, g.id);
    assert_eq!(updated.name, "G");
    assert_eq!(service.get(&w.id).unwrap().id, w.id);
}
