use maestro::settings::{Settings, WorkspaceEntry};

#[test]
fn test_settings_default() {
    let settings = Settings::default();
    assert_eq!(settings.recent_workspaces.len(), 0);
    assert_eq!(settings.max_recent_workspaces, 10);
}

#[test]
fn config_test_add_workspace() {
    let mut settings = Settings::new();
    settings.add_workspace("/test/path1".to_string(), "workspace1".to_string());

    assert_eq!(settings.recent_workspaces.len(), 1);
    assert_eq!(settings.recent_workspaces[0].name, "workspace1");
}

#[test]
fn config_test_remove_workspace() {
    let mut settings = Settings::new();
    let path = "/test/path1".to_string();

    settings.add_workspace(path.clone(), "workspace1".to_string());
    assert_eq!(settings.recent_workspaces.len(), 1);

    settings.remove_workspace(&path);
    assert_eq!(settings.recent_workspaces.len(), 0);
}

#[test]
fn test_max_workspaces_limit() {
    let mut settings = Settings::new();
    settings.max_recent_workspaces = 3;

    for i in 0..5 {
        settings.add_workspace(format!("/test/path{}", i), format!("workspace{}", i));
    }

    assert_eq!(settings.recent_workspaces.len(), 3);
}

#[test]
fn test_workspace_entry_creation() {
    let path = "/test/path".to_string();
    let name = "test".to_string();
    let entry = WorkspaceEntry::new(path.clone(), name.clone());

    assert_eq!(entry.path, path);
    assert_eq!(entry.name, name);
}

#[test]
fn recent_list_is_ordered_and_deduplicated() {
    let mut settings = Settings::new();
    settings.add_workspace_at("/a".to_string(), "a".to_string(), 100);
    settings.add_workspace_at("/b".to_string(), "b".to_string(), 200);
    settings.add_workspace_at("/c".to_string(), "c".to_string(), 300);
    let names: Vec<&str> = settings.recent_workspaces.iter().map(|e| e.name.as_str()).collect();
    assert_eq!(names, vec!["c", "b", "a"]);

    settings.add_workspace_at("/a".to_string(), "ignored".to_string(), 400);
    let names: Vec<&str> = settings.recent_workspaces.iter().map(|e| e.name.as_str()).collect();
    assert_eq!(names, vec!["a", "c", "b"]);
    assert_eq!(settings.recent_workspaces[0].last_opened, 400);

    settings.update_last_opened_at(&"/b".to_string(), 500);
    assert_eq!(settings.recent_workspaces[0].name, "b");
    settings.update_last_opened_at(&"/missing".to_string(), 600);
    assert_eq!(settings.recent_workspaces.len(), 3);

    settings.max_recent_workspaces = 2;
    settings.add_workspace_at("/d".to_string(), "d".to_string(), 50);
    let names: Vec<&str> = settings.recent_workspaces.iter().map(|e| e.name.as_str()).collect();
    assert_eq!(names, vec!["b", "a"]);
}

#[test]
fn equal_times_keep_their_order() {
    let mut settings = Settings::new();
    settings.add_workspace_at("/x".to_string(), "x".to_string(), 7);
    settings.add_workspace_at("/y".to_string(), "y".to_string(), 7);
    settings.add_workspace_at("/z".to_string(), "z".to_string(), 7);
    let names: Vec<&str> = settings.recent_workspaces.iter().map(|e| e.name.as_str()).collect();
    assert_eq!(names, vec!["x", "y", "z"]);
    settings.remove_workspace(&"/y".to_string());
    let names: Vec<&str> = settings.recent_workspaces.iter().map(|e| e.name.as_str()).collect();
    assert_eq!(names, vec!["x", "z"]);
}
