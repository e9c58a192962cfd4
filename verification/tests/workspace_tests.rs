use memos_app::workspace::{corrupt_backup_name, new_workspace_id, WorkspaceRegistry};
use memos_app::error::IpcError;

#[test]
fn test_add_first_sets_active() {
    let mut reg = WorkspaceRegistry::default();
    let ws = reg.add("First", "/tmp/ws1".to_string()).clone();
    assert_eq!(reg.active_workspace_id, Some(ws.id));
}

#[test]
fn test_add_second_does_not_change_active() {
    let mut reg = WorkspaceRegistry::default();
    let first = reg.add("First", "/tmp/ws1".to_string()).clone();
    reg.add("Second", "/tmp/ws2".to_string());
    assert_eq!(reg.active_workspace_id, Some(first.id));
}

#[test]
fn test_remove_active_selects_another() {
    let mut reg = WorkspaceRegistry::default();
    let first = reg.add("First", "/tmp/ws1".to_string()).clone();
    reg.add("Second", "/tmp/ws2".to_string());
    reg.remove(&first.id).unwrap();
    assert!(reg.active_workspace_id.is_some());
    assert_ne!(reg.active_workspace_id, Some(first.id));
}

#[test]
fn test_remove_last_clears_active() {
    let mut reg = WorkspaceRegistry::default();
    let ws = reg.add("Only", "/tmp/ws1".to_string()).clone();
    reg.remove(&ws.id).unwrap();
    assert!(reg.active_workspace_id.is_none());
}

#[test]
fn test_remove_nonexistent_returns_error() {
    let mut reg = WorkspaceRegistry::default();
    assert!(reg.remove("ws-nonexistent").is_err());
}

#[test]
fn test_rename() {
    let mut reg = WorkspaceRegistry::default();
    let ws = reg.add("Old", "/tmp/ws1".to_string()).clone();
    reg.rename(&ws.id, "New Name").unwrap();
    assert_eq!(reg.get(&ws.id).unwrap().name, "New Name");
}

#[test]
fn test_set_active() {
    let mut reg = WorkspaceRegistry::default();
    let first = reg.add("First", "/tmp/ws1".to_string()).clone();
    let second = reg.add("Second", "/tmp/ws2".to_string()).clone();
    reg.set_active(&second.id).unwrap();
    assert_eq!(reg.active_workspace_id, Some(second.id));
    reg.set_active(&first.id).unwrap();
    assert_eq!(reg.active_workspace_id, Some(first.id));
}

#[test]
fn test_set_active_nonexistent_returns_error() {
    let mut reg = WorkspaceRegistry::default();
    assert!(reg.set_active("ws-nonexistent").is_err());
}

#[test]
fn default_registry_is_empty() {
    let reg = WorkspaceRegistry::default();
    assert_eq!(reg.version, 1);
    assert!(reg.active_workspace_id.is_none());
    assert!(reg.workspaces.is_empty());
    assert!(reg.get_active().is_none());
}

#[test]
fn unknown_ids_give_not_found() {
    let mut reg = WorkspaceRegistry::default();
    match reg.rename("ws-x", "n") {
        Err(IpcError::NotFound(m)) => assert_eq!(m, "workspace ws-x"),
        _ => panic!("expected NotFound"),
    }
    match reg.remove("ws-y") {
        Err(IpcError::NotFound(m)) => assert_eq!(m, "workspace ws-y"),
        _ => panic!("expected NotFound"),
    }
}

#[test]
fn removed_workspace_is_gone_and_active_follows() {
    let mut reg = WorkspaceRegistry::default();
    let a = reg.add("A", "/a".to_string()).clone();
    let b = reg.add("B", "/b".to_string()).clone();
    let c = reg.add("C", "/c".to_string()).clone();
    reg.set_active(&b.id).unwrap();
    reg.remove(&b.id).unwrap();
    assert!(reg.get(&b.id).is_none());
    // the first remaining workspace becomes active
    assert_eq!(reg.active_workspace_id, Some(a.id.clone()));
    assert_eq!(reg.get_active().unwrap().id, a.id);
    // removing an inactive one leaves the active one alone
    reg.remove(&c.id).unwrap();
    assert_eq!(reg.active_workspace_id, Some(a.id));
    assert_eq!(reg.workspaces.len(), 1);
}

#[test]
fn workspace_ids_are_fresh() {
    let a = new_workspace_id();
    let b = new_workspace_id();
    assert!(a.starts_with("ws-"));
    assert_eq!(a.len(), 39);
    assert_ne!(a, b);
    let mut reg = WorkspaceRegistry::default();
    let w = reg.add("N", "/p".to_string()).clone();
    assert_eq!(w.name, "N");
    assert_eq!(w.path, "/p");
    assert!(w.created_ts > 0);
}

#[test]
fn backup_name_has_the_time() {
    assert_eq!(corrupt_backup_name(1700000000), "workspaces.json.corrupt.1700000000");
    assert_eq!(corrupt_backup_name(0), "workspaces.json.corrupt.0");
}

#[test]
fn workspace_id_is_a_v4_uuid() {
    let id = new_workspace_id();
    let u: Vec<char> = id.chars().skip(3).collect();
    assert_eq!(u.len(), 36);
    for (i, c) in u.iter().enumerate() {
        if i == 8 || i == 13 || i == 18 || i == 23 {
            assert_eq!(*c, '-');
        } else {
            assert!(c.is_ascii_digit() || ('a'..='f').contains(c));
        }
    }
    assert_eq!(u[14], '4');
    assert!(matches!(u[19], '8' | '9' | 'a' | 'b'));
}

#[test]
fn add_at_keeps_the_given_stamp_and_id() {
    let mut reg = WorkspaceRegistry::default();
    let w = reg.add_at("A", "/tmp/a".to_string(), "ws-1".to_string(), 1_700_000_000).clone();
    assert_eq!(w.id, "ws-1");
    assert_eq!(w.name, "A");
    assert_eq!(w.path, "/tmp/a");
    assert_eq!(w.created_ts, 1_700_000_000);
    assert_eq!(reg.active_workspace_id, Some("ws-1".to_string()));
    reg.add_at("B", "/tmp/b".to_string(), "ws-2".to_string(), 5);
    assert_eq!(reg.workspaces.len(), 2);
    assert_eq!(reg.workspaces[1].created_ts, 5);
    assert_eq!(reg.active_workspace_id, Some("ws-1".to_string()));
}

#[test]
fn add_stamps_with_the_clock() {
    let mut reg = WorkspaceRegistry::default();
    let w = reg.add("First", "/tmp/ws1".to_string()).clone();
    assert!(w.created_ts > 1_600_000_000);
    assert!(w.id.starts_with("ws-"));
}
