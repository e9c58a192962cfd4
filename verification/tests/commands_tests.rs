use memos_app::commands::{
    check_create_path, check_valid_status, register_workspace, status_str, switch_target, workspace_infos,
    SkillDto, ToolDto,
};
use memos_app::error::IpcError;
use memos_app::skill::{Skill, SkillSource};
use memos_app::tool::{Permission, Tool};
use memos_app::workspace::{WorkspaceRegistry, WorkspaceStatus};

#[test]
fn dto_source_and_permission_names() {
    let s = Skill {
        id: "b-x".to_string(),
        name: "X".to_string(),
        description: "d".to_string(),
        tools: vec!["t".to_string()],
        body: "b".to_string(),
        enabled: true,
        source: SkillSource::BuiltIn,
        created_ts: 1,
        updated_ts: 2,
    };
    let d = SkillDto::from(s.clone());
    assert_eq!(d.source, "builtin");
    assert_eq!(d.tools, vec!["t".to_string()]);
    assert_eq!(SkillDto::from(Skill { source: SkillSource::User, ..s }).source, "user");
    let t = Tool {
        id: "u-a".to_string(),
        name: "a".to_string(),
        command: "c".to_string(),
        permission: Permission::ReadOnly,
        description: "d".to_string(),
        timeout_ms: 1000,
        enabled: true,
        created_ts: 0,
        updated_ts: 0,
    };
    assert_eq!(ToolDto::from(t).permission, "read_only");
}

#[test]
fn workspace_list_records() {
    let mut reg = WorkspaceRegistry::default();
    let a = reg.add("A", "/a".to_string()).clone();
    reg.add("B", "/b".to_string());
    let infos = workspace_infos(&reg, &vec![WorkspaceStatus::Valid, WorkspaceStatus::PathNotDir]);
    assert_eq!(infos.len(), 2);
    assert_eq!(infos[0].id, a.id);
    assert!(infos[0].is_active);
    assert_eq!(infos[0].status, "valid");
    assert!(!infos[1].is_active);
    assert_eq!(infos[1].status, "path_not_dir");
    assert_eq!(infos[1].path, "/b");
    assert_eq!(status_str(&WorkspaceStatus::NotWritable), "not_writable");
    assert_eq!(status_str(&WorkspaceStatus::PathNotFound), "path_not_found");
}

#[test]
fn create_checks() {
    match check_create_path(true, false) {
        Err(IpcError::BadRequest(m)) => assert_eq!(m, "路径已存在但不是目录"),
        _ => panic!("expected BadRequest"),
    }
    assert_eq!(check_create_path(false, false).unwrap(), true);
    assert_eq!(check_create_path(true, true).unwrap(), false);
    assert!(check_valid_status(WorkspaceStatus::Valid).is_ok());
    match check_valid_status(WorkspaceStatus::NotWritable) {
        Err(IpcError::BadRequest(m)) => assert_eq!(m, "工作空间路径无效: NotWritable"),
        _ => panic!("expected BadRequest"),
    }
}

#[test]
fn registering_returns_the_new_record() {
    let mut reg = WorkspaceRegistry::default();
    let info = register_workspace(&mut reg, "Notes", "/n".to_string());
    assert!(info.id.starts_with("ws-"));
    assert!(info.is_active);
    assert_eq!(info.status, "valid");
    assert_eq!(info.name, "Notes");
    let second = register_workspace(&mut reg, "More", "/m".to_string());
    assert!(!second.is_active);
    assert_eq!(reg.workspaces.len(), 2);
}

#[test]
fn switch_checks() {
    let mut reg = WorkspaceRegistry::default();
    let a = reg.add("A", "/a".to_string()).clone();
    match switch_target(&reg, &a.id, true) {
        Err(IpcError::BadRequest(m)) => assert_eq!(m, "有正在执行的 AI 任务，请等待完成或中止后再切换"),
        _ => panic!("expected BadRequest"),
    }
    match switch_target(&reg, "ws-none", false) {
        Err(IpcError::NotFound(m)) => assert_eq!(m, "workspace ws-none"),
        _ => panic!("expected NotFound"),
    }
    assert_eq!(switch_target(&reg, &a.id, false).unwrap().path, "/a");
}
