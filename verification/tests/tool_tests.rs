use memos_app::tool::{
    list_enabled, missing_tool_error, prepare_create, prepare_create_at, prepare_update, prepare_update_at,
    validate_command, validate_description, validate_name, validate_timeout_ms, Permission, Tool,
};
use memos_app::error::CoreError;

fn sample_tool(id: &str, name: &str) -> Tool {
    Tool {
        id: id.to_string(),
        name: name.to_string(),
        command: "echo hello".to_string(),
        permission: Permission::ReadOnly,
        description: "test tool".to_string(),
        timeout_ms: 30000,
        enabled: true,
        created_ts: 0,
        updated_ts: 0,
    }
}

fn other_message(r: Result<Tool, CoreError>) -> String {
    match r {
        Err(CoreError::Other(m)) => m,
        _ => panic!("expected an Other error"),
    }
}

#[test]
fn test_create_and_get() {
    let t = prepare_create(sample_tool("u-my", "my_tool")).unwrap();
    assert_eq!(t.id, "u-my");
    assert!(t.created_ts > 0);
    assert_eq!(t.name, "my_tool");
    assert_eq!(t.permission, Permission::ReadOnly);
}

#[test]
fn tool_test_create_rejects_non_u_prefix() {
    let result = prepare_create(sample_tool("bad", "my_tool"));
    assert!(result.is_err());
}

#[test]
fn test_create_rejects_builtin_name() {
    let mut t = sample_tool("u-x", "list_memos");
    assert!(prepare_create(t.clone()).is_err());
    t.name = "create_memo".to_string();
    assert!(prepare_create(t).is_err());
}

#[test]
fn test_create_rejects_invalid_name() {
    let mut t = sample_tool("u-x", "MyTool");
    assert!(prepare_create(t.clone()).is_err());
    t.name = "my tool".to_string();
    assert!(prepare_create(t).is_err());
}

#[test]
fn test_list_and_list_enabled() {
    let a = prepare_create(sample_tool("u-a", "tool_a")).unwrap();
    let mut b = sample_tool("u-b", "tool_b");
    b.enabled = false;
    let b = prepare_create(b).unwrap();
    let all = vec![a, b];
    assert_eq!(all.len(), 2);
    let enabled = list_enabled(&all);
    assert_eq!(enabled.len(), 1);
    assert_eq!(enabled[0].name, "tool_a");
}

#[test]
fn test_update() {
    let mut t = prepare_create(sample_tool("u-a", "tool_a")).unwrap();
    t.command = "echo updated".to_string();
    t.permission = Permission::Dangerous;
    let updated = prepare_update(t).unwrap();
    assert_eq!(updated.command, "echo updated");
    assert_eq!(updated.permission, Permission::Dangerous);
}

#[test]
fn test_validate_timeout_ms() {
    let mut t = sample_tool("u-a", "tool_a");
    t.timeout_ms = 500;
    assert!(prepare_create(t.clone()).is_err());
    t.timeout_ms = 700_000;
    assert!(prepare_create(t).is_err());
}

#[test]
fn test_permission_requires_confirmation() {
    assert!(!Permission::ReadOnly.requires_confirmation());
    assert!(!Permission::Writable.requires_confirmation());
    assert!(Permission::Executable.requires_confirmation());
    assert!(Permission::Dangerous.requires_confirmation());
}

#[test]
fn permission_names_round_trip() {
    for p in [Permission::ReadOnly, Permission::Writable, Permission::Executable, Permission::Dangerous] {
        assert_eq!(Permission::from_str(p.as_str()).unwrap(), p);
    }
    assert_eq!(Permission::ReadOnly.as_str(), "read_only");
    assert_eq!(Permission::Dangerous.as_str(), "dangerous");
}

#[test]
fn unknown_permission_is_refused() {
    match Permission::from_str("root") {
        Err(CoreError::Other(m)) => assert_eq!(m, "未知 permission: root"),
        _ => panic!("expected an error"),
    }
}

#[test]
fn create_stamps_both_times_with_now() {
    let t = prepare_create_at(sample_tool("u-a", "tool_a"), 1234).unwrap();
    assert_eq!(t.created_ts, 1234);
    assert_eq!(t.updated_ts, 1234);
    let fresh = prepare_create(sample_tool("u-a", "tool_a")).unwrap();
    assert_eq!(fresh.created_ts, fresh.updated_ts);
}

#[test]
fn update_keeps_creation_time() {
    let mut t = sample_tool("u-a", "tool_a");
    t.created_ts = 7;
    let u = prepare_update_at(t, 99).unwrap();
    assert_eq!(u.created_ts, 7);
    assert_eq!(u.updated_ts, 99);
}

#[test]
fn field_errors_carry_their_messages() {
    assert_eq!(other_message(prepare_create(sample_tool("bad", "t"))), "用户工具 id 必须以 u- 开头");
    assert_eq!(other_message(prepare_create(sample_tool("u-a", ""))), "工具名长度必须在 1-64 之间");
    assert_eq!(other_message(prepare_create(sample_tool("u-a", &"a".repeat(65)))), "工具名长度必须在 1-64 之间");
    assert!(prepare_create(sample_tool("u-a", &"a".repeat(64))).is_ok());
    assert_eq!(other_message(prepare_create(sample_tool("u-a", "Tool"))), "工具名只能包含小写字母、数字和下划线");
    assert_eq!(other_message(prepare_create(sample_tool("u-a", "officecli"))), "工具名 officecli 与内置工具冲突");
    let mut t = sample_tool("u-a", "t");
    t.command = String::new();
    assert_eq!(other_message(prepare_create(t.clone())), "命令不能为空");
    t.command = "x".repeat(1025);
    assert_eq!(other_message(prepare_create(t)), "命令长度不能超过 1024");
    let mut t = sample_tool("u-a", "t");
    t.description = String::new();
    assert_eq!(other_message(prepare_update(t.clone())), "描述不能为空");
    t.description = "d".repeat(501);
    assert_eq!(other_message(prepare_update(t)), "描述长度不能超过 500");
    let mut t = sample_tool("u-a", "t");
    t.timeout_ms = 999;
    assert_eq!(other_message(prepare_update(t)), "超时时间必须在 1000-600000 毫秒之间");
}

#[test]
fn validators_on_their_bounds() {
    assert!(validate_timeout_ms(1000).is_ok());
    assert!(validate_timeout_ms(600_000).is_ok());
    assert!(validate_timeout_ms(600_001).is_err());
    assert!(validate_name("tool_1").is_ok());
    assert!(validate_command(&"c".repeat(1024)).is_ok());
    assert!(validate_description(&"d".repeat(500)).is_ok());
    // multi-byte text is measured in bytes
    assert!(validate_description(&"界".repeat(166)).is_ok());
    assert!(validate_description(&"界".repeat(167)).is_err());
}

#[test]
fn missing_tool_message() {
    match missing_tool_error("u-x") {
        CoreError::Other(m) => assert_eq!(m, "工具 u-x 不存在"),
        _ => panic!("expected Other"),
    }
}

#[test]
fn enabled_listing_keeps_name_order() {
    let mut listed = Vec::new();
    for (i, name) in ["alpha", "beta", "delta", "gamma"].iter().enumerate() {
        let mut t = sample_tool(&format!("u-{i}"), name);
        t.enabled = i != 1;
        listed.push(t);
    }
    let names: Vec<String> = list_enabled(&listed).into_iter().map(|t| t.name).collect();
    assert_eq!(names, vec!["alpha".to_string(), "delta".to_string(), "gamma".to_string()]);
}
