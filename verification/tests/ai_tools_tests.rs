use memos_app::ai_tools::{
    card_from_input, card_store_error, combine_tool_output, deck_id_arg, list_limit, load_skill_outcome,
    memo_query, memo_uid_from_nanos, parse_relation_type, plan_user_tool_call, require_arg, route_tool,
    search_limit, tool_definitions, truncate_at_char_boundary, truncate_skill_body, uuid_like, BuiltinTool,
    CardInput, LoadedSkill, MemoQuery, RelationType, ToolRoute, UserToolCall, review_cards_answer, summarize_cards,
    deck_not_found, CardOutcome, ReviewCardsAnswer, user_tool_step, UserToolAction, UserToolAnswer, UserToolEvent,
};
use memos_app::error::CoreError;
use memos_app::skill::{Skill, SkillSource};
use memos_app::tool::{Permission, Tool};

fn user_tool(name: &str, enabled: bool) -> Tool {
    Tool {
        id: "u-a".to_string(),
        name: name.to_string(),
        command: "echo hi".to_string(),
        permission: Permission::ReadOnly,
        description: "test".to_string(),
        timeout_ms: 30000,
        enabled,
        created_ts: 0,
        updated_ts: 0,
    }
}

#[test]
fn test_tool_definitions_count() {
    let defs = tool_definitions(&vec![]);
    assert_eq!(defs.len(), 10);
    let names: Vec<&str> = defs.iter().map(|d| d.name.as_str()).collect();
    assert!(names.contains(&"list_memos"));
    assert!(names.contains(&"get_memo"));
    assert!(names.contains(&"create_memo"));
    assert!(names.contains(&"list_tags"));
    assert!(names.contains(&"list_memos_by_tag"));
    assert!(names.contains(&"update_memo"));
    assert!(names.contains(&"search_semantic"));
    assert!(names.contains(&"link_memos"));
    assert!(names.contains(&"create_review_cards"));
    assert!(names.contains(&"load_skill"));
}

#[test]
fn test_tool_definitions_with_user_tools() {
    let enabled = user_tool("my_tool", true);
    let mut disabled = user_tool("disabled_tool", false);
    disabled.id = "u-b".to_string();
    let defs = tool_definitions(&vec![enabled, disabled]);
    assert_eq!(defs.len(), 11);
    let names: Vec<&str> = defs.iter().map(|d| d.name.as_str()).collect();
    assert!(names.contains(&"my_tool"));
    assert!(!names.contains(&"disabled_tool"));
}

#[test]
fn test_execute_tool_unknown() {
    // neither a built-in tool nor a stored user tool
    assert!(matches!(route_tool("unknown_tool"), ToolRoute::User));
    let result = plan_user_tool_call("unknown_tool", None, Some("ls".to_string()));
    assert!(result.is_err());
}

#[test]
fn test_create_review_cards_invalid_card() {
    let cards = vec![
        CardInput {
            memo_uid: Some(String::new()),
            card_type: Some("basic".to_string()),
            front: Some(String::new()),
            back: Some("x".to_string()),
            cloze_answer: None,
            angle: None,
        },
        CardInput {
            memo_uid: Some("uid0".to_string()),
            card_type: Some("basic".to_string()),
            front: Some("ok".to_string()),
            back: Some("ok".to_string()),
            cloze_answer: None,
            angle: None,
        },
    ];
    let planned: Vec<_> = cards.iter().map(card_from_input).collect();
    let inserted = planned.iter().filter(|c| c.is_ok()).count();
    let errors = planned.iter().filter(|c| c.is_err()).count();
    assert_eq!(inserted, 1);
    assert_eq!(errors, 1);
}

#[test]
fn user_definition_carries_name_and_schema() {
    let defs = tool_definitions(&vec![user_tool("my_tool", true)]);
    let d = &defs[10];
    assert_eq!(d.name, "my_tool");
    assert!(d.parameters.contains("command"));
    assert!(d.description.contains("test"));
}

#[test]
fn routing_of_builtin_names() {
    assert!(matches!(route_tool("list_memos"), ToolRoute::Builtin(BuiltinTool::ListMemos)));
    assert!(matches!(route_tool("load_skill"), ToolRoute::Builtin(BuiltinTool::LoadSkill)));
    match route_tool("officecli") {
        ToolRoute::Unimplemented(CoreError::Other(m)) => assert_eq!(m, "内置工具未实现: officecli"),
        _ => panic!("expected the unimplemented route"),
    }
}

#[test]
fn user_tool_calls() {
    match plan_user_tool_call("t", Some(user_tool("t", false)), Some("ls".to_string())) {
        Ok(UserToolCall::Disabled(m)) => assert_eq!(m, "工具 t 已禁用"),
        _ => panic!("expected disabled"),
    }
    match plan_user_tool_call("t", Some(user_tool("t", true)), None) {
        Err(CoreError::Other(m)) => assert_eq!(m, "缺少 command 参数"),
        _ => panic!("expected missing command"),
    }
    match plan_user_tool_call("t", Some(user_tool("t", true)), Some("ls -l".to_string())) {
        Ok(UserToolCall::Run(t, c)) => {
            assert_eq!(t.name, "t");
            assert_eq!(c, "ls -l");
        }
        _ => panic!("expected a run"),
    }
    match plan_user_tool_call("zz", None, None) {
        Err(CoreError::Other(m)) => assert_eq!(m, "未知工具: zz"),
        _ => panic!("expected unknown"),
    }
}

#[test]
fn truncation_keeps_head_and_tail() {
    assert_eq!(truncate_at_char_boundary("short", 10), "short");
    // 20 bytes, limit 10: 5 bytes of head and tail, 10 dropped
    let s = "abcdefghijklmnopqrst";
    assert_eq!(truncate_at_char_boundary(s, 10), "abcde\n...[truncated 10 bytes]...\npqrst");
    // cut points move to character boundaries: each 界 takes 3 bytes
    let s = "界界界界界界";
    assert_eq!(truncate_at_char_boundary(s, 8), "界\n...[truncated 12 bytes]...\n界");
}

#[test]
fn tool_output_formats_stderr_lines() {
    assert_eq!(combine_tool_output("out\n", "e1\ne2\r\n"), "out\n[stderr] e1\n[stderr] e2\n");
    assert_eq!(combine_tool_output("", ""), "");
    let big = "x".repeat(20000);
    let r = combine_tool_output(&big, "");
    assert_eq!(r, format!("{}\n...[truncated 9760 bytes]...\n{}", "x".repeat(5120), "x".repeat(5120)));
}

#[test]
fn skill_body_cut_for_model() {
    let body = "b".repeat(51200);
    assert_eq!(truncate_skill_body(body.clone()), body);
    let long = "b".repeat(51201);
    assert_eq!(truncate_skill_body(long), format!("{}\n\n…[已截断]", "b".repeat(51200)));
}

#[test]
fn memo_ids_from_clock() {
    assert_eq!(memo_uid_from_nanos(255), "00000000000000ff");
    assert_eq!(memo_uid_from_nanos(1u128 << 64 | 1), "0000000000000001");
    let id = uuid_like();
    assert_eq!(id.len(), 16);
    assert!(id.chars().all(|c| c.is_ascii_hexdigit()));
    assert_ne!(id, "0000000000000000");
}

#[test]
fn memo_search_kinds() {
    assert!(matches!(memo_query(""), MemoQuery::Recent));
    match memo_query("rust ab") {
        MemoQuery::ContentContains(q) => assert_eq!(q, "rust ab"),
        _ => panic!("expected a content search"),
    }
    match memo_query("  rust  ownership ") {
        MemoQuery::FullText(q) => assert_eq!(q, "\"rust\" \"ownership\""),
        _ => panic!("expected a full-text search"),
    }
    match memo_query("say\"hi") {
        MemoQuery::FullText(q) => assert_eq!(q, "\"say\"\"hi\""),
        _ => panic!("expected a full-text search"),
    }
}

#[test]
fn limits_are_clamped() {
    assert_eq!(list_limit(None, 10, 50), 10);
    assert_eq!(list_limit(Some(999), 10, 50), 50);
    assert_eq!(list_limit(Some(-3), 10, 50), 1);
    assert_eq!(list_limit(Some(120), 50, 200), 120);
    assert_eq!(search_limit(None), 10);
    assert_eq!(search_limit(Some(0)), 1);
    assert_eq!(search_limit(Some(70)), 50);
}

#[test]
fn relation_types() {
    assert_eq!(parse_relation_type("REFERENCE").unwrap(), RelationType::Reference);
    assert_eq!(parse_relation_type("COMMENT").unwrap(), RelationType::Comment);
    match parse_relation_type("LIKE") {
        Err(CoreError::Other(m)) => assert_eq!(m, "未知关系类型: LIKE"),
        _ => panic!("expected error"),
    }
}

#[test]
fn card_defaults_and_messages() {
    let c = CardInput {
        memo_uid: Some("uid1".to_string()),
        card_type: None,
        front: Some("q".to_string()),
        back: None,
        cloze_answer: Some("a".to_string()),
        angle: None,
    };
    let n = card_from_input(&c).unwrap();
    assert_eq!(n.card_type, "basic");
    assert_eq!(n.back, "");
    assert_eq!(n.angle, "");
    assert_eq!(n.cloze_answer, Some("a".to_string()));
    let missing = CardInput { memo_uid: None, ..c };
    assert_eq!(card_from_input(&missing).unwrap_err(), "跳过无效卡片：memo_uid 或 front 为空");
    assert_eq!(card_store_error("uid9", "boom"), "card memo_uid=uid9: boom");
}

#[test]
fn required_arguments() {
    match require_arg(None, "uid") {
        Err(CoreError::Other(m)) => assert_eq!(m, "缺少 uid 参数"),
        _ => panic!("expected error"),
    }
    assert_eq!(require_arg(Some("x".to_string()), "uid").unwrap(), "x");
    match deck_id_arg(None) {
        Err(CoreError::Other(m)) => assert_eq!(m, "缺少 deck_id 参数"),
        _ => panic!("expected error"),
    }
    assert_eq!(deck_id_arg(Some(7)).unwrap(), 7);
    assert_eq!(deck_id_arg(Some((1i64 << 32) + 5)).unwrap(), 5);
}

#[test]
fn load_skill_answers() {
    let s = Skill {
        id: "b-x".to_string(),
        name: "X".to_string(),
        description: "d".to_string(),
        tools: vec![],
        body: "body".to_string(),
        enabled: true,
        source: SkillSource::BuiltIn,
        created_ts: 0,
        updated_ts: 0,
    };
    match load_skill_outcome(Some(s.clone())) {
        LoadedSkill::Found { id, name, body } => {
            assert_eq!(id, "b-x");
            assert_eq!(name, "X");
            assert_eq!(body, "body");
        }
        _ => panic!("expected found"),
    }
    let off = Skill { enabled: false, ..s };
    match load_skill_outcome(Some(off)) {
        LoadedSkill::Unavailable(m) => assert_eq!(m, "skill not found or disabled"),
        _ => panic!("expected unavailable"),
    }
    assert!(matches!(load_skill_outcome(None), LoadedSkill::Unavailable(_)));
}

#[test]
fn test_create_memo_missing_content() {
    // `create_memo` without a `content` argument
    assert!(require_arg(None, "content").is_err());
}

#[test]
fn test_update_memo_missing_uid() {
    // `update_memo` without a `uid` argument
    assert!(require_arg(None, "uid").is_err());
}

#[test]
fn test_link_memos_invalid_type() {
    assert!(parse_relation_type("INVALID").is_err());
}

#[test]
fn definitions_follow_enabled_tools_in_order() {
    let a = user_tool("tool_a", true);
    let mut b = user_tool("tool_b", false);
    b.id = "u-b".to_string();
    let mut c = user_tool("tool_c", true);
    c.id = "u-c".to_string();
    c.permission = Permission::Dangerous;
    let defs = tool_definitions(&vec![a, b, c]);
    let base = tool_definitions(&vec![]);
    assert_eq!(defs.len(), 12);
    for i in 0..10 {
        assert_eq!(defs[i].name, base[i].name);
    }
    assert_eq!(defs[10].name, "tool_a");
    assert_eq!(defs[11].name, "tool_c");
    assert!(defs[11].description.starts_with("test\n\n[权限等级: dangerous]"));
    assert!(defs[11].description.contains("`echo hi`"));
    assert!(defs[11].parameters.contains("\"required\":[\"command\"]"));
}

#[test]
fn review_batch_without_cards_needs_no_deck() {
    match review_cards_answer(7, false, None, &vec![]) {
        Ok(ReviewCardsAnswer::Empty { deck_id }) => assert_eq!(deck_id, 7),
        other => panic!("unexpected {:?}", other),
    }
}

#[test]
fn review_batch_with_unknown_deck() {
    match review_cards_answer(-3, true, None, &vec![]) {
        Err(CoreError::NotFound(m)) => assert_eq!(m, "deck id=-3"),
        other => panic!("unexpected {:?}", other),
    }
    match deck_not_found(42) {
        CoreError::NotFound(m) => assert_eq!(m, "deck id=42"),
        other => panic!("unexpected {:?}", other),
    }
}

#[test]
fn review_batch_counts_and_reports_in_order() {
    let outcomes = vec![
        CardOutcome::Stored,
        CardOutcome::Skipped("跳过无效卡片：memo_uid 或 front 为空".to_string()),
        CardOutcome::Stored,
        CardOutcome::StoreFailed { memo_uid: "m-9".to_string(), error: "constraint".to_string() },
    ];
    match review_cards_answer(5, true, Some((5, "Deck".to_string())), &outcomes) {
        Ok(ReviewCardsAnswer::Done { inserted, deck_id, deck_name, errors }) => {
            assert_eq!(inserted, 2);
            assert_eq!(deck_id, 5);
            assert_eq!(deck_name, "Deck");
            assert_eq!(
                errors,
                vec!["跳过无效卡片：memo_uid 或 front 为空".to_string(), "card memo_uid=m-9: constraint".to_string()]
            );
        }
        other => panic!("unexpected {:?}", other),
    }
    let (n, errs) = summarize_cards(&vec![CardOutcome::Stored, CardOutcome::Stored]);
    assert_eq!(n, 2);
    assert!(errs.is_empty());
}

#[test]
fn user_tool_asks_only_where_the_level_needs_it() {
    let read_only = user_tool("t", true);
    assert!(matches!(user_tool_step(&read_only, UserToolEvent::Start), UserToolAction::Run));
    let mut writable = user_tool("t", true);
    writable.permission = Permission::Writable;
    assert!(matches!(user_tool_step(&writable, UserToolEvent::Start), UserToolAction::Run));
    let mut exec = user_tool("t", true);
    exec.permission = Permission::Executable;
    assert!(matches!(user_tool_step(&exec, UserToolEvent::Start), UserToolAction::AskConfirmation));
    let mut danger = user_tool("t", true);
    danger.permission = Permission::Dangerous;
    assert!(matches!(user_tool_step(&danger, UserToolEvent::Start), UserToolAction::AskConfirmation));
    assert!(matches!(user_tool_step(&danger, UserToolEvent::Confirmed(true)), UserToolAction::Run));
    match user_tool_step(&danger, UserToolEvent::Confirmed(false)) {
        UserToolAction::Answer(UserToolAnswer::Denied { tool_name, permission }) => {
            assert_eq!(tool_name, "t");
            assert_eq!(permission, Permission::Dangerous);
        }
        other => panic!("unexpected {:?}", other),
    }
    match user_tool_step(&danger, UserToolEvent::ConfirmFailed("emit failed: x".to_string())) {
        UserToolAction::Fail(CoreError::Other(m)) => assert_eq!(m, "确认失败: emit failed: x"),
        other => panic!("unexpected {:?}", other),
    }
}

#[test]
fn user_tool_failures_and_output() {
    let t = user_tool("t", true);
    let message = |e: UserToolEvent| match user_tool_step(&t, e) {
        UserToolAction::Answer(UserToolAnswer::Error { message, tool_name, .. }) => {
            assert_eq!(tool_name, "t");
            message
        }
        other => panic!("unexpected {:?}", other),
    };
    assert_eq!(message(UserToolEvent::SpawnFailed("no sh".to_string())), "spawn failed: no sh");
    assert_eq!(message(UserToolEvent::WaitFailed("io".to_string())), "wait failed: io");
    assert_eq!(message(UserToolEvent::TimedOut), "timeout after 30000ms");
    let exited = UserToolEvent::Exited { stdout: "out\n".to_string(), stderr: "e1\r\ne2".to_string(), code: Some(3) };
    match user_tool_step(&t, exited) {
        UserToolAction::Answer(UserToolAnswer::Output { output, exit_code, permission, .. }) => {
            assert_eq!(output, "out\n[stderr] e1\n[stderr] e2\n");
            assert_eq!(exit_code, 3);
            assert_eq!(permission, Permission::ReadOnly);
        }
        other => panic!("unexpected {:?}", other),
    }
    let killed = UserToolEvent::Exited { stdout: String::new(), stderr: String::new(), code: None };
    match user_tool_step(&t, killed) {
        UserToolAction::Answer(UserToolAnswer::Output { output, exit_code, .. }) => {
            assert_eq!(output, "");
            assert_eq!(exit_code, -1);
        }
        other => panic!("unexpected {:?}", other),
    }
}
