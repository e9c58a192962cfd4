use memos_app::skill::{
    check_delete, disabled_from_setting, disabled_list_json, get, is_builtin_skill_id, list, list_enabled,
    missing_skill_error, prepare_create, prepare_update, set_enabled_builtin, strings_from_json, tools_json,
    update_disabled, Skill, SkillSource,
};
use memos_app::error::CoreError;

fn sample_builtin() -> Vec<Skill> {
    vec![Skill {
        id: "b-test".to_string(),
        name: "Test Builtin".to_string(),
        description: "builtin desc".to_string(),
        tools: vec!["list_memos".to_string()],
        body: "# Builtin\n...".to_string(),
        enabled: true,
        source: SkillSource::BuiltIn,
        created_ts: 0,
        updated_ts: 0,
    }]
}

fn user_skill(id: &str, name: &str) -> Skill {
    Skill {
        id: id.to_string(),
        name: name.to_string(),
        description: "d".to_string(),
        tools: vec![],
        body: "b".to_string(),
        enabled: true,
        source: SkillSource::User,
        created_ts: 0,
        updated_ts: 0,
    }
}

#[test]
fn test_create_and_get_user_skill() {
    let s = Skill {
        id: "u-my".to_string(),
        name: "My".to_string(),
        description: "desc".to_string(),
        tools: vec!["create_memo".to_string()],
        body: "# body".to_string(),
        enabled: true,
        source: SkillSource::User,
        created_ts: 0,
        updated_ts: 0,
    };
    let created = prepare_create(s.clone()).unwrap();
    assert_eq!(created.id, "u-my");
    assert!(created.created_ts > 0);

    // the store gives back the created record under its id
    let got = get(&vec![], &vec![], "u-my", Some(created)).unwrap();
    assert_eq!(got.name, "My");
    assert_eq!(got.tools, vec!["create_memo".to_string()]);
}

#[test]
fn skill_test_create_rejects_non_u_prefix() {
    let s = Skill {
        id: "bad".to_string(),
        name: "n".to_string(),
        description: "d".to_string(),
        tools: vec![],
        body: "b".to_string(),
        enabled: true,
        source: SkillSource::User,
        created_ts: 0,
        updated_ts: 0,
    };
    assert!(prepare_create(s).is_err());
}

#[test]
fn test_list_merges_builtin_and_user() {
    let builtin = sample_builtin();
    let alpha = prepare_create(user_skill("u-alpha", "Alpha")).unwrap();
    let all = list(&builtin, &vec![], vec![alpha]);
    assert_eq!(all.len(), 2);
    assert_eq!(all[0].name, "Alpha");
    assert_eq!(all[1].name, "Test Builtin");
}

#[test]
fn test_update_builtin_rejected() {
    let s = Skill {
        id: "b-test".to_string(),
        name: "n".to_string(),
        description: "d".to_string(),
        tools: vec![],
        body: "b".to_string(),
        enabled: true,
        source: SkillSource::BuiltIn,
        created_ts: 0,
        updated_ts: 0,
    };
    assert!(prepare_update(s).is_err());
}

#[test]
fn test_delete_builtin_rejected() {
    assert!(check_delete("b-test").is_err());
}

#[test]
fn test_set_enabled_builtin_ok() {
    // disable the built-in skill
    assert!(is_builtin_skill_id("b-test"));
    let stored = set_enabled_builtin(None, "b-test", false).unwrap();
    let builtin = sample_builtin();
    let all = list(&builtin, &disabled_from_setting(Some(&stored)), vec![]);
    let b = all.iter().find(|s| s.id == "b-test").unwrap();
    assert!(!b.enabled);

    // enable it again
    let stored = set_enabled_builtin(Some(&stored), "b-test", true).unwrap();
    let all = list(&builtin, &disabled_from_setting(Some(&stored)), vec![]);
    let b = all.iter().find(|s| s.id == "b-test").unwrap();
    assert!(b.enabled);
}

#[test]
fn test_get_not_found() {
    assert!(get(&vec![], &vec![], "nonexistent", None).is_none());
}

#[test]
fn list_sorts_by_name_and_keeps_equal_names_in_order() {
    let a1 = user_skill("u-1", "Same");
    let z = user_skill("u-2", "Zed");
    let a2 = user_skill("u-3", "Same");
    let b = user_skill("u-4", "Alpha");
    let all = list(&vec![], &vec![], vec![a1, z, a2, b]);
    let ids: Vec<&str> = all.iter().map(|s| s.id.as_str()).collect();
    assert_eq!(ids, vec!["u-4", "u-1", "u-3", "u-2"]);
}

#[test]
fn list_enabled_drops_disabled_skills() {
    let builtin = sample_builtin();
    let mut off = user_skill("u-off", "Off");
    off.enabled = false;
    let on = user_skill("u-on", "On");
    let r = list_enabled(&builtin, &vec!["b-test".to_string()], vec![off, on]);
    assert_eq!(r.len(), 1);
    assert_eq!(r[0].id, "u-on");
}

#[test]
fn builtin_found_before_stored_record() {
    let builtin = sample_builtin();
    let stored = user_skill("b-test", "Shadow");
    let got = get(&builtin, &vec!["b-test".to_string()], "b-test", Some(stored)).unwrap();
    assert_eq!(got.name, "Test Builtin");
    assert!(!got.enabled);
}

#[test]
fn disabled_list_updates() {
    let l = vec!["b-a".to_string(), "b-b".to_string(), "b-a".to_string()];
    assert_eq!(update_disabled(l.clone(), "b-a", true), vec!["b-b".to_string()]);
    assert_eq!(update_disabled(l.clone(), "b-b", false), l);
    assert_eq!(update_disabled(vec![], "b-c", false), vec!["b-c".to_string()]);
}

#[test]
fn tools_json_reads_back() {
    let tools = vec!["a".to_string(), "引号\"".to_string(), String::new()];
    let json = tools_json(&tools).unwrap();
    assert_eq!(json, "[\"a\",\"引号\\\"\",\"\"]");
    assert_eq!(strings_from_json(&json), tools);
    assert_eq!(disabled_list_json(&vec![]).unwrap(), "[]");
}

#[test]
fn unreadable_stored_lists_give_nothing() {
    assert!(strings_from_json("not json").is_empty());
    assert!(strings_from_json("[1, 2]").is_empty());
    assert!(disabled_from_setting(None).is_empty());
    assert_eq!(disabled_from_setting(Some("[\"b-x\"]")), vec!["b-x".to_string()]);
}

#[test]
fn create_and_update_stamp_times() {
    let c = prepare_create(user_skill("u-x", "X")).unwrap();
    assert_eq!(c.created_ts, c.updated_ts);
    assert_eq!(c.source, SkillSource::User);
    let mut u = c.clone();
    u.created_ts = 5;
    let u = prepare_update(u).unwrap();
    assert_eq!(u.created_ts, 5);
    assert!(u.updated_ts > 0);
}

#[test]
fn skill_error_messages() {
    match prepare_create(user_skill("x", "X")) {
        Err(CoreError::Other(m)) => assert_eq!(m, "用户 skill id 必须以 u- 开头"),
        _ => panic!("expected error"),
    }
    match check_delete("b-x") {
        Err(CoreError::Other(m)) => assert_eq!(m, "built-in skill is read-only"),
        _ => panic!("expected error"),
    }
    assert!(check_delete("u-x").is_ok());
    match missing_skill_error("u-q") {
        CoreError::Other(m) => assert_eq!(m, "skill u-q 不存在"),
        _ => panic!("expected Other"),
    }
}
