use memos_app::builtin_skills::{load_builtin_skills, parse, strip_quotes};
use memos_app::skill::SkillSource;

#[test]
fn test_parse_valid() {
    let raw = "---\nid: b-test\nname: Test\ndescription: a test\ntools: [a, b]\n---\n# Body\ncontent";
    let s = parse(raw).unwrap();
    assert_eq!(s.id, "b-test");
    assert_eq!(s.name, "Test");
    assert_eq!(s.description, "a test");
    assert_eq!(s.tools, vec!["a".to_string(), "b".to_string()]);
    assert_eq!(s.body, "# Body\ncontent");
}

#[test]
fn test_parse_quoted_description() {
    let raw = "---\nid: b-test\nname: Test\ndescription: \"a quoted test\"\ntools: [\"a\", b]\n---\n# Body";
    let s = parse(raw).unwrap();
    assert_eq!(s.description, "a quoted test");
    assert_eq!(s.tools, vec!["a".to_string(), "b".to_string()]);
}

#[test]
fn test_strip_quotes() {
    assert_eq!(strip_quotes("\"hello\""), "hello");
    assert_eq!(strip_quotes("hello"), "hello");
    assert_eq!(strip_quotes("\"unclosed"), "\"unclosed");
    assert_eq!(strip_quotes(""), "");
}

#[test]
fn test_parse_missing_frontmatter() {
    let raw = "no frontmatter here";
    assert!(parse(raw).is_err());
}

#[test]
fn parse_errors_name_the_missing_part() {
    assert_eq!(parse("no frontmatter").unwrap_err(), "missing frontmatter start delimiter");
    assert_eq!(parse("---\nid: b-x\n").unwrap_err(), "missing frontmatter end delimiter");
    assert_eq!(parse("---\nname: n\ndescription: d\n---\nb").unwrap_err(), "missing id");
    assert_eq!(parse("---\nid: b-x\ndescription: d\n---\nb").unwrap_err(), "missing name");
    assert_eq!(parse("---\nid: b-x\nname: n\n---\nb").unwrap_err(), "missing description");
}

#[test]
fn parsed_skill_is_an_enabled_builtin() {
    let s = parse("  \n---\nid: b-x\nname: N\ndescription: D\n---\n\n\nbody").unwrap();
    assert!(s.enabled);
    assert_eq!(s.source, SkillSource::BuiltIn);
    assert_eq!(s.body, "body");
    assert!(s.tools.is_empty());
    assert_eq!(s.created_ts, 0);
}

#[test]
fn strip_quotes_trims_first() {
    assert_eq!(strip_quotes("  \"x\"  "), "x");
    assert_eq!(strip_quotes("\""), "\"");
    assert_eq!(strip_quotes("\"\""), "");
}

#[test]
fn loading_keeps_only_parsed_b_ids() {
    let files = vec![
        ("ok".to_string(), "---\nid: b-one\nname: One\ndescription: d\n---\nx".to_string()),
        ("user".to_string(), "---\nid: u-two\nname: Two\ndescription: d\n---\nx".to_string()),
        ("broken".to_string(), "nothing".to_string()),
        ("ok2".to_string(), "---\nid: b-three\nname: Three\ndescription: d\ntools: [officecli]\n---\nx".to_string()),
    ];
    let skills = load_builtin_skills(&files);
    let ids: Vec<&str> = skills.iter().map(|s| s.id.as_str()).collect();
    assert_eq!(ids, vec!["b-one", "b-three"]);
    assert!(skills.iter().all(|s| s.id.starts_with("b-")));
    assert_eq!(skills[1].tools, vec!["officecli".to_string()]);
}

#[test]
fn enabled_field_switches_a_skill_off() {
    let raw = "---\nid: b-x\nname: X\ndescription: d\ntools: []\nenabled: false\n---\nbody";
    let s = parse(raw).unwrap();
    assert_eq!(s.id, "b-x");
    assert!(s.tools.is_empty());
    assert!(!s.enabled);
    let quoted = "---\nid: b-x\nname: X\ndescription: d\nenabled: \"False\"\n---\nbody";
    assert!(!parse(quoted).unwrap().enabled);
    let on = "---\nid: b-x\nname: X\ndescription: d\nenabled: true\n---\nbody";
    assert!(parse(on).unwrap().enabled);
    let later_wins = "---\nid: b-x\nname: X\ndescription: d\nenabled: FALSE\nenabled: yes\n---\nbody";
    assert!(parse(later_wins).unwrap().enabled);
}

#[test]
fn enabled_field_defaults_to_on() {
    let raw = "---\nid: b-x\nname: X\ndescription: d\n---\nbody";
    assert!(parse(raw).unwrap().enabled);
}
