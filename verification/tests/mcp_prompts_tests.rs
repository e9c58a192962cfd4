use memos_app::mcp_prompts::{
    format_memos_as_context, initialize_info, memo_not_found, memo_resource_description, memo_resource_uri,
    prompt_message, prompt_templates, render_gather_by_tag, render_review_due, render_summarize_recent, DueCard,
    DueDeck, MemoContext,
};
use memos_app::mcp::{METHOD_NOT_FOUND, PROTOCOL_VERSION, SERVER_NAME};

fn memo(uid: &str, tags: Vec<&str>, snippet: &str) -> MemoContext {
    MemoContext {
        uid: uid.to_string(),
        created_ts: 0,
        tags: tags.into_iter().map(|t| t.to_string()).collect(),
        snippet: snippet.to_string(),
    }
}

fn card(ty: &str, front: &str, back: &str, cloze: Option<&str>) -> DueCard {
    DueCard {
        card_type: ty.to_string(),
        front: front.to_string(),
        back: back.to_string(),
        cloze_answer: cloze.map(|c| c.to_string()),
    }
}

#[test]
fn test_format_memos_as_context_empty() {
    let empty: Vec<MemoContext> = vec![];
    let s = format_memos_as_context(&empty, "最近笔记");
    assert!(s.contains("无内容"));
}

#[test]
fn context_block_lists_memos() {
    let memos = vec![memo("u1", vec!["rust", "notes"], "hello"), memo("u2", vec![], "bye")];
    let s = format_memos_as_context(&memos, "T");
    assert_eq!(s, "## T\n- **u1**（1970-01-01 00:00 · #rust #notes）\n  hello\n- **u2**（1970-01-01 00:00）\n  bye");
    assert_eq!(format_memos_as_context(&vec![], "T"), "（T：无内容）");
}

#[test]
fn review_due_prompt() {
    assert_eq!(
        render_review_due(&vec![]),
        "当前没有任何复习牌组，请先在 LocalFragNote 中创建牌组并生成卡片。"
    );
    let empty_deck = DueDeck { name: "E".to_string(), cards: vec![] };
    assert_eq!(render_review_due(&vec![empty_deck.clone()]), "当前没有到期的复习卡片。");
    let deck = DueDeck {
        name: "Rust".to_string(),
        cards: vec![card("basic", "Q1", "A1", None), card("cloze", "Q2 {{}}", "B", Some("所有权"))],
    };
    let other = DueDeck { name: "Go".to_string(), cards: vec![card("cloze", "Q3", "B3", None)] };
    let text = render_review_due(&vec![deck, empty_deck, other]);
    let expected = "以下是我今天到期的 3 张复习卡片。请：\n1. 逐条出题考我（先遮住答案，等我回答后再判定）\n2. 对每张卡给出掌握度评分（again/hard/good/easy）\n3. 全部结束后给出本次复习总结\n\n## 牌组：Rust（2 张到期）\n1. [basic] Q1\n   答：A1\n2. [cloze] Q2 {{}}\n   答：所有权\n\n## 牌组：Go（1 张到期）\n1. [cloze] Q3\n   答：_____";
    assert_eq!(text, expected);
}

#[test]
fn summarize_and_gather_prompts() {
    let memos = vec![memo("u1", vec![], "s")];
    let r = render_summarize_recent(&memos);
    assert!(r.starts_with("请阅读以下我最近的 1 条笔记，输出：\n1. 主要主题与关注点"));
    assert!(r.ends_with("## 最近笔记\n- **u1**（1970-01-01 00:00）\n  s"));
    assert_eq!(render_gather_by_tag("rust", &vec![]), "没有找到带 #rust 标签的笔记。");
    let g = render_gather_by_tag("rust", &memos);
    assert!(g.starts_with("以下是我所有带 #rust 标签的 1 条笔记。请："));
    assert!(g.ends_with("## #rust 相关笔记\n- **u1**（1970-01-01 00:00）\n  s"));
}

#[test]
fn resource_texts() {
    assert_eq!(memo_resource_uri("abc"), "memo://abc");
    assert_eq!(memo_resource_description(42, "abc"), "memo #42 · abc");
    let (code, m) = memo_not_found("zz");
    assert_eq!(code, METHOD_NOT_FOUND);
    assert_eq!(m, "找不到 uid=zz 对应的 memo");
}

#[test]
fn test_initialize_response() {
    let result = initialize_info();
    assert_eq!(result.protocol_version, PROTOCOL_VERSION);
    assert!(!result.tools_list_changed);
    assert_eq!(result.server_name, SERVER_NAME);
}

#[test]
fn test_initialize_declares_resources_and_prompts() {
    let result = initialize_info();
    assert_eq!(result.resources_list_changed, false);
    assert_eq!(result.resources_subscribe, false);
    assert_eq!(result.prompts_list_changed, false);
}

#[test]
fn test_prompts_list_returns_three_templates() {
    let prompts = prompt_templates();
    assert_eq!(prompts.len(), 3);
    let names: Vec<&str> = prompts.iter().map(|p| p.name.as_str()).collect();
    assert!(names.contains(&"summarize_recent"));
    assert!(names.contains(&"gather_by_tag"));
    assert!(names.contains(&"review_due"));
}

#[test]
fn test_prompts_list_gather_by_tag_has_required_tag_arg() {
    let prompts = prompt_templates();
    let gather = prompts.iter().find(|p| p.name == "gather_by_tag").unwrap();
    let args = &gather.arguments;
    assert_eq!(args.len(), 1);
    assert_eq!(args[0].name, "tag");
    assert_eq!(args[0].required, true);
}

#[test]
fn test_prompt_response_structure() {
    let v = prompt_message("hello".to_string());
    assert_eq!(v.role, "user");
    assert_eq!(v.content_type, "text");
    assert_eq!(v.text, "hello");
}
