use memos_app::mcp::{
    answer_hint, check_tool_call_name, format_ts, is_notification, memo_uid_from_uri, parse_arg_i32,
    parse_arg_string, prompt_request, route_method, Arg, ArgValue, Method, PromptRequest, INVALID_PARAMS,
    METHOD_NOT_FOUND, response_owed,
};

fn args(pairs: Vec<(&str, ArgValue)>) -> Vec<Arg> {
    pairs.into_iter().map(|(k, v)| Arg { key: k.to_string(), value: v }).collect()
}

#[test]
fn test_handle_unknown_method() {
    let (code, message) = route_method("unknown/method").unwrap_err();
    assert_eq!(code, METHOD_NOT_FOUND);
    assert_eq!(message, "未知方法: unknown/method");
}

#[test]
fn test_parse_arg_i32_uses_default_when_missing() {
    let a = args(vec![]);
    assert_eq!(parse_arg_i32(&a, "limit", 10, 1, 50).unwrap(), 10);
}

#[test]
fn test_parse_arg_i32_clamps_to_range() {
    let a = args(vec![("limit", ArgValue::Integer(999))]);
    assert_eq!(parse_arg_i32(&a, "limit", 10, 1, 50).unwrap(), 50);
    let a = args(vec![("limit", ArgValue::Integer(-5))]);
    assert_eq!(parse_arg_i32(&a, "limit", 10, 1, 50).unwrap(), 1);
}

#[test]
fn test_parse_arg_i32_rejects_non_integer() {
    let a = args(vec![("limit", ArgValue::Text("abc".to_string()))]);
    assert!(parse_arg_i32(&a, "limit", 10, 1, 50).is_err());
}

#[test]
fn test_parse_arg_string_returns_none_when_missing() {
    let a = args(vec![]);
    assert!(parse_arg_string(&a, "tag", true).unwrap().is_none());
}

#[test]
fn test_parse_arg_string_trims_when_required() {
    let a = args(vec![("tag", ArgValue::Text("  rust  ".to_string()))]);
    let s = parse_arg_string(&a, "tag", true).unwrap().unwrap();
    assert_eq!(s, "rust");
}

#[test]
fn test_parse_arg_string_rejects_non_string() {
    let a = args(vec![("tag", ArgValue::Integer(42))]);
    assert!(parse_arg_string(&a, "tag", true).is_err());
}

#[test]
fn test_format_ts_falls_back_to_raw_for_invalid() {
    let s = format_ts(i64::MAX);
    assert!(s.parse::<i64>().is_ok(), "falls back to the number");
}

#[test]
fn format_ts_exact_values() {
    assert_eq!(format_ts(0), "1970-01-01 00:00");
    assert_eq!(format_ts(1_700_000_000), "2023-11-14 22:13");
    assert_eq!(format_ts(i64::MIN), i64::MIN.to_string());
}

#[test]
fn argument_messages() {
    let a = args(vec![("limit", ArgValue::Other), ("tag", ArgValue::Null)]);
    let (code, m) = parse_arg_i32(&a, "limit", 10, 1, 50).unwrap_err();
    assert_eq!(code, INVALID_PARAMS);
    assert_eq!(m, "参数 limit 必须是整数");
    assert!(parse_arg_string(&a, "tag", false).unwrap().is_none());
    let a = args(vec![("tag", ArgValue::Text(" x ".to_string())), ("tag", ArgValue::Integer(1))]);
    assert_eq!(parse_arg_string(&a, "tag", false).unwrap().unwrap(), " x ");
    let a = args(vec![("tag", ArgValue::Other)]);
    assert_eq!(parse_arg_string(&a, "tag", true).unwrap_err().1, "参数 tag 必须是字符串");
    let a = args(vec![("limit", ArgValue::Integer(1i64 << 32 | 7))]);
    assert_eq!(parse_arg_i32(&a, "limit", 10, 1, 50).unwrap(), 7);
}

#[test]
fn method_routing() {
    assert_eq!(route_method("initialize").unwrap(), Method::Initialize);
    assert_eq!(route_method("tools/call").unwrap(), Method::ToolsCall);
    assert_eq!(route_method("logging/setLevel").unwrap(), Method::LoggingSetLevel);
    assert!(is_notification(route_method("notifications/initialized").unwrap()));
    assert!(!is_notification(Method::Ping));
}

#[test]
fn prompt_requests() {
    match prompt_request("summarize_recent", &args(vec![])).unwrap() {
        PromptRequest::SummarizeRecent(n) => assert_eq!(n, 10),
        _ => panic!("wrong template"),
    }
    match prompt_request("review_due", &args(vec![("limit", ArgValue::Integer(80))])).unwrap() {
        PromptRequest::ReviewDue(n) => assert_eq!(n, 50),
        _ => panic!("wrong template"),
    }
    match prompt_request("gather_by_tag", &args(vec![("tag", ArgValue::Text(" rust ".to_string()))])).unwrap() {
        PromptRequest::GatherByTag(t) => assert_eq!(t, "rust"),
        _ => panic!("wrong template"),
    }
    assert_eq!(prompt_request("gather_by_tag", &args(vec![])).unwrap_err().1, "tag 参数缺失");
    assert_eq!(prompt_request("", &args(vec![])).unwrap_err().1, "name 不能为空");
    let (code, m) = prompt_request("nope", &args(vec![])).unwrap_err();
    assert_eq!(code, METHOD_NOT_FOUND);
    assert_eq!(m, "未知 prompt: nope");
}

#[test]
fn memo_addresses() {
    assert_eq!(memo_uid_from_uri("memo://abc").unwrap(), "abc");
    assert_eq!(memo_uid_from_uri("").unwrap_err().1, "uri 不能为空");
    assert_eq!(memo_uid_from_uri("http://x").unwrap_err().1, "不支持的 uri，必须以 memo:// 开头");
    assert_eq!(memo_uid_from_uri("memo://").unwrap_err().1, "uri 中缺少 uid");
}

#[test]
fn tool_call_names_and_hints() {
    assert!(check_tool_call_name("").is_err());
    assert!(check_tool_call_name("list_memos").is_ok());
    assert_eq!(answer_hint("cloze", Some("所有权"), "b"), "所有权");
    assert_eq!(answer_hint("cloze", None, "b"), "_____");
    assert_eq!(answer_hint("basic", Some("a"), "back"), "back");
}

#[test]
fn notifications_get_no_response() {
    assert!(response_owed(true, "tools/list"));
    assert!(response_owed(true, "no/such"));
    assert!(!response_owed(false, "tools/list"));
    assert!(!response_owed(false, "no/such"));
    assert!(!response_owed(true, "notifications/initialized"));
}
