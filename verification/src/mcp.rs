//! The MCP server's JSON-RPC rules: method routing, error codes, argument
//! checks of prompts, and the `memo://` resource addresses.

use vstd::prelude::*;
use crate::text::{str_eq, chars_of, chars_eq, concat2, concat3, owned, trim, trim_range, string_of, is_prefix,
    starts_with, signed_decimal, signed_decimal_string};

verus! {

pub const PARSE_ERROR: i32 = -32700;
pub const INVALID_REQUEST: i32 = -32600;
pub const METHOD_NOT_FOUND: i32 = -32601;
pub const INVALID_PARAMS: i32 = -32602;
pub const INTERNAL_ERROR: i32 = -32603;

/// The protocol version the server speaks.
pub const PROTOCOL_VERSION: &'static str = "2025-03-26";
/// The server's name in `initialize`.
pub const SERVER_NAME: &'static str = "LocalFragNote MCP";

/// The methods the server knows.
#[derive(Debug, Clone, Copy, PartialEq, Eq, Structural)]
pub enum Method {
    Initialize,
    Initialized,
    Ping,
    ToolsList,
    ToolsCall,
    ResourcesList,
    ResourcesRead,
    PromptsList,
    PromptsGet,
    LoggingSetLevel,
}

/// The method names, in the order of `methods()`.
pub open spec fn method_names() -> Seq<Seq<char>> {
    seq![
        "initialize"@, "notifications/initialized"@, "ping"@, "tools/list"@, "tools/call"@,
        "resources/list"@, "resources/read"@, "prompts/list"@, "prompts/get"@, "logging/setLevel"@,
    ]
}

/// The methods, in the order of `method_names()`.
pub open spec fn methods() -> Seq<Method> {
    seq![
        Method::Initialize, Method::Initialized, Method::Ping, Method::ToolsList, Method::ToolsCall,
        Method::ResourcesList, Method::ResourcesRead, Method::PromptsList, Method::PromptsGet,
        Method::LoggingSetLevel,
    ]
}

/// A JSON-RPC error: its code and message.
pub open spec fn is_rpc_error(e: (i32, String), code: i32, m: Seq<char>) -> bool {
    e.0 == code && e.1@ == m
}

/// The method called `name`, or the "method not found" error.
pub fn route_method(name: &str) -> (r: Result<Method, (i32, String)>)
    ensures
        forall|i: int| 0 <= i < 10 ==> (name@ == #[trigger] method_names()[i] ==> r == Ok::<Method, (i32, String)>(methods()[i])),
        !method_names().contains(name@) ==> (r matches Err(e) && is_rpc_error(e, METHOD_NOT_FOUND, "未知方法: "@ + name@)),
{
    let v = chars_of(name);
    let names: [&str; 10] = [
        "initialize", "notifications/initialized", "ping", "tools/list", "tools/call",
        "resources/list", "resources/read", "prompts/list", "prompts/get", "logging/setLevel",
    ];
    let ms: [Method; 10] = [
        Method::Initialize, Method::Initialized, Method::Ping, Method::ToolsList, Method::ToolsCall,
        Method::ResourcesList, Method::ResourcesRead, Method::PromptsList, Method::PromptsGet,
        Method::LoggingSetLevel,
    ];
    assert(ms@ =~= methods());
    proof { lemma_method_names_distinct(); }
    for i in 0..10
        invariant
            ms@ == methods(),
            forall|k: int| 0 <= k < 10 ==> (#[trigger] names@[k])@ == method_names()[k],
            forall|k: int| 0 <= k < i ==> name@ != #[trigger] method_names()[k],
            v@ == name@,
            forall|a: int, b: int| 0 <= a < 10 && 0 <= b < 10 && a != b
                ==> #[trigger] method_names()[a] != #[trigger] method_names()[b],
    {
        if chars_eq(&v, &chars_of(names[i])) {
            return Ok(ms[i]);
        }
    }
    Err((METHOD_NOT_FOUND, concat2("未知方法: ", name)))
}

proof fn lemma_method_names_distinct()
    ensures
        forall|a: int, b: int| 0 <= a < 10 && 0 <= b < 10 && a != b
            ==> #[trigger] method_names()[a] != #[trigger] method_names()[b],
{
    reveal_strlit("initialize");
    reveal_strlit("notifications/initialized");
    reveal_strlit("ping");
    reveal_strlit("tools/list");
    reveal_strlit("tools/call");
    reveal_strlit("resources/list");
    reveal_strlit("resources/read");
    reveal_strlit("prompts/list");
    reveal_strlit("prompts/get");
    reveal_strlit("logging/setLevel");
    assert forall|a: int, b: int| 0 <= a < 10 && 0 <= b < 10 && a != b
        implies #[trigger] method_names()[a] != #[trigger] method_names()[b] by {
        let x = method_names()[a];
        let y = method_names()[b];
        assert(x.len() != y.len() || x[0] != y[0] || x[6] != y[6] || x[10] != y[10]);
    }
}

/// Whether a call of `m` is a notification, which gets no response.
pub fn is_notification(m: Method) -> (r: bool)
    ensures
        r == (m == Method::Initialized),
{
    m == Method::Initialized
}

/// Whether a message is answered: a notification (a message without an id)
/// never is, nor is `notifications/initialized`; every other request is,
/// with its result or its error.
pub fn response_owed(has_id: bool, method: &str) -> (r: bool)
    ensures
        r == (has_id && method@ != "notifications/initialized"@),
{
    has_id && !str_eq(method, "notifications/initialized")
}

/// An argument value as the prompt handlers read it.
#[derive(Debug, Clone)]
pub enum ArgValue {
    Null,
    /// A number that fits in an `i64`.
    Integer(i64),
    Text(String),
    /// Any other JSON value.
    Other,
}

/// One named argument.
#[derive(Debug, Clone)]
pub struct Arg {
    pub key: String,
    pub value: ArgValue,
}

/// The first argument named `key`, if any.
pub open spec fn lookup(args: Seq<Arg>, key: Seq<char>) -> Option<ArgValue>
    decreases args.len(),
{
    if args.len() == 0 {
        None
    } else if args[0].key@ == key {
        Some(args[0].value)
    } else {
        lookup(args.drop_first(), key)
    }
}

fn find_arg<'a>(args: &'a Vec<Arg>, key: &str) -> (r: Option<&'a ArgValue>)
    ensures
        match lookup(args@, key@) {
            None => r is None,
            Some(v) => r == Some(&v),
        },
{
    let kv = chars_of(key);
    let n = args.len();
    assert(args@.skip(0) =~= args@);
    for i in 0..n
        invariant
            n == args@.len(),
            kv@ == key@,
            lookup(args@, key@) == lookup(args@.skip(i as int), key@),
    {
        assert(args@.skip(i as int)[0] == args@[i as int]);
        assert(args@.skip(i as int).drop_first() =~= args@.skip(i + 1));
        if chars_eq(&chars_of(args[i].key.as_str()), &kv) {
            return Some(&args[i].value);
        }
    }
    None
}

/// `n` kept within `[lo, hi]` (`Ord::clamp`).
pub open spec fn clamp(n: i32, lo: i32, hi: i32) -> i32 {
    if n < lo { lo } else if n > hi { hi } else { n }
}

/// An integer argument: the default when missing or null; an integer cast
/// to `i32` (as `as` does) and clamped; anything else is refused.
pub fn parse_arg_i32(args: &Vec<Arg>, key: &str, default: i32, min: i32, max: i32) -> (r: Result<i32, (i32, String)>)
    requires
        min <= max,
    ensures
        match lookup(args@, key@) {
            None | Some(ArgValue::Null) => r == Ok::<i32, (i32, String)>(default),
            Some(ArgValue::Integer(n)) => r == Ok::<i32, (i32, String)>(clamp(n as i32, min, max)),
            _ => r matches Err(e) && is_rpc_error(e, INVALID_PARAMS, "参数 "@ + key@ + " 必须是整数"@),
        },
{
    match find_arg(args, key) {
        None | Some(ArgValue::Null) => Ok(default),
        Some(ArgValue::Integer(n)) => {
            let m = *n as i32;
            Ok(if m < min { min } else if m > max { max } else { m })
        },
        _ => Err((INVALID_PARAMS, concat3("参数 ", key, " 必须是整数"))),
    }
}

/// A string argument: `None` when missing or null; the text (trimmed when
/// `trim_required`); anything else is refused.
pub fn parse_arg_string(args: &Vec<Arg>, key: &str, trim_required: bool) -> (r: Result<Option<String>, (i32, String)>)
    ensures
        match lookup(args@, key@) {
            None | Some(ArgValue::Null) => r matches Ok(None),
            Some(ArgValue::Text(s)) => r matches Ok(Some(t)) && t@ == (if trim_required { trim(s@) } else { s@ }),
            _ => r matches Err(e) && is_rpc_error(e, INVALID_PARAMS, "参数 "@ + key@ + " 必须是字符串"@),
        },
{
    match find_arg(args, key) {
        None | Some(ArgValue::Null) => Ok(None),
        Some(ArgValue::Text(s)) => {
            if trim_required {
                let v = chars_of(s.as_str());
                let (a, b) = trim_range(&v, 0, v.len());
                assert(v@.subrange(0, v@.len() as int) =~= s@);
                Ok(Some(string_of(&v, a, b)))
            } else {
                Ok(Some(s.clone()))
            }
        },
        _ => Err((INVALID_PARAMS, concat3("参数 ", key, " 必须是字符串"))),
    }
}

/// The prompt templates, with their checked arguments.
#[derive(Debug, Clone)]
pub enum PromptRequest {
    /// Summarise the most recent memos (how many).
    SummarizeRecent(i32),
    /// Gather the memos with a tag.
    GatherByTag(String),
    /// Quiz on due review cards (how many per deck).
    ReviewDue(i32),
}

/// The template and arguments of a `prompts/get` call.
pub fn prompt_request(name: &str, args: &Vec<Arg>) -> (r: Result<PromptRequest, (i32, String)>)
    ensures
        name@.len() == 0 ==> (r matches Err(e) && is_rpc_error(e, INVALID_PARAMS, "name 不能为空"@)),
        name@ == "summarize_recent"@ ==> match lookup(args@, "limit"@) {
            None | Some(ArgValue::Null) => r matches Ok(PromptRequest::SummarizeRecent(n)) && n == 10,
            Some(ArgValue::Integer(k)) => r matches Ok(PromptRequest::SummarizeRecent(n)) && n == clamp(k as i32, 1, 50),
            _ => r matches Err(e) && is_rpc_error(e, INVALID_PARAMS, "参数 limit 必须是整数"@),
        },
        name@ == "review_due"@ ==> match lookup(args@, "limit"@) {
            None | Some(ArgValue::Null) => r matches Ok(PromptRequest::ReviewDue(n)) && n == 5,
            Some(ArgValue::Integer(k)) => r matches Ok(PromptRequest::ReviewDue(n)) && n == clamp(k as i32, 1, 50),
            _ => r matches Err(e) && is_rpc_error(e, INVALID_PARAMS, "参数 limit 必须是整数"@),
        },
        name@ == "gather_by_tag"@ ==> match lookup(args@, "tag"@) {
            None | Some(ArgValue::Null) => r matches Err(e) && is_rpc_error(e, INVALID_PARAMS, "tag 参数缺失"@),
            Some(ArgValue::Text(s)) => r matches Ok(PromptRequest::GatherByTag(t)) && t@ == trim(s@),
            _ => r matches Err(e) && is_rpc_error(e, INVALID_PARAMS, "参数 tag 必须是字符串"@),
        },
        name@.len() > 0 && name@ != "summarize_recent"@ && name@ != "review_due"@ && name@ != "gather_by_tag"@
            ==> (r matches Err(e) && is_rpc_error(e, METHOD_NOT_FOUND, "未知 prompt: "@ + name@)),
{
    proof {
        reveal_strlit("summarize_recent");
        reveal_strlit("review_due");
        reveal_strlit("gather_by_tag");
        reveal_strlit("参数 ");
        reveal_strlit(" 必须是整数");
        reveal_strlit(" 必须是字符串");
        reveal_strlit("参数 limit 必须是整数");
        reveal_strlit("参数 tag 必须是字符串");
        reveal_strlit("limit");
        reveal_strlit("tag");
        assert("summarize_recent"@[0] != "review_due"@[0]);
        assert("summarize_recent"@[0] != "gather_by_tag"@[0]);
        assert("review_due"@[0] != "gather_by_tag"@[0]);
        assert("参数 "@ + "limit"@ + " 必须是整数"@ =~= "参数 limit 必须是整数"@);
        assert("参数 "@ + "tag"@ + " 必须是字符串"@ =~= "参数 tag 必须是字符串"@);
    }
    let v = chars_of(name);
    if v.len() == 0 {
        return Err((INVALID_PARAMS, owned("name 不能为空")));
    }
    if chars_eq(&v, &chars_of("summarize_recent")) {
        let n = parse_arg_i32(args, "limit", 10, 1, 50)?;
        Ok(PromptRequest::SummarizeRecent(n))
    } else if chars_eq(&v, &chars_of("gather_by_tag")) {
        match parse_arg_string(args, "tag", true)? {
            None => Err((INVALID_PARAMS, owned("tag 参数缺失"))),
            Some(t) => Ok(PromptRequest::GatherByTag(t)),
        }
    } else if chars_eq(&v, &chars_of("review_due")) {
        let n = parse_arg_i32(args, "limit", 5, 1, 50)?;
        Ok(PromptRequest::ReviewDue(n))
    } else {
        Err((METHOD_NOT_FOUND, concat2("未知 prompt: ", name)))
    }
}

/// The prefix of memo resource addresses.
pub open spec fn memo_scheme() -> Seq<char> {
    "memo://"@
}

/// The memo uid in a `resources/read` address `memo://{uid}`, or why the
/// address is refused.
pub fn memo_uid_from_uri(uri: &str) -> (r: Result<String, (i32, String)>)
    ensures
        uri@.len() == 0 ==> (r matches Err(e) && is_rpc_error(e, INVALID_PARAMS, "uri 不能为空"@)),
        uri@.len() > 0 && !is_prefix(memo_scheme(), uri@)
            ==> (r matches Err(e) && is_rpc_error(e, INVALID_PARAMS, "不支持的 uri，必须以 memo:// 开头"@)),
        is_prefix(memo_scheme(), uri@) && uri@.len() == memo_scheme().len()
            ==> (r matches Err(e) && is_rpc_error(e, INVALID_PARAMS, "uri 中缺少 uid"@)),
        is_prefix(memo_scheme(), uri@) && uri@.len() > memo_scheme().len()
            ==> (r matches Ok(u) && u@ == uri@.skip(memo_scheme().len() as int)),
{
    proof { reveal_strlit("memo://"); }
    let v = chars_of(uri);
    if v.len() == 0 {
        return Err((INVALID_PARAMS, owned("uri 不能为空")));
    }
    let scheme = chars_of("memo://");
    assert(v@.subrange(0, v@.len() as int) =~= uri@);
    if !crate::text::chars_starts_with(&v, 0, &scheme) {
        return Err((INVALID_PARAMS, owned("不支持的 uri，必须以 memo:// 开头")));
    }
    if v.len() == 7 {
        return Err((INVALID_PARAMS, owned("uri 中缺少 uid")));
    }
    let u = string_of(&v, 7, v.len());
    assert(v@.subrange(7, v@.len() as int) =~= uri@.skip(7));
    Ok(u)
}

/// The name of a tool in a `tools/call` request must not be empty.
pub fn check_tool_call_name(name: &str) -> (r: Result<(), (i32, String)>)
    ensures
        name@.len() == 0 ==> (r matches Err(e) && is_rpc_error(e, INVALID_PARAMS, "工具 name 不能为空"@)),
        name@.len() > 0 ==> r is Ok,
{
    if name.is_empty() {
        return Err((INVALID_PARAMS, owned("工具 name 不能为空")));
    }
    Ok(())
}

/// What chrono prints for the UTC time `ts` seconds after the epoch with
/// `pattern` (`DateTime::from_timestamp(ts, 0)` then `format`), or `None`
/// when chrono has no date for `ts`.
pub uninterp spec fn chrono_utc_format(ts: i64, pattern: Seq<char>) -> Option<Seq<char>>;

/// `chrono::DateTime::from_timestamp(ts, 0)`, then
/// `DateTime::format(pattern).to_string()`. Only the pattern of time stamps
/// is handed over: chrono panics in `to_string` on a pattern it cannot
/// format.
#[verifier::external_body]
fn format_utc(ts: i64, pattern: &str) -> (r: Option<String>)
    requires
        pattern@ == ts_pattern(),
    ensures
        match chrono_utc_format(ts, pattern@) {
            None => r is None,
            Some(s) => r matches Some(t) && t@ == s,
        },
{
    chrono::DateTime::from_timestamp(ts, 0).map(|dt| dt.format(pattern).to_string())
}

/// The pattern of time stamps in prompt texts.
pub open spec fn ts_pattern() -> Seq<char> {
    "%Y-%m-%d %H:%M"@
}

/// A time stamp as prompt texts show it: `YYYY-MM-DD HH:MM` in UTC, or the
/// number itself when chrono has no date for it.
pub fn format_ts(ts: i64) -> (r: String)
    ensures
        r@ == match chrono_utc_format(ts, ts_pattern()) {
            Some(s) => s,
            None => signed_decimal(ts as int),
        },
{
    format_ts_or_raw(ts, format_utc(ts, "%Y-%m-%d %H:%M"))
}

/// A time stamp as shown, given what chrono printed for it (if it has a
/// date): that text, or the number itself.
pub fn format_ts_or_raw(ts: i64, formatted: Option<String>) -> (r: String)
    ensures
        r@ == match formatted {
            Some(s) => s@,
            None => signed_decimal(ts as int),
        },
{
    match formatted {
        Some(s) => s,
        None => signed_decimal_string(ts),
    }
}

/// The answer shown for a review card: the cloze answer (or a blank) for
/// cloze cards, the back for the others.
pub fn answer_hint<'a>(card_type: &str, cloze_answer: Option<&'a str>, back: &'a str) -> (r: &'a str)
    ensures
        card_type@ == "cloze"@ ==> r@ == match cloze_answer {
            Some(a) => a@,
            None => "_____"@,
        },
        card_type@ != "cloze"@ ==> r@ == back@,
{
    if crate::text::str_eq(card_type, "cloze") {
        match cloze_answer {
            Some(a) => a,
            None => "_____",
        }
    } else {
        back
    }
}


/// A clamped integer argument lies within the bounds, and one already within
/// them is kept.
pub proof fn law_clamp_in_range(n: i32, lo: i32, hi: i32)
    requires
        lo <= hi,
    ensures
        lo <= clamp(n, lo, hi) <= hi,
        lo <= n <= hi ==> clamp(n, lo, hi) == n,
{
}

} // verus!
