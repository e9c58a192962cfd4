//! The agent's tools: their definitions for the model, how a call is routed,
//! and the pure steps of running them (limits, queries, output shaping).

use vstd::prelude::*;
use crate::tool::{Tool, ToolView, Permission, needs_confirmation, permission_name, builtin_tool_names, is_builtin_tool_name};
use crate::error::CoreError;
use crate::skill::Skill;
use crate::lan::opt_string_view;
use crate::text::{owned, concat3, chars_of, string_of, push_decimal, decimal, utf8_len, prefix_fitting, suffix_fitting,
    fitting_prefix, fitting_suffix, byte_len, lemma_prefix_fitting, lemma_suffix_fitting, lemma_utf8_len_concat,
    split, split_ranges, piece, hex16, hex_fixed, split_by, ws, is_ws, push_char, chars_eq, concat2, trim,
    signed_decimal, signed_decimal_string};

verus! {

/// One function-calling tool definition: its name, description and the JSON
/// schema text of its parameters.
#[derive(Debug, Clone)]
pub struct ToolDefinition {
    pub name: String,
    pub description: String,
    pub parameters: String,
}

impl View for ToolDefinition {
    type V = (Seq<char>, Seq<char>, Seq<char>);

    open spec fn view(&self) -> (Seq<char>, Seq<char>, Seq<char>) {
        (self.name@, self.description@, self.parameters@)
    }
}

/// The plain values of a list of definitions.
pub open spec fn definitions_view(v: Seq<ToolDefinition>) -> Seq<(Seq<char>, Seq<char>, Seq<char>)> {
    v.map_values(|d: ToolDefinition| d@)
}

/// The definitions of the built-in tools, in order.
pub open spec fn builtin_definitions() -> Seq<(Seq<char>, Seq<char>, Seq<char>)> {
    seq![
        ("list_memos"@, "搜索用户的笔记。支持全文搜索（FTS）和列出最近的笔记。"@, "{\"type\":\"object\",\"properties\":{\"query\":{\"type\":\"string\",\"description\":\"全文搜索关键词，留空则返回最近笔记\"},\"limit\":{\"type\":\"number\",\"description\":\"返回数量，默认 10，最大 50\"}}}"@),
        ("get_memo"@, "获取单条笔记的完整内容。"@, "{\"type\":\"object\",\"properties\":{\"uid\":{\"type\":\"string\",\"description\":\"笔记的唯一 ID\"}},\"required\":[\"uid\"]}"@),
        ("create_memo"@, "创建一条新笔记。"@, "{\"type\":\"object\",\"properties\":{\"content\":{\"type\":\"string\",\"description\":\"笔记内容，Markdown 格式\"}},\"required\":[\"content\"]}"@),
        ("list_tags"@, "列出用户所有标签及其使用次数。"@, "{\"type\":\"object\",\"properties\":{}}"@),
        ("list_memos_by_tag"@, "List memos that contain ALL specified tags. Returns memo content for card generation."@, "{\"type\":\"object\",\"properties\":{\"tags\":{\"type\":\"array\",\"items\":{\"type\":\"string\"},\"description\":\"Tags to filter (memo must contain ALL)\"},\"limit\":{\"type\":\"number\",\"description\":\"Max results, default 50\"}},\"required\":[\"tags\"]}"@),
        ("update_memo"@, "更新一条笔记的内容或置顶状态。只需提供要修改的字段。"@, "{\"type\":\"object\",\"properties\":{\"uid\":{\"type\":\"string\",\"description\":\"笔记唯一 ID\"},\"content\":{\"type\":\"string\",\"description\":\"新的笔记内容（Markdown），不传则不改内容\"},\"pinned\":{\"type\":\"boolean\",\"description\":\"是否置顶，不传则不改\"}},\"required\":[\"uid\"]}"@),
        ("search_semantic"@, "语义搜索笔记：基于向量相似度查找与查询含义最相近的笔记。适合查找\"关于某主题的想法\"这类模糊查询。首次调用会下载嵌入模型（约90MB），可能耗时数十秒。"@, "{\"type\":\"object\",\"properties\":{\"query\":{\"type\":\"string\",\"description\":\"自然语言查询，如\\\"Rust 内存管理\\\"或\\\"如何做时间管理\\\"\"},\"limit\":{\"type\":\"number\",\"description\":\"返回数量，默认 10，最大 50\"}},\"required\":[\"query\"]}"@),
        ("link_memos"@, "在两条笔记之间建立关联关系（引用或评论）。"@, "{\"type\":\"object\",\"properties\":{\"from_uid\":{\"type\":\"string\",\"description\":\"源笔记 uid\"},\"to_uid\":{\"type\":\"string\",\"description\":\"目标笔记 uid\"},\"relation_type\":{\"type\":\"string\",\"enum\":[\"REFERENCE\",\"COMMENT\"],\"description\":\"关系类型：REFERENCE=引用，COMMENT=评论\"}},\"required\":[\"from_uid\",\"to_uid\",\"relation_type\"]}"@),
        ("create_review_cards"@, "为指定 deck 批量创建复习卡片。卡片内容由你（AI）根据笔记内容生成后传入。每张卡需指定 memo_uid、card_type、front、back、angle。"@, "{\"type\":\"object\",\"properties\":{\"deck_id\":{\"type\":\"number\",\"description\":\"目标 deck ID\"},\"cards\":{\"type\":\"array\",\"description\":\"卡片数组\",\"items\":{\"type\":\"object\",\"properties\":{\"memo_uid\":{\"type\":\"string\",\"description\":\"来源笔记 uid\"},\"card_type\":{\"type\":\"string\",\"enum\":[\"basic\",\"reversed\",\"cloze\",\"concept\",\"compare\"],\"description\":\"卡片类型\"},\"front\":{\"type\":\"string\",\"description\":\"正面内容（Markdown）\"},\"back\":{\"type\":\"string\",\"description\":\"背面内容（Markdown）\"},\"cloze_answer\":{\"type\":\"string\",\"description\":\"填空答案（仅 cloze 类型需要）\"},\"angle\":{\"type\":\"string\",\"description\":\"考核点，如：定义|应用|对比|列举|原理\"}},\"required\":[\"memo_uid\",\"card_type\",\"front\",\"back\"]}}},\"required\":[\"deck_id\",\"cards\"]}"@),
        ("load_skill"@, "加载一个 skill 的完整指南文档到上下文。在调用任何业务工具前，若系统提示中列出的 skill 元数据与当前任务相关，请先调用本工具加载该 skill 的完整内容。一次只加载一个 skill；多个相关 skill 可分别调用。"@, "{\"type\":\"object\",\"properties\":{\"skill_id\":{\"type\":\"string\",\"description\":\"要加载的 skill id\"}},\"required\":[\"skill_id\"]}"@),
    ]
}

/// The parameter schema of every user tool: one `command` string.
pub open spec fn user_tool_parameters() -> Seq<char> {
    "{\"type\":\"object\",\"properties\":{\"command\":{\"type\":\"string\",\"description\":\"要执行的完整 shell 命令字符串\"}},\"required\":[\"command\"]}"@
}

/// The description that the model sees for a user tool.
pub open spec fn user_tool_description(t: ToolView) -> Seq<char> {
    t.description + "\n\n[权限等级: "@ + permission_name(t.permission)
        + "] 执行用户配置的 shell 命令。配置默认命令: `"@ + t.command
        + "`。调用时传入完整 command 字符串，后端在固定工作目录执行。"@
}

/// The definition of a user tool.
pub open spec fn user_definition(t: ToolView) -> (Seq<char>, Seq<char>, Seq<char>) {
    (t.name, user_tool_description(t), user_tool_parameters())
}

/// The definitions of the user tools that are enabled, in order.
pub open spec fn user_definitions(tools: Seq<ToolView>) -> Seq<(Seq<char>, Seq<char>, Seq<char>)>
    decreases tools.len(),
{
    if tools.len() == 0 {
        Seq::empty()
    } else {
        let rest = user_definitions(tools.drop_last());
        if tools.last().enabled { rest.push(user_definition(tools.last())) } else { rest }
    }
}

/// The plain values of a list of tools.
pub open spec fn tools_view(v: Seq<Tool>) -> Seq<ToolView> {
    v.map_values(|t: Tool| t@)
}

fn builtin_tool_definitions() -> (r: Vec<ToolDefinition>)
    ensures
        definitions_view(r@) == builtin_definitions(),
{
    let mut v: Vec<ToolDefinition> = Vec::new();
    v.push(ToolDefinition { name: owned("list_memos"), description: owned("搜索用户的笔记。支持全文搜索（FTS）和列出最近的笔记。"), parameters: owned("{\"type\":\"object\",\"properties\":{\"query\":{\"type\":\"string\",\"description\":\"全文搜索关键词，留空则返回最近笔记\"},\"limit\":{\"type\":\"number\",\"description\":\"返回数量，默认 10，最大 50\"}}}") });
    v.push(ToolDefinition { name: owned("get_memo"), description: owned("获取单条笔记的完整内容。"), parameters: owned("{\"type\":\"object\",\"properties\":{\"uid\":{\"type\":\"string\",\"description\":\"笔记的唯一 ID\"}},\"required\":[\"uid\"]}") });
    v.push(ToolDefinition { name: owned("create_memo"), description: owned("创建一条新笔记。"), parameters: owned("{\"type\":\"object\",\"properties\":{\"content\":{\"type\":\"string\",\"description\":\"笔记内容，Markdown 格式\"}},\"required\":[\"content\"]}") });
    v.push(ToolDefinition { name: owned("list_tags"), description: owned("列出用户所有标签及其使用次数。"), parameters: owned("{\"type\":\"object\",\"properties\":{}}") });
    v.push(ToolDefinition { name: owned("list_memos_by_tag"), description: owned("List memos that contain ALL specified tags. Returns memo content for card generation."), parameters: owned("{\"type\":\"object\",\"properties\":{\"tags\":{\"type\":\"array\",\"items\":{\"type\":\"string\"},\"description\":\"Tags to filter (memo must contain ALL)\"},\"limit\":{\"type\":\"number\",\"description\":\"Max results, default 50\"}},\"required\":[\"tags\"]}") });
    v.push(ToolDefinition { name: owned("update_memo"), description: owned("更新一条笔记的内容或置顶状态。只需提供要修改的字段。"), parameters: owned("{\"type\":\"object\",\"properties\":{\"uid\":{\"type\":\"string\",\"description\":\"笔记唯一 ID\"},\"content\":{\"type\":\"string\",\"description\":\"新的笔记内容（Markdown），不传则不改内容\"},\"pinned\":{\"type\":\"boolean\",\"description\":\"是否置顶，不传则不改\"}},\"required\":[\"uid\"]}") });
    v.push(ToolDefinition { name: owned("search_semantic"), description: owned("语义搜索笔记：基于向量相似度查找与查询含义最相近的笔记。适合查找\"关于某主题的想法\"这类模糊查询。首次调用会下载嵌入模型（约90MB），可能耗时数十秒。"), parameters: owned("{\"type\":\"object\",\"properties\":{\"query\":{\"type\":\"string\",\"description\":\"自然语言查询，如\\\"Rust 内存管理\\\"或\\\"如何做时间管理\\\"\"},\"limit\":{\"type\":\"number\",\"description\":\"返回数量，默认 10，最大 50\"}},\"required\":[\"query\"]}") });
    v.push(ToolDefinition { name: owned("link_memos"), description: owned("在两条笔记之间建立关联关系（引用或评论）。"), parameters: owned("{\"type\":\"object\",\"properties\":{\"from_uid\":{\"type\":\"string\",\"description\":\"源笔记 uid\"},\"to_uid\":{\"type\":\"string\",\"description\":\"目标笔记 uid\"},\"relation_type\":{\"type\":\"string\",\"enum\":[\"REFERENCE\",\"COMMENT\"],\"description\":\"关系类型：REFERENCE=引用，COMMENT=评论\"}},\"required\":[\"from_uid\",\"to_uid\",\"relation_type\"]}") });
    v.push(ToolDefinition { name: owned("create_review_cards"), description: owned("为指定 deck 批量创建复习卡片。卡片内容由你（AI）根据笔记内容生成后传入。每张卡需指定 memo_uid、card_type、front、back、angle。"), parameters: owned("{\"type\":\"object\",\"properties\":{\"deck_id\":{\"type\":\"number\",\"description\":\"目标 deck ID\"},\"cards\":{\"type\":\"array\",\"description\":\"卡片数组\",\"items\":{\"type\":\"object\",\"properties\":{\"memo_uid\":{\"type\":\"string\",\"description\":\"来源笔记 uid\"},\"card_type\":{\"type\":\"string\",\"enum\":[\"basic\",\"reversed\",\"cloze\",\"concept\",\"compare\"],\"description\":\"卡片类型\"},\"front\":{\"type\":\"string\",\"description\":\"正面内容（Markdown）\"},\"back\":{\"type\":\"string\",\"description\":\"背面内容（Markdown）\"},\"cloze_answer\":{\"type\":\"string\",\"description\":\"填空答案（仅 cloze 类型需要）\"},\"angle\":{\"type\":\"string\",\"description\":\"考核点，如：定义|应用|对比|列举|原理\"}},\"required\":[\"memo_uid\",\"card_type\",\"front\",\"back\"]}}},\"required\":[\"deck_id\",\"cards\"]}") });
    v.push(ToolDefinition { name: owned("load_skill"), description: owned("加载一个 skill 的完整指南文档到上下文。在调用任何业务工具前，若系统提示中列出的 skill 元数据与当前任务相关，请先调用本工具加载该 skill 的完整内容。一次只加载一个 skill；多个相关 skill 可分别调用。"), parameters: owned("{\"type\":\"object\",\"properties\":{\"skill_id\":{\"type\":\"string\",\"description\":\"要加载的 skill id\"}},\"required\":[\"skill_id\"]}") });
    assert(definitions_view(v@) =~= builtin_definitions());
    v
}

/// The definition of user tool `t`.
fn user_tool_definition(t: &Tool) -> (d: ToolDefinition)
    ensures
        d@ == user_definition(t@),
{
    let mut description = owned(t.description.as_str());
    description.append("\n\n[权限等级: ");
    description.append(t.permission.as_str());
    description.append("] 执行用户配置的 shell 命令。配置默认命令: `");
    description.append(t.command.as_str());
    description.append("`。调用时传入完整 command 字符串，后端在固定工作目录执行。");
    ToolDefinition { name: t.name.clone(), description, parameters: owned("{\"type\":\"object\",\"properties\":{\"command\":{\"type\":\"string\",\"description\":\"要执行的完整 shell 命令字符串\"}},\"required\":[\"command\"]}") }
}

/// The definitions handed to the model: the built-in tools, then each
/// enabled user tool.
pub fn tool_definitions(user_tools: &Vec<Tool>) -> (r: Vec<ToolDefinition>)
    ensures
        definitions_view(r@) == builtin_definitions() + user_definitions(tools_view(user_tools@)),
{
    let mut defs = builtin_tool_definitions();
    let ghost ts = tools_view(user_tools@);
    let n = user_tools.len();
    for i in 0..n
        invariant
            n == user_tools@.len(),
            ts == tools_view(user_tools@),
            definitions_view(defs@) == builtin_definitions() + user_definitions(ts.take(i as int)),
    {
        let t = &user_tools[i];
        assert(ts.take(i + 1).drop_last() =~= ts.take(i as int));
        assert(ts.take(i + 1).last() == t@);
        if t.enabled {
            let ghost before = defs@;
            defs.push(user_tool_definition(t));
            assert(definitions_view(defs@) =~= definitions_view(before).push(user_definition(t@)));
        }
    }
    assert(ts.take(n as int) =~= ts);
    defs
}

/// The text between the kept head and tail of a cut output.
pub open spec fn truncation_marker(cut: nat) -> Seq<char> {
    "\n...[truncated "@ + decimal(cut) + " bytes]...\n"@
}

/// `s` cut down for the model when longer than `max_bytes` bytes: the head
/// and the tail that fit in `max_bytes / 2` bytes each (cut at character
/// boundaries), around a marker that says how many bytes were dropped.
pub open spec fn truncated(s: Seq<char>, max_bytes: nat) -> Seq<char> {
    if utf8_len(s) <= max_bytes {
        s
    } else {
        let half = max_bytes / 2;
        let head = s.take(prefix_fitting(s, half as int) as int);
        let tail = s.skip(s.len() - suffix_fitting(s, half as int));
        head + truncation_marker((utf8_len(s) - utf8_len(head) - utf8_len(tail)) as nat) + tail
    }
}

/// Keeps at most `max_bytes / 2` bytes of the head and of the tail of `s`,
/// cut at character boundaries, with a marker between them.
pub fn truncate_at_char_boundary(s: &str, max_bytes: usize) -> (r: String)
    requires
        utf8_len(s@) <= usize::MAX,
    ensures
        r@ == truncated(s@, max_bytes as nat),
{
    let len = byte_len(s);
    if len <= max_bytes {
        return owned(s);
    }
    let half = max_bytes / 2;
    let v = chars_of(s);
    let (h, head_bytes) = fitting_prefix(&v, half);
    let (t, tail_bytes) = fitting_suffix(&v, half);
    proof {
        lemma_prefix_fitting(v@, half as int);
        lemma_suffix_fitting(v@, half as int);
    }
    let cut = len - head_bytes - tail_bytes;
    let mut r = string_of(&v, 0, h);
    r.append("\n...[truncated ");
    push_decimal(&mut r, cut as u64);
    r.append(" bytes]...\n");
    let tail = string_of(&v, v.len() - t, v.len());
    r.append(tail.as_str());
    assert(v@.subrange(0, h as int) =~= v@.take(h as int));
    assert(v@.subrange(v@.len() - t, v@.len() as int) =~= v@.skip(v@.len() - t));
    assert(r@ =~= truncated(s@, max_bytes as nat));
    r
}

/// `l` without one trailing carriage return.
pub open spec fn strip_cr(l: Seq<char>) -> Seq<char> {
    if l.len() > 0 && l.last() == '\r' { l.drop_last() } else { l }
}

/// `str::lines`: the pieces between newlines, each that ends in a newline
/// without one trailing `\r`; a last empty piece is no line.
pub open spec fn lines(s: Seq<char>) -> Seq<Seq<char>> {
    let p = split(s, '\n');
    let ended = p.drop_last().map_values(|l: Seq<char>| strip_cr(l));
    if p.last().len() == 0 { ended } else { ended.push(p.last()) }
}

/// Each line prefixed with `[stderr] ` and ended with a newline.
pub open spec fn stderr_block(ls: Seq<Seq<char>>) -> Seq<char>
    decreases ls.len(),
{
    if ls.len() == 0 {
        Seq::empty()
    } else {
        stderr_block(ls.drop_last()) + "[stderr] "@ + ls.last() + "\n"@
    }
}

/// The output of a user tool as the model sees it: standard output, then
/// each line of standard error marked `[stderr] `; cut to 10 KiB.
pub open spec fn tool_output(stdout: Seq<char>, stderr: Seq<char>) -> Seq<char> {
    truncated(stdout + stderr_block(lines(stderr)), 10 * 1024)
}

/// The bound on the output of a user tool shown to the model.
pub const MAX_USER_TOOL_OUTPUT_BYTES: usize = 10240;

/// Appends `[stderr] l\n` to `out` for each line `l` of `v[from..to]`
/// (see `lines`).
fn push_stderr_lines(out: &mut String, v: &Vec<char>)
    ensures
        final(out)@ == old(out)@ + stderr_block(lines(v@)),
{
    let ghost s = v@;
    let ranges = split_ranges(v, 0, v.len(), Some('\n'));
    assert(v@.subrange(0, v@.len() as int) =~= v@);
    let ghost p = split(s, '\n');
    proof { crate::text::lemma_split_nonempty(s, crate::text::is_char('\n')); }
    let n = ranges.len();
    let ghost ended = p.drop_last().map_values(|l: Seq<char>| strip_cr(l));
    for j in 0..n - 1
        invariant
            n == ranges@.len(),
            n >= 1,
            ranges@.map_values(|x: (usize, usize)| piece(v@, x)) == p,
            p == split(s, '\n'),
            s == v@,
            forall|k: int| 0 <= k < ranges@.len() ==> (#[trigger] ranges@[k]).0 <= ranges@[k].1 <= v@.len(),
            ended == p.drop_last().map_values(|l: Seq<char>| strip_cr(l)),
            out@ == old(out)@ + stderr_block(ended.take(j as int)),
    {
        let (a, b) = ranges[j];
        assert(piece(v@, ranges@[j as int]) == p[j as int]);
        let e = if b > a && v[b - 1] == '\r' { b - 1 } else { b };
        assert(v@.subrange(a as int, e as int) =~= strip_cr(p[j as int]));
        out.append("[stderr] ");
        let l = string_of(v, a, e);
        out.append(l.as_str());
        out.append("\n");
        assert(ended.take(j + 1).drop_last() =~= ended.take(j as int));
        assert(ended.take(j + 1).last() == ended[j as int]);
        assert(out@ =~= old(out)@ + stderr_block(ended.take(j + 1)));
    }
    assert(ended.take(n - 1) =~= ended);
    let (a, b) = ranges[n - 1];
    assert(piece(v@, ranges@[n - 1]) == p.last());
    if b > a {
        out.append("[stderr] ");
        let l = string_of(v, a, b);
        out.append(l.as_str());
        out.append("\n");
        assert(ended.push(p.last()).drop_last() =~= ended);
        assert(out@ =~= old(out)@ + stderr_block(ended.push(p.last())));
    }
}

/// The output of a user tool as the model sees it (see `tool_output`).
pub fn combine_tool_output(stdout: &str, stderr: &str) -> (r: String)
    requires
        utf8_len(stdout@ + stderr_block(lines(stderr@))) <= usize::MAX,
    ensures
        r@ == tool_output(stdout@, stderr@),
{
    let mut combined = owned(stdout);
    let v = chars_of(stderr);
    push_stderr_lines(&mut combined, &v);
    truncate_at_char_boundary(combined.as_str(), MAX_USER_TOOL_OUTPUT_BYTES)
}

/// The bound on a skill body handed to the model.
pub const MAX_SKILL_BODY_BYTES: usize = 51200;

/// A skill body as `load_skill` hands it to the model: when longer than
/// 50 KiB, the head that fits (cut at a character boundary) and a marker.
pub open spec fn skill_body_for_model(body: Seq<char>) -> Seq<char> {
    if utf8_len(body) > 51200 {
        body.take(prefix_fitting(body, 51200) as int) + "\n\n…[已截断]"@
    } else {
        body
    }
}

/// Cuts a skill body for the model (see `skill_body_for_model`).
pub fn truncate_skill_body(body: String) -> (r: String)
    ensures
        r@ == skill_body_for_model(body@),
{
    let v = chars_of(body.as_str());
    if crate::text::utf8_len_exceeds(&v, MAX_SKILL_BODY_BYTES) {
        let (h, _) = fitting_prefix(&v, MAX_SKILL_BODY_BYTES);
        proof { lemma_prefix_fitting(v@, 51200); }
        let mut t = string_of(&v, 0, h);
        t.append("\n\n…[已截断]");
        assert(v@.subrange(0, h as int) =~= v@.take(h as int));
        t
    } else {
        body
    }
}

/// The id of a memo made by the agent from a clock reading in nanoseconds:
/// its low 64 bits as 16 lower-case hexadecimal digits.
pub fn memo_uid_from_nanos(nanos: u128) -> (r: String)
    ensures
        r@ == hex_fixed((nanos % 0x1_0000_0000_0000_0000) as nat, 16),
        r@.len() == 16,
{
    let low = (nanos % 0x1_0000_0000_0000_0000u128) as u64;
    let r = hex16(low);
    proof { lemma_hex_len(low as nat, 16); }
    r
}

/// `hex_fixed` has the width it is asked for.
proof fn lemma_hex_len(n: nat, w: nat)
    ensures
        hex_fixed(n, w).len() == w,
    decreases w,
{
    if w > 0 {
        lemma_hex_len(n / 16, (w - 1) as nat);
    }
}

/// A 16-hex-digit id from the current time in nanoseconds.
pub fn uuid_like() -> (r: String)
    ensures
        r@.len() == 16,
{
    let nanos = crate::clock::now_epoch_nanos();
    memo_uid_from_nanos(nanos)
}

/// How `list_memos` searches: the most recent memos, memos whose content
/// contains the query, or a full-text query.
#[derive(Debug, Clone)]
pub enum MemoQuery {
    Recent,
    ContentContains(String),
    FullText(String),
}

/// The plain value of a memo query.
pub enum MemoQueryView {
    Recent,
    ContentContains(Seq<char>),
    FullText(Seq<char>),
}

impl View for MemoQuery {
    type V = MemoQueryView;

    open spec fn view(&self) -> MemoQueryView {
        match self {
            MemoQuery::Recent => MemoQueryView::Recent,
            MemoQuery::ContentContains(q) => MemoQueryView::ContentContains(q@),
            MemoQuery::FullText(q) => MemoQueryView::FullText(q@),
        }
    }
}

/// `str::split_whitespace`: the non-empty pieces between whitespace.
pub open spec fn words(q: Seq<char>) -> Seq<Seq<char>> {
    split_by(q, ws()).filter(|w: Seq<char>| w.len() > 0)
}

/// `w` with each double quote doubled.
pub open spec fn escape_quotes(w: Seq<char>) -> Seq<char>
    decreases w.len(),
{
    if w.len() == 0 {
        w
    } else if w.last() == '"' {
        escape_quotes(w.drop_last()) + seq!['"', '"']
    } else {
        escape_quotes(w.drop_last()).push(w.last())
    }
}

/// A full-text phrase for one word: the word quoted, its quotes doubled.
pub open spec fn fts_term(w: Seq<char>) -> Seq<char> {
    seq!['"'] + escape_quotes(w) + seq!['"']
}

/// The full-text query for a list of words: their phrases joined by spaces.
pub open spec fn fts_query(ws: Seq<Seq<char>>) -> Seq<char>
    decreases ws.len(),
{
    if ws.len() == 0 {
        Seq::empty()
    } else if ws.len() == 1 {
        fts_term(ws[0])
    } else {
        fts_query(ws.drop_last()) + seq![' '] + fts_term(ws.last())
    }
}

/// The search for a query: recent memos for an empty query; a content
/// search when some word is shorter than 3 bytes (too short for the trigram
/// index); a full-text search over all words otherwise.
pub open spec fn memo_query_for(q: Seq<char>) -> MemoQueryView {
    if q.len() == 0 {
        MemoQueryView::Recent
    } else if exists|i: int| 0 <= i < words(q).len() && utf8_len(#[trigger] words(q)[i]) < 3 {
        MemoQueryView::ContentContains(q)
    } else {
        MemoQueryView::FullText(fts_query(words(q)))
    }
}

/// Appends the full-text phrase of `v[a..b]` to `out`.
fn push_fts_term(out: &mut String, v: &Vec<char>, a: usize, b: usize)
    requires
        a <= b <= v.len(),
    ensures
        final(out)@ == old(out)@ + fts_term(v@.subrange(a as int, b as int)),
{
    push_char(out, '"');
    let ghost start = out@;
    for i in a..b
        invariant
            a <= b <= v.len(),
            out@ == start + escape_quotes(v@.subrange(a as int, i as int)),
    {
        assert(v@.subrange(a as int, i + 1).drop_last() =~= v@.subrange(a as int, i as int));
        assert(v@.subrange(a as int, i + 1).last() == v@[i as int]);
        if v[i] == '"' {
            push_char(out, '"');
            push_char(out, '"');
        } else {
            push_char(out, v[i]);
        }
        assert(out@ =~= start + escape_quotes(v@.subrange(a as int, i + 1)));
    }
    push_char(out, '"');
    assert(out@ =~= old(out)@ + fts_term(v@.subrange(a as int, b as int)));
}

/// The search that `list_memos` runs for `query` (see `memo_query_for`).
pub fn memo_query(query: &str) -> (r: MemoQuery)
    ensures
        r@ == memo_query_for(query@),
{
    let v = chars_of(query);
    if v.len() == 0 {
        return MemoQuery::Recent;
    }
    assert(v@.subrange(0, v@.len() as int) =~= query@);
    let pieces = split_ranges(&v, 0, v.len(), None);
    let ghost ps = split_by(query@, ws());
    let ghost all = ps.filter(|w: Seq<char>| w.len() > 0);
    let mut kept: Vec<(usize, usize)> = Vec::new();
    let n = pieces.len();
    for j in 0..n
        invariant
            n == pieces@.len(),
            pieces@.map_values(|x: (usize, usize)| piece(v@, x)) == ps,
            forall|k: int| 0 <= k < pieces@.len() ==> (#[trigger] pieces@[k]).0 <= pieces@[k].1 <= v@.len(),
            kept@.map_values(|x: (usize, usize)| piece(v@, x)) == ps.take(j as int).filter(|w: Seq<char>| w.len() > 0),
            forall|k: int| 0 <= k < kept@.len() ==> (#[trigger] kept@[k]).0 <= kept@[k].1 <= v@.len(),
    {
        let (a, b) = pieces[j];
        assert(piece(v@, pieces@[j as int]) == ps[j as int]);
        let ghost before = kept@;
        if b > a {
            kept.push((a, b));
        }
        proof {
            reveal_with_fuel(Seq::<Seq<char>>::filter, 1);
            assert(ps.take(j + 1).drop_last() =~= ps.take(j as int));
            assert(kept@.map_values(|x: (usize, usize)| piece(v@, x))
                =~= ps.take(j + 1).filter(|w: Seq<char>| w.len() > 0));
        }
    }
    assert(ps.take(n as int) =~= ps);
    let ghost wv = kept@.map_values(|x: (usize, usize)| piece(v@, x));
    assert(wv == words(query@));
    let m = kept.len();
    for k in 0..m
        invariant
            m == kept@.len(),
            wv == kept@.map_values(|x: (usize, usize)| piece(v@, x)),
            forall|k: int| 0 <= k < kept@.len() ==> (#[trigger] kept@[k]).0 <= kept@[k].1 <= v@.len(),
            forall|i: int| 0 <= i < k ==> utf8_len(#[trigger] wv[i]) >= 3,
            v@ == query@,
            wv == words(query@),
    {
        let (a, b) = kept[k];
        assert(wv[k as int] == v@.subrange(a as int, b as int));
        let w = string_of(&v, a, b);
        let short = !crate::text::utf8_len_exceeds(&chars_of(w.as_str()), 2);
        if short {
            return MemoQuery::ContentContains(owned(query));
        }
    }
    let mut out = String::new();
    for k in 0..m
        invariant
            m == kept@.len(),
            wv == kept@.map_values(|x: (usize, usize)| piece(v@, x)),
            forall|k: int| 0 <= k < kept@.len() ==> (#[trigger] kept@[k]).0 <= kept@[k].1 <= v@.len(),
            out@ == fts_query(wv.take(k as int)),
    {
        let (a, b) = kept[k];
        assert(wv[k as int] == v@.subrange(a as int, b as int));
        assert(wv.take(k + 1).drop_last() =~= wv.take(k as int));
        if k > 0 {
            push_char(&mut out, ' ');
        }
        push_fts_term(&mut out, &v, a, b);
        proof {
            if k == 0 {
                assert(out@ =~= fts_query(wv.take(1)));
            } else {
                assert(out@ =~= fts_query(wv.take(k + 1)));
            }
        }
    }
    assert(wv.take(m as int) =~= wv);
    MemoQuery::FullText(out)
}

/// A limit argument: the given number (cast to `i32` as `as` does) or the
/// default, then at most `max` and at least 1.
pub open spec fn clamped_limit(arg: Option<i64>, default: i32, max: i32) -> i32 {
    let n: i32 = match arg {
        Some(v) => v as i32,
        None => default,
    };
    let m = if n < max { n } else { max };
    if m > 1 { m } else { 1 }
}

/// The limit of `list_memos` (default 10, at most 50) and of
/// `list_memos_by_tag` (default 50, at most 200).
pub fn list_limit(arg: Option<i64>, default: i32, max: i32) -> (r: i32)
    ensures
        r == clamped_limit(arg, default, max),
{
    let n: i32 = match arg {
        Some(v) => v as i32,
        None => default,
    };
    let m = if n < max { n } else { max };
    if m > 1 { m } else { 1 }
}

/// The limit of `search_semantic`: the given number cast to `u32` (as `as`
/// does) or 10, then at most 50 and at least 1.
pub fn search_limit(arg: Option<i64>) -> (r: u32)
    ensures
        r == ({
            let n: u32 = match arg { Some(v) => v as u32, None => 10u32 };
            let m: u32 = if n < 50 { n } else { 50u32 };
            if m > 1 { m } else { 1u32 }
        }),
{
    let n: u32 = match arg {
        Some(v) => v as u32,
        None => 10,
    };
    let m = if n < 50 { n } else { 50 };
    if m > 1 { m } else { 1 }
}

/// The kinds of link between two memos.
#[derive(Debug, Clone, Copy, PartialEq, Eq, Structural)]
pub enum RelationType {
    Reference,
    Comment,
}

/// The relation named by the `relation_type` argument of `link_memos`.
pub fn parse_relation_type(s: &str) -> (r: Result<RelationType, CoreError>)
    ensures
        s@ == "REFERENCE"@ ==> r == Ok::<RelationType, CoreError>(RelationType::Reference),
        s@ == "COMMENT"@ ==> r == Ok::<RelationType, CoreError>(RelationType::Comment),
        s@ != "REFERENCE"@ && s@ != "COMMENT"@ ==> (r matches Err(e) && e.is_other("未知关系类型: "@ + s@)),
{
    proof {
        reveal_strlit("REFERENCE");
        reveal_strlit("COMMENT");
        assert("COMMENT"@[0] != "REFERENCE"@[0]);
    }
    let v = chars_of(s);
    if chars_eq(&v, &chars_of("REFERENCE")) {
        Ok(RelationType::Reference)
    } else if chars_eq(&v, &chars_of("COMMENT")) {
        Ok(RelationType::Comment)
    } else {
        Err(CoreError::Other(concat2("未知关系类型: ", s)))
    }
}

/// Whether a review card handed in by the model can be stored: it names
/// its memo and has a front; the message says why it is skipped.
pub fn check_card(memo_uid: &str, front: &str) -> (r: Result<(), String>)
    ensures
        memo_uid@.len() > 0 && front@.len() > 0 ==> r is Ok,
        !(memo_uid@.len() > 0 && front@.len() > 0) ==> (r matches Err(m) && m@ == "跳过无效卡片：memo_uid 或 front 为空"@),
{
    if memo_uid.is_empty() || front.is_empty() {
        return Err(owned("跳过无效卡片：memo_uid 或 front 为空"));
    }
    Ok(())
}

/// The built-in tools that the agent runs.
#[derive(Debug, Clone, Copy, PartialEq, Eq, Structural)]
pub enum BuiltinTool {
    ListMemos,
    GetMemo,
    CreateMemo,
    ListTags,
    ListMemosByTag,
    UpdateMemo,
    SearchSemantic,
    LinkMemos,
    CreateReviewCards,
    LoadSkill,
}

/// The built-in tools, in the order of their definitions.
pub open spec fn builtin_tools() -> Seq<BuiltinTool> {
    seq![
        BuiltinTool::ListMemos, BuiltinTool::GetMemo, BuiltinTool::CreateMemo, BuiltinTool::ListTags,
        BuiltinTool::ListMemosByTag, BuiltinTool::UpdateMemo, BuiltinTool::SearchSemantic,
        BuiltinTool::LinkMemos, BuiltinTool::CreateReviewCards, BuiltinTool::LoadSkill,
    ]
}

/// Where a tool call goes.
#[derive(Debug, Clone)]
pub enum ToolRoute {
    /// A built-in tool that the agent runs.
    Builtin(BuiltinTool),
    /// A reserved built-in name without a runner here.
    Unimplemented(CoreError),
    /// A user tool, looked up by name.
    User,
}

/// The route of a call to the tool `name`: the built-in tool of that name,
/// an error for another reserved name, else the user tools.
pub fn route_tool(name: &str) -> (r: ToolRoute)
    ensures
        forall|i: int| 0 <= i < 10 ==> (name@ == #[trigger] builtin_definitions()[i].0
            ==> r == ToolRoute::Builtin(builtin_tools()[i])),
        !(exists|i: int| 0 <= i < 10 && name@ == #[trigger] builtin_definitions()[i].0)
            && builtin_tool_names().contains(name@)
            ==> (r matches ToolRoute::Unimplemented(e) && e.is_other("内置工具未实现: "@ + name@)),
        !builtin_tool_names().contains(name@) ==> r is User,
{
    let v = chars_of(name);
    let names: [&str; 10] = [
        "list_memos", "get_memo", "create_memo", "list_tags", "list_memos_by_tag",
        "update_memo", "search_semantic", "link_memos", "create_review_cards", "load_skill",
    ];
    let tools: [BuiltinTool; 10] = [
        BuiltinTool::ListMemos, BuiltinTool::GetMemo, BuiltinTool::CreateMemo, BuiltinTool::ListTags,
        BuiltinTool::ListMemosByTag, BuiltinTool::UpdateMemo, BuiltinTool::SearchSemantic,
        BuiltinTool::LinkMemos, BuiltinTool::CreateReviewCards, BuiltinTool::LoadSkill,
    ];
    assert(tools@ =~= builtin_tools());
    proof { lemma_builtin_names_distinct(); }
    for i in 0..10
        invariant
            tools@ == builtin_tools(),
            forall|k: int| 0 <= k < 10 ==> (#[trigger] names@[k])@ == builtin_definitions()[k].0,
            forall|k: int| 0 <= k < i ==> name@ != #[trigger] builtin_definitions()[k].0,
            v@ == name@,
            forall|a: int, b: int| 0 <= a < 10 && 0 <= b < 10 && a != b
                ==> #[trigger] builtin_definitions()[a].0 != #[trigger] builtin_definitions()[b].0,
    {
        if chars_eq(&v, &chars_of(names[i])) {
            return ToolRoute::Builtin(tools[i]);
        }
    }
    if is_builtin_tool_name(name) {
        return ToolRoute::Unimplemented(CoreError::Other(concat2("内置工具未实现: ", name)));
    }
    proof {
        assert forall|k: int| 0 <= k < 10 implies builtin_tool_names().contains(#[trigger] builtin_definitions()[k].0) by {
            assert(builtin_tool_names()[k] == builtin_definitions()[k].0);
        }
    }
    ToolRoute::User
}

/// The names of the built-in definitions differ from one another.
proof fn lemma_builtin_names_distinct()
    ensures
        forall|a: int, b: int| 0 <= a < 10 && 0 <= b < 10 && a != b
            ==> #[trigger] builtin_definitions()[a].0 != #[trigger] builtin_definitions()[b].0,
{
    reveal_strlit("list_memos");
    reveal_strlit("get_memo");
    reveal_strlit("create_memo");
    reveal_strlit("list_tags");
    reveal_strlit("list_memos_by_tag");
    reveal_strlit("update_memo");
    reveal_strlit("search_semantic");
    reveal_strlit("link_memos");
    reveal_strlit("create_review_cards");
    reveal_strlit("load_skill");
    assert forall|a: int, b: int| 0 <= a < 10 && 0 <= b < 10 && a != b
        implies #[trigger] builtin_definitions()[a].0 != #[trigger] builtin_definitions()[b].0 by {
        let x = builtin_definitions()[a].0;
        let y = builtin_definitions()[b].0;
        assert(x.len() != y.len() || x[2] != y[2]);
    }
}

/// What a call of a user tool comes to.
#[derive(Debug, Clone)]
pub enum UserToolCall {
    /// The tool is disabled; the model is told so.
    Disabled(String),
    /// Run `command` as the tool.
    Run(Tool, String),
}

/// The call of user tool `name`, given the stored tool of that name (if
/// any) and the `command` argument (if a string was given).
pub fn plan_user_tool_call(name: &str, stored: Option<Tool>, command: Option<String>) -> (r: Result<UserToolCall, CoreError>)
    ensures
        stored is None ==> (r matches Err(e) && e.is_other("未知工具: "@ + name@)),
        stored is Some && !stored.unwrap().enabled ==> (r matches Ok(UserToolCall::Disabled(m))
            && m@ == "工具 "@ + name@ + " 已禁用"@),
        stored is Some && stored.unwrap().enabled && command is None
            ==> (r matches Err(e) && e.is_other("缺少 command 参数"@)),
        stored is Some && stored.unwrap().enabled && command is Some
            ==> (r matches Ok(UserToolCall::Run(t2, c2)) && t2@ == stored.unwrap()@ && c2@ == command.unwrap()@),
{
    let tool = match stored {
        None => return Err(CoreError::Other(concat2("未知工具: ", name))),
        Some(t) => t,
    };
    if !tool.enabled {
        return Ok(UserToolCall::Disabled(concat3("工具 ", name, " 已禁用")));
    }
    match command {
        None => Err(CoreError::Other(owned("缺少 command 参数"))),
        Some(c) => Ok(UserToolCall::Run(tool, c)),
    }
}

/// What the running of a user tool reports back to `user_tool_step`.
#[derive(Debug, Clone)]
pub enum UserToolEvent {
    /// The call is about to run.
    Start,
    /// The user answered the confirmation request: approved or not.
    Confirmed(bool),
    /// The confirmation request failed with this message.
    ConfirmFailed(String),
    /// The command could not be started.
    SpawnFailed(String),
    /// Waiting for the command failed.
    WaitFailed(String),
    /// The command did not end within the tool's timeout (it is killed).
    TimedOut,
    /// The command ended: its output (read as UTF-8) and its exit code, if
    /// it has one.
    Exited { stdout: String, stderr: String, code: Option<i32> },
}

/// The answer that the model gets for a user tool call; each names the tool
/// and its permission level.
#[derive(Debug, Clone)]
pub enum UserToolAnswer {
    /// The user denied the call; the command did not run.
    Denied { tool_name: String, permission: Permission },
    /// The command could not be run to its end.
    Error { message: String, tool_name: String, permission: Permission },
    /// The command ended with this output and exit code.
    Output { output: String, exit_code: i32, tool_name: String, permission: Permission },
}

/// What to do next for a user tool call.
#[derive(Debug, Clone)]
pub enum UserToolAction {
    /// Ask the user to confirm the call, then report `Confirmed` or
    /// `ConfirmFailed`.
    AskConfirmation,
    /// Start the command and wait for it within the timeout, then report
    /// `SpawnFailed`, `WaitFailed`, `TimedOut` or `Exited`.
    Run,
    /// The call is done: hand this answer to the model.
    Answer(UserToolAnswer),
    /// The call fails with this error.
    Fail(CoreError),
}

/// The exit code shown for a process: its code, or -1 when it has none.
pub open spec fn exit_code_of(code: Option<i32>) -> i32 {
    match code {
        Some(c) => c,
        None => -1i32,
    }
}

/// The next step of a call of the user tool `tool`, given what was reported:
/// a call asks for confirmation first where the tool's level needs it and
/// runs only once approved; a denial, a failure to start or to wait, a
/// timeout and the end of the command each give their answer.
pub fn user_tool_step(tool: &Tool, event: UserToolEvent) -> (r: UserToolAction)
    requires
        event matches UserToolEvent::Exited { stdout, stderr, code }
            ==> utf8_len(stdout@ + stderr_block(lines(stderr@))) <= usize::MAX,
    ensures
        event is Start ==> (needs_confirmation(tool.permission) ==> r is AskConfirmation)
            && (!needs_confirmation(tool.permission) ==> r is Run),
        event matches UserToolEvent::Confirmed(ok) && ok ==> r is Run,
        event matches UserToolEvent::Confirmed(ok) && !ok ==> (r matches UserToolAction::Answer(
            UserToolAnswer::Denied { tool_name, permission }) && tool_name@ == tool.name@ && permission == tool.permission),
        event matches UserToolEvent::ConfirmFailed(e) ==> (r matches UserToolAction::Fail(err)
            && err.is_other("确认失败: "@ + e@)),
        event matches UserToolEvent::SpawnFailed(e) ==> (r matches UserToolAction::Answer(
            UserToolAnswer::Error { message, tool_name, permission })
            && message@ == "spawn failed: "@ + e@ && tool_name@ == tool.name@ && permission == tool.permission),
        event matches UserToolEvent::WaitFailed(e) ==> (r matches UserToolAction::Answer(
            UserToolAnswer::Error { message, tool_name, permission })
            && message@ == "wait failed: "@ + e@ && tool_name@ == tool.name@ && permission == tool.permission),
        event is TimedOut ==> (r matches UserToolAction::Answer(UserToolAnswer::Error { message, tool_name, permission })
            && message@ == "timeout after "@ + signed_decimal(tool.timeout_ms as int) + "ms"@
            && tool_name@ == tool.name@ && permission == tool.permission),
        event matches UserToolEvent::Exited { stdout, stderr, code } ==> (r matches UserToolAction::Answer(
            UserToolAnswer::Output { output, exit_code, tool_name, permission })
            && output@ == tool_output(stdout@, stderr@) && exit_code == exit_code_of(code)
            && tool_name@ == tool.name@ && permission == tool.permission),
{
    match event {
        UserToolEvent::Start => {
            if tool.permission.requires_confirmation() {
                UserToolAction::AskConfirmation
            } else {
                UserToolAction::Run
            }
        },
        UserToolEvent::Confirmed(ok) => {
            if ok {
                UserToolAction::Run
            } else {
                UserToolAction::Answer(UserToolAnswer::Denied { tool_name: tool.name.clone(), permission: tool.permission })
            }
        },
        UserToolEvent::ConfirmFailed(e) => UserToolAction::Fail(CoreError::Other(concat2("确认失败: ", e.as_str()))),
        UserToolEvent::SpawnFailed(e) => UserToolAction::Answer(UserToolAnswer::Error {
            message: concat2("spawn failed: ", e.as_str()),
            tool_name: tool.name.clone(),
            permission: tool.permission,
        }),
        UserToolEvent::WaitFailed(e) => UserToolAction::Answer(UserToolAnswer::Error {
            message: concat2("wait failed: ", e.as_str()),
            tool_name: tool.name.clone(),
            permission: tool.permission,
        }),
        UserToolEvent::TimedOut => {
            let mut m = owned("timeout after ");
            let d = signed_decimal_string(tool.timeout_ms);
            m.append(d.as_str());
            m.append("ms");
            UserToolAction::Answer(UserToolAnswer::Error { message: m, tool_name: tool.name.clone(), permission: tool.permission })
        },
        UserToolEvent::Exited { stdout, stderr, code } => {
            let output = combine_tool_output(stdout.as_str(), stderr.as_str());
            let exit_code: i32 = match code {
                Some(c) => c,
                None => -1,
            };
            UserToolAction::Answer(UserToolAnswer::Output {
                output,
                exit_code,
                tool_name: tool.name.clone(),
                permission: tool.permission,
            })
        },
    }
}

/// The error for a required tool argument that is missing (or no string).
pub fn require_arg(value: Option<String>, name: &str) -> (r: Result<String, CoreError>)
    ensures
        value is None ==> (r matches Err(e) && e.is_other("缺少 "@ + name@ + " 参数"@)),
        value matches Some(v) ==> (r matches Ok(t) && t@ == v@),
{
    match value {
        Some(v) => Ok(v),
        None => Err(CoreError::Other(concat3("缺少 ", name, " 参数"))),
    }
}

/// The deck of `create_review_cards`: the `deck_id` argument, cut to 32 bits
/// as `as i32` does.
pub fn deck_id_arg(value: Option<i64>) -> (r: Result<i32, CoreError>)
    ensures
        value is None ==> (r matches Err(e) && e.is_other("缺少 deck_id 参数"@)),
        value matches Some(v) ==> r == Ok::<i32, CoreError>(v as i32),
{
    match value {
        Some(v) => Ok(#[verifier::truncate] (v as i32)),
        None => Err(CoreError::Other(owned("缺少 deck_id 参数"))),
    }
}

/// One card of the `cards` argument of `create_review_cards`: each field is
/// the string given for it, if one was.
#[derive(Debug, Clone)]
pub struct CardInput {
    pub memo_uid: Option<String>,
    pub card_type: Option<String>,
    pub front: Option<String>,
    pub back: Option<String>,
    pub cloze_answer: Option<String>,
    pub angle: Option<String>,
}

/// The fields of a review card to store.
#[derive(Debug, Clone)]
pub struct NewCard {
    pub memo_uid: String,
    pub card_type: String,
    pub front: String,
    pub back: String,
    pub cloze_answer: Option<String>,
    pub angle: String,
}

/// A given text, or `dflt`.
pub open spec fn text_or(v: Option<String>, dflt: Seq<char>) -> Seq<char> {
    match v {
        Some(s) => s@,
        None => dflt,
    }
}

fn text_or_default(v: &Option<String>, dflt: &str) -> (r: String)
    ensures
        r@ == text_or(*v, dflt@),
{
    match v {
        Some(s) => s.clone(),
        None => owned(dflt),
    }
}

/// The card stored for an input, or the message with which it is skipped:
/// it needs a memo uid and a front; the type defaults to `basic`, the back
/// and angle to empty.
pub fn card_from_input(c: &CardInput) -> (r: Result<NewCard, String>)
    ensures
        text_or(c.memo_uid, ""@).len() > 0 && text_or(c.front, ""@).len() > 0 ==> (r matches Ok(n)
            && n.memo_uid@ == text_or(c.memo_uid, ""@)
            && n.card_type@ == text_or(c.card_type, "basic"@)
            && n.front@ == text_or(c.front, ""@)
            && n.back@ == text_or(c.back, ""@)
            && opt_string_view(n.cloze_answer) == opt_string_view(c.cloze_answer)
            && n.angle@ == text_or(c.angle, ""@)),
        !(text_or(c.memo_uid, ""@).len() > 0 && text_or(c.front, ""@).len() > 0)
            ==> (r matches Err(m) && m@ == "跳过无效卡片：memo_uid 或 front 为空"@),
{
    proof { reveal_strlit(""); }
    let memo_uid = text_or_default(&c.memo_uid, "");
    let front = text_or_default(&c.front, "");
    match check_card(memo_uid.as_str(), front.as_str()) {
        Err(m) => Err(m),
        Ok(()) => Ok(NewCard {
            memo_uid,
            card_type: text_or_default(&c.card_type, "basic"),
            front,
            back: text_or_default(&c.back, ""),
            cloze_answer: match &c.cloze_answer {
                Some(a) => Some(a.clone()),
                None => None,
            },
            angle: text_or_default(&c.angle, ""),
        }),
    }
}

/// The message recorded when storing the card of `memo_uid` failed.
pub fn card_store_error(memo_uid: &str, error: &str) -> (r: String)
    ensures
        r@ == "card memo_uid="@ + memo_uid@ + ": "@ + error@,
{
    let mut r = concat2("card memo_uid=", memo_uid);
    r.append(": ");
    r.append(error);
    r
}

/// What came of one card of a `create_review_cards` batch, in the order of
/// the `cards` argument.
#[derive(Debug, Clone)]
pub enum CardOutcome {
    /// `card_from_input` refused the card with this message.
    Skipped(String),
    /// The card was stored.
    Stored,
    /// Storing the card of `memo_uid` failed with `error`.
    StoreFailed { memo_uid: String, error: String },
}

/// How many cards were stored.
pub open spec fn stored_count(o: Seq<CardOutcome>) -> nat
    decreases o.len(),
{
    if o.len() == 0 {
        0
    } else {
        stored_count(o.drop_last()) + if o.last() is Stored { 1nat } else { 0nat }
    }
}

/// The message a card leaves in the `errors` list, if any.
pub open spec fn outcome_message(c: CardOutcome) -> Seq<char> {
    match c {
        CardOutcome::Skipped(m) => m@,
        CardOutcome::Stored => Seq::empty(),
        CardOutcome::StoreFailed { memo_uid, error } => "card memo_uid="@ + memo_uid@ + ": "@ + error@,
    }
}

/// The `errors` list of a batch: one message per skipped or failed card, in
/// order.
pub open spec fn outcome_errors(o: Seq<CardOutcome>) -> Seq<Seq<char>>
    decreases o.len(),
{
    if o.len() == 0 {
        Seq::empty()
    } else if o.last() is Stored {
        outcome_errors(o.drop_last())
    } else {
        outcome_errors(o.drop_last()).push(outcome_message(o.last()))
    }
}

proof fn lemma_stored_count_bound(o: Seq<CardOutcome>)
    ensures
        stored_count(o) <= o.len(),
    decreases o.len(),
{
    if o.len() > 0 {
        lemma_stored_count_bound(o.drop_last());
    }
}

/// The plain values of a list of strings.
pub open spec fn texts_view(v: Seq<String>) -> Seq<Seq<char>> {
    v.map_values(|s: String| s@)
}

/// The answer of `create_review_cards`.
#[derive(Debug, Clone)]
pub enum ReviewCardsAnswer {
    /// No card was handed in: nothing was stored and no deck looked up.
    Empty { deck_id: i32 },
    /// The batch ran against the deck `deck_id` named `deck_name`.
    Done { inserted: u32, deck_id: i32, deck_name: String, errors: Vec<String> },
}

/// The error for a deck id that names no deck.
pub fn deck_not_found(deck_id: i32) -> (r: CoreError)
    ensures
        r.is_not_found("deck id="@ + signed_decimal(deck_id as int)),
{
    let mut m = owned("deck id=");
    let d = signed_decimal_string(deck_id as i64);
    m.append(d.as_str());
    CoreError::NotFound(m)
}

/// The stored count and the `errors` list of a batch.
pub fn summarize_cards(outcomes: &Vec<CardOutcome>) -> (r: (u32, Vec<String>))
    requires
        outcomes.len() <= u32::MAX,
    ensures
        r.0 == stored_count(outcomes@),
        texts_view(r.1@) == outcome_errors(outcomes@),
{
    let mut inserted: u32 = 0;
    let mut errors: Vec<String> = Vec::new();
    let n = outcomes.len();
    for i in 0..n
        invariant
            n == outcomes@.len(),
            n <= u32::MAX,
            inserted == stored_count(outcomes@.take(i as int)),
            texts_view(errors@) == outcome_errors(outcomes@.take(i as int)),
    {
        let ghost pre = outcomes@.take(i as int);
        proof {
            assert(outcomes@.take(i + 1).drop_last() =~= pre);
            lemma_stored_count_bound(pre);
        }
        let ghost before = errors@;
        match &outcomes[i] {
            CardOutcome::Stored => {
                inserted = inserted + 1;
            },
            CardOutcome::Skipped(m) => {
                errors.push(m.clone());
                assert(texts_view(errors@) =~= texts_view(before).push(outcome_message(outcomes@[i as int])));
            },
            CardOutcome::StoreFailed { memo_uid, error } => {
                errors.push(card_store_error(memo_uid.as_str(), error.as_str()));
                assert(texts_view(errors@) =~= texts_view(before).push(outcome_message(outcomes@[i as int])));
            },
        }
    }
    assert(outcomes@.take(n as int) =~= outcomes@);
    (inserted, errors)
}

/// The answer of a `create_review_cards` batch for `deck_id`: with no card
/// handed in, `Empty` (no deck is looked up); with cards and no deck found,
/// the deck is not found; else, against the deck found (its id and name),
/// the stored count and the messages of the skipped and failed cards, from
/// what came of each card in turn.
pub fn review_cards_answer(deck_id: i32, has_cards: bool, deck: Option<(i32, String)>, outcomes: &Vec<CardOutcome>)
    -> (r: Result<ReviewCardsAnswer, CoreError>)
    requires
        outcomes.len() <= u32::MAX,
    ensures
        !has_cards ==> (r matches Ok(ReviewCardsAnswer::Empty { deck_id: d }) && d == deck_id),
        has_cards && deck is None
            ==> (r matches Err(e) && e.is_not_found("deck id="@ + signed_decimal(deck_id as int))),
        has_cards && deck is Some ==> (r matches Ok(ReviewCardsAnswer::Done { inserted, deck_id: d, deck_name, errors })
            && inserted == stored_count(outcomes@)
            && d == deck.unwrap().0
            && deck_name@ == deck.unwrap().1@
            && texts_view(errors@) == outcome_errors(outcomes@)),
{
    if !has_cards {
        return Ok(ReviewCardsAnswer::Empty { deck_id });
    }
    match deck {
        None => Err(deck_not_found(deck_id)),
        Some((id, name)) => {
            let (inserted, errors) = summarize_cards(outcomes);
            Ok(ReviewCardsAnswer::Done { inserted, deck_id: id, deck_name: name, errors })
        },
    }
}

/// What `load_skill` hands the model.
#[derive(Debug, Clone)]
pub enum LoadedSkill {
    /// An enabled skill: its id, name and body (cut to the bound).
    Found { id: String, name: String, body: String },
    /// No enabled skill has the id; the model gets this message.
    Unavailable(String),
}

/// The answer of `load_skill` for the skill found under the id, if any.
pub fn load_skill_outcome(found: Option<Skill>) -> (r: LoadedSkill)
    ensures
        (found matches Some(s) && s.enabled) ==> (r matches LoadedSkill::Found { id, name, body }
            && id@ == found.unwrap().id@ && name@ == found.unwrap().name@
            && body@ == skill_body_for_model(found.unwrap().body@)),
        !(found matches Some(s) && s.enabled) ==> (r matches LoadedSkill::Unavailable(m)
            && m@ == "skill not found or disabled"@),
{
    match found {
        Some(s) => {
            if s.enabled {
                LoadedSkill::Found { id: s.id, name: s.name, body: truncate_skill_body(s.body) }
            } else {
                LoadedSkill::Unavailable(owned("skill not found or disabled"))
            }
        },
        None => LoadedSkill::Unavailable(owned("skill not found or disabled")),
    }
}


/// The byte length of a suffix shrinks as the suffix starts later.
proof fn lemma_utf8_len_skip_mono(s: Seq<char>, i: int, j: int)
    requires
        0 <= i <= j <= s.len(),
    ensures
        utf8_len(s.skip(i)) >= utf8_len(s.skip(j)),
{
    assert(s.skip(i) =~= s.skip(i).take(j - i) + s.skip(j));
    lemma_utf8_len_concat(s.skip(i).take(j - i), s.skip(j));
    crate::text::lemma_utf8_len_bounds(s.skip(i).take(j - i));
}

/// A tool output cut for the model keeps a head and a tail of the output
/// that together take at most `max_bytes` bytes and do not overlap, and its
/// marker counts exactly the bytes dropped between them; an output that
/// fits is handed over unchanged.
pub proof fn law_truncated_fits(s: Seq<char>, max_bytes: nat)
    ensures
        utf8_len(s) <= max_bytes ==> truncated(s, max_bytes) == s,
        utf8_len(s) > max_bytes ==> ({
            let half = (max_bytes / 2) as int;
            let h = prefix_fitting(s, half) as int;
            let t = suffix_fitting(s, half) as int;
            &&& h + t <= s.len()
            &&& utf8_len(s.take(h)) + utf8_len(s.skip(s.len() - t)) <= max_bytes
            &&& truncated(s, max_bytes) == s.take(h)
                + truncation_marker((utf8_len(s) - utf8_len(s.take(h)) - utf8_len(s.skip(s.len() - t))) as nat)
                + s.skip(s.len() - t)
            &&& utf8_len(s) - utf8_len(s.take(h)) - utf8_len(s.skip(s.len() - t)) > 0
        }),
{
    if utf8_len(s) > max_bytes {
        let half = (max_bytes / 2) as int;
        lemma_prefix_fitting(s, half);
        lemma_suffix_fitting(s, half);
        let h = prefix_fitting(s, half) as int;
        let t = suffix_fitting(s, half) as int;
        assert(s =~= s.take(h) + s.skip(h));
        lemma_utf8_len_concat(s.take(h), s.skip(h));
        if h + t > s.len() {
            lemma_utf8_len_skip_mono(s, s.len() - t, h);
        }
    }
}

/// The enabled tools of `ts`, in order.
pub open spec fn enabled_only(ts: Seq<ToolView>) -> Seq<ToolView> {
    ts.filter(|t: ToolView| t.enabled)
}

/// The definitions handed to the model are the ten built-in ones, then one
/// per enabled user tool in order: the `k`-th enabled tool gives the
/// definition at `10 + k`, with its name, a description that carries its
/// permission and command, and the one `command` parameter; user tools that
/// are switched off give none.
pub proof fn law_definitions_of_enabled_tools(ts: Seq<ToolView>)
    ensures
        builtin_definitions().len() == 10,
        user_definitions(ts) == enabled_only(ts).map_values(|t: ToolView| user_definition(t)),
        (builtin_definitions() + user_definitions(ts)).len() == 10 + enabled_only(ts).len(),
        forall|k: int| 0 <= k < enabled_only(ts).len() ==>
            (builtin_definitions() + user_definitions(ts))[10 + k]
                == user_definition(#[trigger] enabled_only(ts)[k]),
    decreases ts.len(),
{
    let f = |t: ToolView| t.enabled;
    assert(enabled_only(ts) == ts.filter(f));
    assert(enabled_only(ts.drop_last()) == ts.drop_last().filter(f));
    if ts.len() > 0 {
        law_definitions_of_enabled_tools(ts.drop_last());
        reveal_with_fuel(Seq::<ToolView>::filter, 1);
        assert(ts.filter(f) == if f(ts.last()) { ts.drop_last().filter(f).push(ts.last()) } else { ts.drop_last().filter(f) });
        assert(user_definitions(ts) =~= ts.filter(f).map_values(|t: ToolView| user_definition(t)));
    } else {
        assert(ts.filter(f) =~= Seq::<ToolView>::empty());
        assert(user_definitions(ts) =~= ts.filter(f).map_values(|t: ToolView| user_definition(t)));
    }
    let all = builtin_definitions() + user_definitions(ts);
    assert forall|k: int| 0 <= k < ts.filter(f).len() implies
        all[10 + k] == user_definition(#[trigger] ts.filter(f)[k]) by {
        assert(all[10 + k] == user_definitions(ts)[k]);
    }
}

/// What a user tool hands the model is its standard output followed by each
/// line of its standard error marked `[stderr] `, that whole text taken
/// together: unchanged when it fits in 10240 bytes, else a head and a tail
/// of it, of at most 10240 bytes together, around a marker that counts the
/// bytes left out between them.
pub proof fn law_tool_output_cut(stdout: Seq<char>, stderr: Seq<char>)
    ensures ({
        let c = stdout + stderr_block(lines(stderr));
        let o = tool_output(stdout, stderr);
        &&& utf8_len(c) <= 10240 ==> o == c
        &&& utf8_len(c) > 10240 ==> exists|h: int, t: int| {
            &&& 0 <= h && 0 <= t && h + t <= c.len()
            &&& utf8_len(#[trigger] c.take(h)) + utf8_len(#[trigger] c.skip(c.len() - t)) <= 10240
            &&& o == c.take(h) + "\n...[truncated "@
                + decimal((utf8_len(c) - utf8_len(c.take(h)) - utf8_len(c.skip(c.len() - t))) as nat)
                + " bytes]...\n"@ + c.skip(c.len() - t)
        }
    }),
{
    let c = stdout + stderr_block(lines(stderr));
    law_truncated_fits(c, 10240);
    if utf8_len(c) > 10240 {
        let h = prefix_fitting(c, 5120) as int;
        let t = suffix_fitting(c, 5120) as int;
        assert(utf8_len(c.take(h)) + utf8_len(c.skip(c.len() - t)) <= 10240);
    }
}

/// A query that is not empty is searched by content, as a whole, when one
/// of its words (a longest run of characters that are not whitespace) has
/// fewer than 3 bytes; a full-text query is built only when every word has
/// at least 3 bytes.
pub proof fn law_short_word_searches_content(q: Seq<char>, a: int, b: int)
    requires
        0 <= a < b <= q.len(),
        a == 0 || is_ws(q[a - 1]),
        b == q.len() || is_ws(q[b]),
        forall|i: int| a <= i < b ==> !is_ws(#[trigger] q[i]),
        utf8_len(q.subrange(a, b)) < 3,
    ensures
        memo_query_for(q) == MemoQueryView::ContentContains(q),
        !(memo_query_for(q) is FullText),
{
    let p = ws();
    assert forall|i: int| a <= i < b implies !p(#[trigger] q[i]) by {}
    crate::text::lemma_split_has_run(q, p, a, b);
    let pieces = split_by(q, p);
    let k = choose|k: int| 0 <= k < pieces.len() && pieces[k] == q.subrange(a, b);
    let nonempty = |w: Seq<char>| w.len() > 0;
    pieces.lemma_filter_contains(nonempty, k);
    let ws_ = words(q);
    assert(ws_ == pieces.filter(nonempty));
    let j = choose|j: int| 0 <= j < ws_.len() && ws_[j] == q.subrange(a, b);
    assert(utf8_len(ws_[j]) < 3);
}

} // verus!
