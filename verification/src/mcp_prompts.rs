//! The texts of the MCP prompt templates and resources: the memo context
//! block, the three prompts and the addresses of memo resources.

use vstd::prelude::*;
use crate::text::{owned, decimal, signed_decimal, push_decimal, signed_decimal_string};
use crate::mcp::{format_ts, chrono_utc_format, ts_pattern, answer_hint, INVALID_PARAMS, METHOD_NOT_FOUND, is_rpc_error};
use crate::lan::opt_string_view;

verus! {

/// `parts` joined with `sep` between them (`[..].join(sep)`).
pub open spec fn joined(parts: Seq<Seq<char>>, sep: Seq<char>) -> Seq<char>
    decreases parts.len(),
{
    if parts.len() == 0 {
        Seq::empty()
    } else if parts.len() == 1 {
        parts[0]
    } else {
        joined(parts.drop_last(), sep) + sep + parts.last()
    }
}

/// Joining one more part appends the separator and the part.
proof fn lemma_joined_push(parts: Seq<Seq<char>>, sep: Seq<char>, p: Seq<char>)
    ensures
        joined(parts.push(p), sep) == if parts.len() == 0 { p } else { joined(parts, sep) + sep + p },
{
    assert(parts.push(p).drop_last() =~= parts);
}

/// A due review card, as the prompt shows it.
#[derive(Debug, Clone)]
pub struct DueCard {
    pub card_type: String,
    pub front: String,
    pub back: String,
    pub cloze_answer: Option<String>,
}

/// The plain value of a due card.
pub struct DueCardView {
    pub card_type: Seq<char>,
    pub front: Seq<char>,
    pub back: Seq<char>,
    pub cloze_answer: Option<Seq<char>>,
}

impl View for DueCard {
    type V = DueCardView;

    open spec fn view(&self) -> DueCardView {
        DueCardView {
            card_type: self.card_type@,
            front: self.front@,
            back: self.back@,
            cloze_answer: opt_string_view(self.cloze_answer),
        }
    }
}

/// A deck with its due cards (at most the requested number).
#[derive(Debug, Clone)]
pub struct DueDeck {
    pub name: String,
    pub cards: Vec<DueCard>,
}

/// The plain value of a deck and its due cards.
pub struct DueDeckView {
    pub name: Seq<char>,
    pub cards: Seq<DueCardView>,
}

impl View for DueDeck {
    type V = DueDeckView;

    open spec fn view(&self) -> DueDeckView {
        DueDeckView { name: self.name@, cards: self.cards@.map_values(|c: DueCard| c@) }
    }
}

/// The plain values of a list of decks.
pub open spec fn decks_view(v: Seq<DueDeck>) -> Seq<DueDeckView> {
    v.map_values(|d: DueDeck| d@)
}

/// The answer shown for a card: the cloze answer (or a blank) for cloze
/// cards, the back for the others.
pub open spec fn hint_of(c: DueCardView) -> Seq<char> {
    if c.card_type == "cloze"@ {
        match c.cloze_answer {
            Some(a) => a,
            None => "_____"@,
        }
    } else {
        c.back
    }
}

/// The line of the `i`-th card (counted from 0) of a deck.
pub open spec fn card_line(i: int, c: DueCardView) -> Seq<char> {
    decimal((i + 1) as nat) + ". ["@ + c.card_type + "] "@ + c.front + "\n   答："@ + hint_of(c)
}

/// The heading of a deck's section.
pub open spec fn deck_heading(d: DueDeckView) -> Seq<char> {
    "## 牌组："@ + d.name + "（"@ + decimal(d.cards.len()) + " 张到期）"@
}

/// The lines of the cards of a deck.
pub open spec fn card_lines(cards: Seq<DueCardView>) -> Seq<Seq<char>> {
    Seq::new(cards.len(), |i: int| card_line(i, cards[i]))
}

/// A deck's section: its heading and its card lines, one per line.
pub open spec fn deck_section(d: DueDeckView) -> Seq<char> {
    joined(seq![deck_heading(d)] + card_lines(d.cards), "\n"@)
}

/// The sections of the decks that have due cards, in order.
pub open spec fn due_sections(decks: Seq<DueDeckView>) -> Seq<Seq<char>>
    decreases decks.len(),
{
    if decks.len() == 0 {
        Seq::empty()
    } else if decks.last().cards.len() > 0 {
        due_sections(decks.drop_last()).push(deck_section(decks.last()))
    } else {
        due_sections(decks.drop_last())
    }
}

/// The number of due cards over all decks.
pub open spec fn total_due(decks: Seq<DueDeckView>) -> nat
    decreases decks.len(),
{
    if decks.len() == 0 {
        0
    } else {
        total_due(decks.drop_last()) + decks.last().cards.len()
    }
}

proof fn lemma_total_due_prefix(decks: Seq<DueDeckView>, i: int)
    requires
        0 <= i <= decks.len(),
    ensures
        total_due(decks.take(i)) <= total_due(decks),
    decreases decks.len(),
{
    if i < decks.len() {
        assert(decks.drop_last().take(i) =~= decks.take(i));
        lemma_total_due_prefix(decks.drop_last(), i);
    } else {
        assert(decks.take(i) =~= decks);
    }
}

/// The prompt text when no deck exists.
pub open spec fn no_decks_text() -> Seq<char> {
    "当前没有任何复习牌组，请先在 LocalFragNote 中创建牌组并生成卡片。"@
}

/// The prompt text when no card is due.
pub open spec fn nothing_due_text() -> Seq<char> {
    "当前没有到期的复习卡片。"@
}

/// The opening of the review prompt for `total` due cards.
pub open spec fn review_intro(total: nat) -> Seq<char> {
    "以下是我今天到期的 "@ + decimal(total)
        + " 张复习卡片。请：\n1. 逐条出题考我（先遮住答案，等我回答后再判定）\n2. 对每张卡给出掌握度评分（again/hard/good/easy）\n3. 全部结束后给出本次复习总结\n\n"@
}

/// The text of the `review_due` prompt for the decks and their due cards.
pub open spec fn review_due_text(decks: Seq<DueDeckView>) -> Seq<char> {
    if decks.len() == 0 {
        no_decks_text()
    } else if total_due(decks) == 0 {
        nothing_due_text()
    } else {
        review_intro(total_due(decks)) + joined(due_sections(decks), "\n\n"@)
    }
}

/// The line of the `i`-th card (see `card_line`).
fn render_card_line(i: usize, c: &DueCard) -> (r: String)
    requires
        i < usize::MAX,
    ensures
        r@ == card_line(i as int, c@),
{
    let mut s = String::new();
    push_decimal(&mut s, (i + 1) as u64);
    s.append(". [");
    s.append(c.card_type.as_str());
    s.append("] ");
    s.append(c.front.as_str());
    s.append("\n   答：");
    let cloze = match &c.cloze_answer {
        Some(a) => Some(a.as_str()),
        None => None,
    };
    let hint = answer_hint(c.card_type.as_str(), cloze, c.back.as_str());
    s.append(hint);
    s
}

/// Builds the section of one deck with due cards.
fn render_deck(d: &DueDeck) -> (r: String)
    ensures
        r@ == deck_section(d@),
{
    let ghost cards = d@.cards;
    let mut s = owned("## 牌组：");
    s.append(d.name.as_str());
    s.append("（");
    push_decimal(&mut s, d.cards.len() as u64);
    s.append(" 张到期）");
    let ghost head = deck_heading(d@);
    assert(s@ =~= head);
    assert(seq![head] + card_lines(cards).take(0) =~= seq![head]);
    let n = d.cards.len();
    for i in 0..n
        invariant
            n == d.cards@.len(),
            cards == d@.cards,
            head == deck_heading(d@),
            s@ == joined(seq![head] + card_lines(cards).take(i as int), "\n"@),
    {
        let c = &d.cards[i];
        let line = render_card_line(i, c);
        let ghost before = s@;
        s.append("\n");
        s.append(line.as_str());
        proof {
            let l = card_lines(cards);
            assert(cards[i as int] == c@);
            assert(l[i as int] == line@);
            assert(seq![head] + l.take(i + 1) =~= (seq![head] + l.take(i as int)).push(l[i as int]));
            lemma_joined_push(seq![head] + l.take(i as int), "\n"@, l[i as int]);
        }
    }
    assert(card_lines(cards).take(n as int) =~= card_lines(cards));
    s
}

/// The text of the `review_due` prompt (see `review_due_text`).
pub fn render_review_due(decks: &Vec<DueDeck>) -> (r: String)
    requires
        total_due(decks_view(decks@)) <= usize::MAX,
    ensures
        r@ == review_due_text(decks_view(decks@)),
{
    let ghost dv = decks_view(decks@);
    if decks.len() == 0 {
        return owned("当前没有任何复习牌组，请先在 LocalFragNote 中创建牌组并生成卡片。");
    }
    let mut body = String::new();
    let mut total: usize = 0;
    let mut count: usize = 0;
    let n = decks.len();
    for i in 0..n
        invariant
            n == decks@.len(),
            dv == decks_view(decks@),
            total_due(dv) <= usize::MAX,
            total == total_due(dv.take(i as int)),
            count == due_sections(dv.take(i as int)).len(),
            count <= i,
            body@ == joined(due_sections(dv.take(i as int)), "\n\n"@),
    {
        let d = &decks[i];
        assert(dv[i as int] == d@);
        assert(dv.take(i + 1).drop_last() =~= dv.take(i as int));
        proof { lemma_total_due_prefix(dv, i + 1); }
        if d.cards.len() > 0 {
            let section = render_deck(d);
            proof { lemma_joined_push(due_sections(dv.take(i as int)), "\n\n"@, section@); }
            if count > 0 {
                body.append("\n\n");
            }
            body.append(section.as_str());
            count = count + 1;
        }
        total = total + d.cards.len();
    }
    assert(dv.take(n as int) =~= dv);
    if total == 0 {
        return owned("当前没有到期的复习卡片。");
    }
    let mut r = owned("以下是我今天到期的 ");
    push_decimal(&mut r, total as u64);
    r.append(" 张复习卡片。请：\n1. 逐条出题考我（先遮住答案，等我回答后再判定）\n2. 对每张卡给出掌握度评分（again/hard/good/easy）\n3. 全部结束后给出本次复习总结\n\n");
    r.append(body.as_str());
    r
}

/// A memo as a prompt's context block shows it: its uid, creation time,
/// tags and snippet.
#[derive(Debug, Clone)]
pub struct MemoContext {
    pub uid: String,
    pub created_ts: i64,
    pub tags: Vec<String>,
    pub snippet: String,
}

/// The plain value of a memo in a context block.
pub struct MemoContextView {
    pub uid: Seq<char>,
    pub created_ts: i64,
    pub tags: Seq<Seq<char>>,
    pub snippet: Seq<char>,
}

impl View for MemoContext {
    type V = MemoContextView;

    open spec fn view(&self) -> MemoContextView {
        MemoContextView {
            uid: self.uid@,
            created_ts: self.created_ts,
            tags: crate::skill::strings_view(self.tags@),
            snippet: self.snippet@,
        }
    }
}

/// The plain values of a list of memos.
pub open spec fn memos_view(v: Seq<MemoContext>) -> Seq<MemoContextView> {
    v.map_values(|m: MemoContext| m@)
}

/// A time stamp as shown (see `format_ts`).
pub open spec fn shown_ts(ts: i64) -> Seq<char> {
    match chrono_utc_format(ts, ts_pattern()) {
        Some(s) => s,
        None => signed_decimal(ts as int),
    }
}

/// The tags of a memo after its time: ` · #a #b`, or nothing.
pub open spec fn tag_suffix(tags: Seq<Seq<char>>) -> Seq<char> {
    if tags.len() == 0 {
        Seq::empty()
    } else {
        " · "@ + joined(tags.map_values(|t: Seq<char>| "#"@ + t), " "@)
    }
}

/// The entry of one memo in a context block.
pub open spec fn memo_entry(m: MemoContextView) -> Seq<char> {
    "- **"@ + m.uid + "**（"@ + shown_ts(m.created_ts) + tag_suffix(m.tags) + "）\n  "@ + m.snippet
}

/// A context block: `## title` and the memos' entries, one per line, or a
/// note that there is nothing.
pub open spec fn memos_context(memos: Seq<MemoContextView>, title: Seq<char>) -> Seq<char> {
    if memos.len() == 0 {
        "（"@ + title + "：无内容）"@
    } else {
        joined(seq!["## "@ + title] + memos.map_values(|m: MemoContextView| memo_entry(m)), "\n"@)
    }
}

/// Appends ` · #a #b` for the tags, if any.
fn push_tags(s: &mut String, tags: &Vec<String>)
    ensures
        final(s)@ == old(s)@ + tag_suffix(crate::skill::strings_view(tags@)),
{
    let ghost tv = crate::skill::strings_view(tags@);
    let ghost hashed = tv.map_values(|t: Seq<char>| "#"@ + t);
    if tags.len() == 0 {
        assert(s@ =~= old(s)@ + tag_suffix(tv));
        return;
    }
    s.append(" · ");
    let ghost start = s@;
    let n = tags.len();
    for i in 0..n
        invariant
            n == tags@.len(),
            n > 0,
            tv == crate::skill::strings_view(tags@),
            hashed == tv.map_values(|t: Seq<char>| "#"@ + t),
            s@ == start + joined(hashed.take(i as int), " "@),
    {
        let ghost before = s@;
        if i > 0 {
            s.append(" ");
        }
        s.append("#");
        s.append(tags[i].as_str());
        proof {
            assert(tv[i as int] == tags@[i as int]@);
            assert(hashed.take(i + 1) =~= hashed.take(i as int).push(hashed[i as int]));
            lemma_joined_push(hashed.take(i as int), " "@, hashed[i as int]);
            if i == 0 {
                assert(s@ =~= start + hashed[0]);
            } else {
                assert(s@ =~= before + " "@ + hashed[i as int]);
            }
        }
    }
    assert(hashed.take(n as int) =~= hashed);
    assert(s@ =~= old(s)@ + tag_suffix(tv));
}

/// The entry of one memo (see `memo_entry`).
fn render_memo_entry(m: &MemoContext) -> (r: String)
    ensures
        r@ == memo_entry(m@),
{
    let mut r = owned("- **");
    r.append(m.uid.as_str());
    r.append("**（");
    let ts = format_ts(m.created_ts);
    r.append(ts.as_str());
    push_tags(&mut r, &m.tags);
    r.append("）\n  ");
    r.append(m.snippet.as_str());
    r
}

/// Renders memos as a context block for a prompt (see `memos_context`).
pub fn format_memos_as_context(memos: &Vec<MemoContext>, title: &str) -> (r: String)
    ensures
        r@ == memos_context(memos_view(memos@), title@),
{
    let ghost mv = memos_view(memos@);
    if memos.len() == 0 {
        let mut r = owned("（");
        r.append(title);
        r.append("：无内容）");
        return r;
    }
    let ghost entries = mv.map_values(|m: MemoContextView| memo_entry(m));
    let mut r = owned("## ");
    r.append(title);
    let ghost head = "## "@ + title@;
    assert(r@ =~= joined(seq![head] + entries.take(0), "\n"@));
    let n = memos.len();
    for i in 0..n
        invariant
            n == memos@.len(),
            mv == memos_view(memos@),
            entries == mv.map_values(|m: MemoContextView| memo_entry(m)),
            head == "## "@ + title@,
            r@ == joined(seq![head] + entries.take(i as int), "\n"@),
    {
        let m = &memos[i];
        assert(mv[i as int] == m@);
        let entry = render_memo_entry(m);
        let ghost before = r@;
        r.append("\n");
        r.append(entry.as_str());
        proof {
            assert(entries[i as int] == memo_entry(m@));
            assert(seq![head] + entries.take(i + 1) =~= (seq![head] + entries.take(i as int)).push(entries[i as int]));
            lemma_joined_push(seq![head] + entries.take(i as int), "\n"@, entries[i as int]);
            assert(r@ =~= before + "\n"@ + entries[i as int]);
        }
    }
    assert(entries.take(n as int) =~= entries);
    r
}

/// The text of the `summarize_recent` prompt for `n` memos and their block.
pub open spec fn summarize_recent_text(n: nat, body: Seq<char>) -> Seq<char> {
    "请阅读以下我最近的 "@ + decimal(n)
        + " 条笔记，输出：\n1. 主要主题与关注点（按出现频率排序）\n2. 待办任务清单（从笔记中的任务列表项提取）\n3. 可能需要补充或关联的笔记主题建议\n\n"@
        + body
}

/// The `summarize_recent` prompt for the most recent memos.
pub fn render_summarize_recent(memos: &Vec<MemoContext>) -> (r: String)
    ensures
        r@ == summarize_recent_text(memos@.len(), memos_context(memos_view(memos@), "最近笔记"@)),
{
    let body = format_memos_as_context(memos, "最近笔记");
    let mut r = owned("请阅读以下我最近的 ");
    push_decimal(&mut r, memos.len() as u64);
    r.append(" 条笔记，输出：\n1. 主要主题与关注点（按出现频率排序）\n2. 待办任务清单（从笔记中的任务列表项提取）\n3. 可能需要补充或关联的笔记主题建议\n\n");
    r.append(body.as_str());
    r
}

/// The text of the `gather_by_tag` prompt.
pub open spec fn gather_by_tag_text(tag: Seq<char>, memos: Seq<MemoContextView>) -> Seq<char> {
    if memos.len() == 0 {
        "没有找到带 #"@ + tag + " 标签的笔记。"@
    } else {
        "以下是我所有带 #"@ + tag + " 标签的 "@ + decimal(memos.len())
            + " 条笔记。请：\n1. 提炼这些笔记的共同主题\n2. 指出彼此之间的关联或矛盾\n3. 给出三条可继续深入的方向建议\n\n"@
            + memos_context(memos, "#"@ + tag + " 相关笔记"@)
    }
}

/// The `gather_by_tag` prompt for the memos with tag `tag`.
pub fn render_gather_by_tag(tag: &str, memos: &Vec<MemoContext>) -> (r: String)
    ensures
        r@ == gather_by_tag_text(tag@, memos_view(memos@)),
{
    if memos.len() == 0 {
        let mut r = owned("没有找到带 #");
        r.append(tag);
        r.append(" 标签的笔记。");
        return r;
    }
    let mut title = owned("#");
    title.append(tag);
    title.append(" 相关笔记");
    let body = format_memos_as_context(memos, title.as_str());
    let mut r = owned("以下是我所有带 #");
    r.append(tag);
    r.append(" 标签的 ");
    push_decimal(&mut r, memos.len() as u64);
    r.append(" 条笔记。请：\n1. 提炼这些笔记的共同主题\n2. 指出彼此之间的关联或矛盾\n3. 给出三条可继续深入的方向建议\n\n");
    r.append(body.as_str());
    r
}

/// The address of a memo resource.
pub fn memo_resource_uri(uid: &str) -> (r: String)
    ensures
        r@ == "memo://"@ + uid@,
{
    let mut r = owned("memo://");
    r.append(uid);
    r
}

/// The description of a memo resource: `memo #{id} · {uid}`.
pub fn memo_resource_description(id: i64, uid: &str) -> (r: String)
    ensures
        r@ == "memo #"@ + signed_decimal(id as int) + " · "@ + uid@,
{
    let mut r = owned("memo #");
    let n = signed_decimal_string(id);
    r.append(n.as_str());
    r.append(" · ");
    r.append(uid);
    r
}

/// The error of `resources/read` when no memo has the uid.
pub fn memo_not_found(uid: &str) -> (e: (i32, String))
    ensures
        is_rpc_error(e, METHOD_NOT_FOUND, "找不到 uid="@ + uid@ + " 对应的 memo"@),
{
    let mut m = owned("找不到 uid=");
    m.append(uid);
    m.append(" 对应的 memo");
    (METHOD_NOT_FOUND, m)
}


/// One argument of a prompt template.
#[derive(Debug, Clone)]
pub struct PromptArgument {
    pub name: String,
    pub description: String,
    pub required: bool,
}

/// A prompt template as `prompts/list` describes it.
#[derive(Debug, Clone)]
pub struct PromptTemplate {
    pub name: String,
    pub description: String,
    pub arguments: Vec<PromptArgument>,
}

/// The plain value of a template: its name, description and arguments
/// (name, description, required).
pub open spec fn template_view(t: PromptTemplate) -> (Seq<char>, Seq<char>, Seq<(Seq<char>, Seq<char>, bool)>) {
    (t.name@, t.description@, t.arguments@.map_values(|a: PromptArgument| (a.name@, a.description@, a.required)))
}

/// The templates that `prompts/list` offers, in order.
pub open spec fn prompt_templates_spec() -> Seq<(Seq<char>, Seq<char>, Seq<(Seq<char>, Seq<char>, bool)>)> {
    seq![
        ("summarize_recent"@, "总结最近 N 条笔记的主要主题与待办项"@,
            seq![("limit"@, "取最近多少条笔记（默认 10，最大 50）"@, false)]),
        ("gather_by_tag"@, "按标签汇总所有相关笔记，提炼共性话题"@,
            seq![("tag"@, "标签名（不带 # 前缀）"@, true)]),
        ("review_due"@, "从所有牌组的到期卡片中各取若干，生成自测题"@,
            seq![("limit"@, "每个牌组最多取多少张卡（默认 5）"@, false)]),
    ]
}

fn one_argument(name: &str, description: &str, required: bool) -> (r: Vec<PromptArgument>)
    ensures
        r@.map_values(|a: PromptArgument| (a.name@, a.description@, a.required))
            == seq![(name@, description@, required)],
{
    let mut v: Vec<PromptArgument> = Vec::new();
    v.push(PromptArgument { name: owned(name), description: owned(description), required });
    assert(v@.map_values(|a: PromptArgument| (a.name@, a.description@, a.required))
        =~= seq![(name@, description@, required)]);
    v
}

/// The templates that `prompts/list` returns.
pub fn prompt_templates() -> (r: Vec<PromptTemplate>)
    ensures
        r@.map_values(|t: PromptTemplate| template_view(t)) == prompt_templates_spec(),
{
    let mut v: Vec<PromptTemplate> = Vec::new();
    v.push(PromptTemplate {
        name: owned("summarize_recent"),
        description: owned("总结最近 N 条笔记的主要主题与待办项"),
        arguments: one_argument("limit", "取最近多少条笔记（默认 10，最大 50）", false),
    });
    v.push(PromptTemplate {
        name: owned("gather_by_tag"),
        description: owned("按标签汇总所有相关笔记，提炼共性话题"),
        arguments: one_argument("tag", "标签名（不带 # 前缀）", true),
    });
    v.push(PromptTemplate {
        name: owned("review_due"),
        description: owned("从所有牌组的到期卡片中各取若干，生成自测题"),
        arguments: one_argument("limit", "每个牌组最多取多少张卡（默认 5）", false),
    });
    assert(v@.map_values(|t: PromptTemplate| template_view(t)) =~= prompt_templates_spec());
    v
}

/// What `initialize` answers, but for the server version: the protocol
/// version, the server's name and which lists can change or be subscribed.
#[derive(Debug, Clone)]
pub struct InitializeInfo {
    pub protocol_version: String,
    pub server_name: String,
    pub tools_list_changed: bool,
    pub resources_list_changed: bool,
    pub resources_subscribe: bool,
    pub prompts_list_changed: bool,
}

/// The answer to `initialize`: tools, resources, prompts and logging are
/// offered; no list announces changes and resources cannot be subscribed.
pub fn initialize_info() -> (r: InitializeInfo)
    ensures
        r.protocol_version@ == crate::mcp::PROTOCOL_VERSION@,
        r.server_name@ == crate::mcp::SERVER_NAME@,
        !r.tools_list_changed,
        !r.resources_list_changed,
        !r.resources_subscribe,
        !r.prompts_list_changed,
{
    InitializeInfo {
        protocol_version: owned(crate::mcp::PROTOCOL_VERSION),
        server_name: owned(crate::mcp::SERVER_NAME),
        tools_list_changed: false,
        resources_list_changed: false,
        resources_subscribe: false,
        prompts_list_changed: false,
    }
}

/// The single message of a rendered prompt.
#[derive(Debug, Clone)]
pub struct PromptMessage {
    pub role: String,
    pub content_type: String,
    pub text: String,
}

/// The message that `prompts/get` returns for a rendered text: a user
/// message with text content.
pub fn prompt_message(text: String) -> (r: PromptMessage)
    ensures
        r.role@ == "user"@,
        r.content_type@ == "text"@,
        r.text@ == text@,
{
    PromptMessage { role: owned("user"), content_type: owned("text"), text }
}

/// The description that accompanies every rendered prompt.
pub const PROMPT_DESCRIPTION: &'static str = "LocalFragNote 渲染的提示消息";

} // verus!
