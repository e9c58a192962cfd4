//! User-configurable shell tools: permission levels and the rules that a
//! tool record must satisfy before it is stored.

use vstd::prelude::*;
use crate::error::CoreError;
use crate::text::{chars_of, chars_eq, concat3, owned, starts_with, utf8_len, utf8_len_exceeds, lex_le};

verus! {

/// How much a tool may do; the last two need the user's confirmation.
#[derive(Debug, Clone, Copy, PartialEq, Eq, Structural)]
pub enum Permission {
    ReadOnly,
    Writable,
    Executable,
    Dangerous,
}

/// Whether running a tool of level `p` needs the user's confirmation: the
/// executable and dangerous levels do.
pub open spec fn needs_confirmation(p: Permission) -> bool {
    p == Permission::Executable || p == Permission::Dangerous
}

/// The stored (snake_case) name of a permission level.
pub open spec fn permission_name(p: Permission) -> Seq<char> {
    match p {
        Permission::ReadOnly => "read_only"@,
        Permission::Writable => "writable"@,
        Permission::Executable => "executable"@,
        Permission::Dangerous => "dangerous"@,
    }
}

/// The message of `from_str` for an unknown name.
pub open spec fn unknown_permission_message(s: Seq<char>) -> Seq<char> {
    "未知 permission: "@ + s
}

/// The level whose stored name is `s`, if any.
pub open spec fn parse_permission(s: Seq<char>) -> Option<Permission> {
    if s == "read_only"@ {
        Some(Permission::ReadOnly)
    } else if s == "writable"@ {
        Some(Permission::Writable)
    } else if s == "executable"@ {
        Some(Permission::Executable)
    } else if s == "dangerous"@ {
        Some(Permission::Dangerous)
    } else {
        None
    }
}

impl Permission {
    pub fn as_str(&self) -> (s: &'static str)
        ensures
            s@ == permission_name(*self),
    {
        match self {
            Permission::ReadOnly => "read_only",
            Permission::Writable => "writable",
            Permission::Executable => "executable",
            Permission::Dangerous => "dangerous",
        }
    }

    pub fn from_str(s: &str) -> (r: Result<Permission, CoreError>)
        ensures
            match parse_permission(s@) {
                Some(p) => r == Ok::<Permission, CoreError>(p),
                None => r matches Err(e) && e.is_other(unknown_permission_message(s@)),
            },
    {
        let v = chars_of(s);
        if chars_eq(&v, &chars_of("read_only")) {
            Ok(Permission::ReadOnly)
        } else if chars_eq(&v, &chars_of("writable")) {
            Ok(Permission::Writable)
        } else if chars_eq(&v, &chars_of("executable")) {
            Ok(Permission::Executable)
        } else if chars_eq(&v, &chars_of("dangerous")) {
            Ok(Permission::Dangerous)
        } else {
            let mut m = owned("未知 permission: ");
            m.append(s);
            Err(CoreError::Other(m))
        }
    }

    /// Whether running a tool of this level needs the user's confirmation.
    pub fn requires_confirmation(&self) -> (r: bool)
        ensures
            r == needs_confirmation(*self),
    {
        matches!(self, Permission::Executable | Permission::Dangerous)
    }
}


/// A user tool: a shell command that the AI agent may run.
#[derive(Debug, Clone)]
pub struct Tool {
    pub id: String,
    pub name: String,
    pub command: String,
    pub permission: Permission,
    pub description: String,
    pub timeout_ms: i64,
    pub enabled: bool,
    pub created_ts: i64,
    pub updated_ts: i64,
}

/// The plain value of a tool record.
pub struct ToolView {
    pub id: Seq<char>,
    pub name: Seq<char>,
    pub command: Seq<char>,
    pub permission: Permission,
    pub description: Seq<char>,
    pub timeout_ms: i64,
    pub enabled: bool,
    pub created_ts: i64,
    pub updated_ts: i64,
}

impl View for Tool {
    type V = ToolView;

    open spec fn view(&self) -> ToolView {
        ToolView {
            id: self.id@,
            name: self.name@,
            command: self.command@,
            permission: self.permission,
            description: self.description@,
            timeout_ms: self.timeout_ms,
            enabled: self.enabled,
            created_ts: self.created_ts,
            updated_ts: self.updated_ts,
        }
    }
}

/// Names of the agent's built-in tools; a user tool may not take one.
pub open spec fn builtin_tool_names() -> Seq<Seq<char>> {
    seq![
        "list_memos"@, "get_memo"@, "create_memo"@, "list_tags"@, "list_memos_by_tag"@,
        "update_memo"@, "search_semantic"@, "link_memos"@, "create_review_cards"@,
        "load_skill"@, "officecli"@,
    ]
}

/// Whether `name` is the name of a built-in tool.
pub fn is_builtin_tool_name(name: &str) -> (r: bool)
    ensures
        r == builtin_tool_names().contains(name@),
{
    let v = chars_of(name);
    let names: [&str; 11] = [
        "list_memos", "get_memo", "create_memo", "list_tags", "list_memos_by_tag",
        "update_memo", "search_semantic", "link_memos", "create_review_cards",
        "load_skill", "officecli",
    ];
    assert(names@.map_values(|n: &str| n@) =~= builtin_tool_names());
    for i in 0..11
        invariant
            names@.map_values(|n: &str| n@) == builtin_tool_names(),
            forall|j: int| 0 <= j < i ==> builtin_tool_names()[j] != v@,
            v@ == name@,
    {
        assert(names@.map_values(|n: &str| n@)[i as int] == names@[i as int]@);
        if chars_eq(&v, &chars_of(names[i])) {
            assert(names@.map_values(|n: &str| n@)[i as int] == names@[i as int]@);
            return true;
        }
    }
    false
}

/// The number of bytes of the UTF-8 encoding of `s`.
pub open spec fn byte_len(s: Seq<char>) -> int {
    utf8_len(s)
}

/// A character allowed in a tool name.
pub open spec fn is_name_char(c: char) -> bool {
    ('a' <= c && c <= 'z') || ('0' <= c && c <= '9') || c == '_'
}

/// The message with which a tool name is refused, if it is.
pub open spec fn name_error(name: Seq<char>) -> Option<Seq<char>> {
    if name.len() == 0 || byte_len(name) > 64 {
        Some("工具名长度必须在 1-64 之间"@)
    } else if !(forall|i: int| 0 <= i < name.len() ==> is_name_char(#[trigger] name[i])) {
        Some("工具名只能包含小写字母、数字和下划线"@)
    } else if builtin_tool_names().contains(name) {
        Some("工具名 "@ + name + " 与内置工具冲突"@)
    } else {
        None
    }
}

/// The message with which a command is refused, if it is.
pub open spec fn command_error(command: Seq<char>) -> Option<Seq<char>> {
    if command.len() == 0 {
        Some("命令不能为空"@)
    } else if byte_len(command) > 1024 {
        Some("命令长度不能超过 1024"@)
    } else {
        None
    }
}

/// The message with which a description is refused, if it is.
pub open spec fn description_error(desc: Seq<char>) -> Option<Seq<char>> {
    if desc.len() == 0 {
        Some("描述不能为空"@)
    } else if byte_len(desc) > 500 {
        Some("描述长度不能超过 500"@)
    } else {
        None
    }
}

/// The message with which a timeout is refused, if it is.
pub open spec fn timeout_error(ms: i64) -> Option<Seq<char>> {
    if 1000 <= ms <= 600_000 {
        None
    } else {
        Some("超时时间必须在 1000-600000 毫秒之间"@)
    }
}

/// `r` is `Ok(())` when `err` is `None`, else the `Other` error with that message.
pub open spec fn checked(r: Result<(), CoreError>, err: Option<Seq<char>>) -> bool {
    match err {
        None => r is Ok,
        Some(m) => r matches Err(e) && e.is_other(m),
    }
}

/// Checks a tool name: 1 to 64 bytes of `a-z`, `0-9` and `_`, and no
/// built-in tool's name.
pub fn validate_name(name: &str) -> (r: Result<(), CoreError>)
    ensures
        checked(r, name_error(name@)),
{
    let v = chars_of(name);
    if v.len() == 0 || utf8_len_exceeds(&v, 64) {
        return Err(CoreError::Other(owned("工具名长度必须在 1-64 之间")));
    }
    let n = v.len();
    for i in 0..n
        invariant
            n == v@.len(),
            v@ == name@,
            name@.len() > 0,
            utf8_len(name@) <= 64,
            forall|j: int| 0 <= j < i ==> is_name_char(#[trigger] v@[j]),
    {
        let c = v[i];
        if !(('a' <= c && c <= 'z') || ('0' <= c && c <= '9') || c == '_') {
            assert(!is_name_char(name@[i as int]));
            return Err(CoreError::Other(owned("工具名只能包含小写字母、数字和下划线")));
        }
    }
    if is_builtin_tool_name(name) {
        return Err(CoreError::Other(concat3("工具名 ", name, " 与内置工具冲突")));
    }
    Ok(())
}

/// Checks a command: not empty, at most 1024 bytes.
pub fn validate_command(command: &str) -> (r: Result<(), CoreError>)
    ensures
        checked(r, command_error(command@)),
{
    let v = chars_of(command);
    if v.len() == 0 {
        return Err(CoreError::Other(owned("命令不能为空")));
    }
    if utf8_len_exceeds(&v, 1024) {
        return Err(CoreError::Other(owned("命令长度不能超过 1024")));
    }
    Ok(())
}

/// Checks a description: not empty, at most 500 bytes.
pub fn validate_description(desc: &str) -> (r: Result<(), CoreError>)
    ensures
        checked(r, description_error(desc@)),
{
    let v = chars_of(desc);
    if v.len() == 0 {
        return Err(CoreError::Other(owned("描述不能为空")));
    }
    if utf8_len_exceeds(&v, 500) {
        return Err(CoreError::Other(owned("描述长度不能超过 500")));
    }
    Ok(())
}

/// Checks a timeout: between 1000 and 600000 ms.
pub fn validate_timeout_ms(ms: i64) -> (r: Result<(), CoreError>)
    ensures
        checked(r, timeout_error(ms)),
{
    if !(1000 <= ms && ms <= 600_000) {
        return Err(CoreError::Other(owned("超时时间必须在 1000-600000 毫秒之间")));
    }
    Ok(())
}

/// The message with which the fields of a tool are refused, if they are
/// (checked in this order: name, command, description, timeout).
pub open spec fn fields_error(t: ToolView) -> Option<Seq<char>> {
    if name_error(t.name) is Some {
        name_error(t.name)
    } else if command_error(t.command) is Some {
        command_error(t.command)
    } else if description_error(t.description) is Some {
        description_error(t.description)
    } else {
        timeout_error(t.timeout_ms)
    }
}

/// The message with which a new user tool is refused, if it is: its id must
/// start with `u-`, then its fields must be valid.
pub open spec fn create_error(t: ToolView) -> Option<Seq<char>> {
    if !crate::text::is_prefix("u-"@, t.id) {
        Some("用户工具 id 必须以 u- 开头"@)
    } else {
        fields_error(t)
    }
}

/// `t` is `old` with both time stamps set to `created` and `updated`.
pub open spec fn restamped(t: ToolView, old: ToolView, created: i64, updated: i64) -> bool {
    t == ToolView { created_ts: created, updated_ts: updated, ..old }
}

fn validate_fields(tool: &Tool) -> (r: Result<(), CoreError>)
    ensures
        checked(r, fields_error(tool@)),
{
    validate_name(&tool.name)?;
    validate_command(&tool.command)?;
    validate_description(&tool.description)?;
    validate_timeout_ms(tool.timeout_ms)?;
    Ok(())
}

/// The record that `create` stores for `tool` at time `now`, or why it is refused.
pub fn prepare_create_at(tool: Tool, now: i64) -> (r: Result<Tool, CoreError>)
    ensures
        match create_error(tool@) {
            None => r matches Ok(t) && restamped(t@, tool@, now, now),
            Some(m) => r matches Err(e) && e.is_other(m),
        },
{
    if !starts_with(&tool.id, "u-") {
        return Err(CoreError::Other(owned("用户工具 id 必须以 u- 开头")));
    }
    validate_fields(&tool)?;
    Ok(Tool { created_ts: now, updated_ts: now, ..tool })
}

/// The record that `update` writes for `tool` at time `now`, or why it is refused.
pub fn prepare_update_at(tool: Tool, now: i64) -> (r: Result<Tool, CoreError>)
    ensures
        match fields_error(tool@) {
            None => r matches Ok(t) && restamped(t@, tool@, tool.created_ts, now),
            Some(m) => r matches Err(e) && e.is_other(m),
        },
{
    validate_fields(&tool)?;
    Ok(Tool { updated_ts: now, ..tool })
}

/// Checks a new user tool and stamps it with the current time; this is what
/// the store inserts.
pub fn prepare_create(tool: Tool) -> (r: Result<Tool, CoreError>)
    ensures
        match create_error(tool@) {
            None => r matches Ok(t) && t@.created_ts == t@.updated_ts
                && crate::clock::is_clock_timestamp(t@.created_ts)
                && restamped(t@, tool@, t@.created_ts, t@.updated_ts),
            Some(m) => r matches Err(e) && e.is_other(m),
        },
{
    let now = crate::clock::now_timestamp();
    prepare_create_at(tool, now)
}

/// Checks an edited user tool and stamps its update time with the current
/// time; this is what the store writes.
pub fn prepare_update(tool: Tool) -> (r: Result<Tool, CoreError>)
    ensures
        match fields_error(tool@) {
            None => r matches Ok(t) && restamped(t@, tool@, tool.created_ts, t@.updated_ts)
                && crate::clock::is_clock_timestamp(t@.updated_ts),
            Some(m) => r matches Err(e) && e.is_other(m),
        },
{
    let now = crate::clock::now_timestamp();
    prepare_update_at(tool, now)
}

/// The error of `update` when no stored tool has the id.
pub fn missing_tool_error(id: &str) -> (e: CoreError)
    ensures
        e.is_other("工具 "@ + id@ + " 不存在"@),
{
    CoreError::Other(concat3("工具 ", id, " 不存在"))
}

/// Parsing the stored name of a level gives back that level.
pub proof fn law_permission_round_trip(p: Permission)
    ensures
        parse_permission(permission_name(p)) == Some(p),
{
    reveal_strlit("read_only");
    reveal_strlit("writable");
    reveal_strlit("executable");
    reveal_strlit("dangerous");
    match p {
        Permission::ReadOnly => {},
        Permission::Writable => {
            assert(permission_name(p)[0] != "read_only"@[0]);
        },
        Permission::Executable => {
            assert(permission_name(p)[0] != "read_only"@[0]);
            assert(permission_name(p)[0] != "writable"@[0]);
        },
        Permission::Dangerous => {
            assert(permission_name(p)[0] != "read_only"@[0]);
            assert(permission_name(p)[0] != "writable"@[0]);
            assert(permission_name(p)[0] != "executable"@[0]);
        },
    }
}


/// A copy of a tool record.
pub fn copy_tool(t: &Tool) -> (r: Tool)
    ensures
        r@ == t@,
{
    Tool {
        id: t.id.clone(),
        name: t.name.clone(),
        command: t.command.clone(),
        permission: t.permission,
        description: t.description.clone(),
        timeout_ms: t.timeout_ms,
        enabled: t.enabled,
        created_ts: t.created_ts,
        updated_ts: t.updated_ts,
    }
}

/// Whether the names of `s` ascend (as `list` orders the stored tools).
pub open spec fn by_name(s: Seq<ToolView>) -> bool {
    forall|i: int, j: int| 0 <= i < j < s.len() ==> lex_le(#[trigger] s[i].name, #[trigger] s[j].name)
}

/// The enabled tools of a listing `listed` (what `list` gives), in the
/// listing's order, so still by name where the listing was.
pub fn list_enabled(listed: &Vec<Tool>) -> (r: Vec<Tool>)
    ensures
        crate::ai_tools::tools_view(r@) == crate::ai_tools::tools_view(listed@).filter(|t: ToolView| t.enabled),
        by_name(crate::ai_tools::tools_view(listed@)) ==> by_name(crate::ai_tools::tools_view(r@)),
{
    let ghost s = crate::ai_tools::tools_view(listed@);
    let ghost mut idx: Seq<int> = Seq::empty();
    let mut r: Vec<Tool> = Vec::new();
    let n = listed.len();
    for i in 0..n
        invariant
            n == listed@.len(),
            s == crate::ai_tools::tools_view(listed@),
            crate::ai_tools::tools_view(r@) == s.take(i as int).filter(|t: ToolView| t.enabled),
            idx.len() == r@.len(),
            forall|k: int| 0 <= k < idx.len() ==> 0 <= #[trigger] idx[k] < i && r@[k]@ == s[idx[k]],
            forall|k: int, l: int| 0 <= k < l < idx.len() ==> #[trigger] idx[k] < #[trigger] idx[l],
    {
        let x = &listed[i];
        assert(x@ == s[i as int]);
        if x.enabled {
            r.push(copy_tool(x));
            proof { idx = idx.push(i as int); }
        }
        proof {
            reveal_with_fuel(Seq::<ToolView>::filter, 1);
            assert(s.take(i + 1).drop_last() =~= s.take(i as int));
            assert(crate::ai_tools::tools_view(r@) =~= s.take(i + 1).filter(|t: ToolView| t.enabled));
        }
    }
    assert(s.take(n as int) =~= s);
    proof {
        let rv = crate::ai_tools::tools_view(r@);
        if by_name(s) {
            assert forall|a: int, b: int| 0 <= a < b < rv.len() implies lex_le(#[trigger] rv[a].name, #[trigger] rv[b].name) by {
                assert(rv[a] == s[idx[a]] && rv[b] == s[idx[b]]);
                assert(s[idx[a]].name == s[idx[a]].name);
                assert(lex_le(s[idx[a]].name, s[idx[b]].name));
            }
        }
    }
    r
}


/// A user tool that `create` or `update` accepts never takes a built-in
/// tool's name (so calls by that name keep going to the built-in tool), has
/// a non-empty name of at most 64 bytes, a command of at most 1024 bytes and
/// a timeout between one second and ten minutes.
pub proof fn law_accepted_tools_are_sound(t: ToolView)
    requires
        fields_error(t) is None,
    ensures
        !builtin_tool_names().contains(t.name),
        0 < t.name.len() && byte_len(t.name) <= 64,
        0 < t.command.len() && byte_len(t.command) <= 1024,
        1000 <= t.timeout_ms <= 600_000,
{
}

/// A tool name is accepted only when every character is a lower-case ASCII
/// letter, an ASCII digit or `_`; a name of 1 to 64 bytes with any other
/// character is refused for its characters.
pub proof fn law_name_characters(name: Seq<char>)
    ensures
        name_error(name) is None ==> forall|i: int| 0 <= i < name.len()
            ==> ('a' <= #[trigger] name[i] && name[i] <= 'z') || ('0' <= name[i] && name[i] <= '9') || name[i] == '_',
        (exists|i: int| 0 <= i < name.len()
            && !(('a' <= #[trigger] name[i] && name[i] <= 'z') || ('0' <= name[i] && name[i] <= '9') || name[i] == '_'))
            && name.len() > 0 && utf8_len(name) <= 64
            ==> name_error(name) == Some("工具名只能包含小写字母、数字和下划线"@),
{
}

} // verus!
