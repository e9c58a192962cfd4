//! The records handed to the front end for skills, tools and workspaces.

use vstd::prelude::*;
use crate::skill::{Skill, SkillSource, strings_view};
use crate::tool::{Tool, permission_name};
use crate::workspace::{Workspace, WorkspaceRegistry, WorkspaceStatus, WorkspaceView, workspaces_view,
    has_id, first_with_id, well_formed, not_found_message};
use crate::error::IpcError;
use crate::text::{chars_of, chars_eq, owned, concat2};

verus! {

/// A skill as the front end sees it; `source` is `"builtin"` or `"user"`.
#[derive(Debug, Clone)]
pub struct SkillDto {
    pub id: String,
    pub name: String,
    pub description: String,
    pub tools: Vec<String>,
    pub body: String,
    pub enabled: bool,
    pub source: String,
    pub created_ts: i64,
    pub updated_ts: i64,
}

/// The front-end name of a skill source.
pub open spec fn source_name(s: SkillSource) -> Seq<char> {
    match s {
        SkillSource::BuiltIn => "builtin"@,
        SkillSource::User => "user"@,
    }
}

impl SkillDto {
    /// The record for `s`: the same fields, with the source by name.
    pub fn from(s: Skill) -> (d: SkillDto)
        ensures
            d.id@ == s.id@,
            d.name@ == s.name@,
            d.description@ == s.description@,
            strings_view(d.tools@) == strings_view(s.tools@),
            d.body@ == s.body@,
            d.enabled == s.enabled,
            d.source@ == source_name(s.source),
            d.created_ts == s.created_ts,
            d.updated_ts == s.updated_ts,
    {
        let source = match s.source {
            SkillSource::BuiltIn => owned("builtin"),
            SkillSource::User => owned("user"),
        };
        SkillDto {
            source,
            id: s.id,
            name: s.name,
            description: s.description,
            tools: s.tools,
            body: s.body,
            enabled: s.enabled,
            created_ts: s.created_ts,
            updated_ts: s.updated_ts,
        }
    }
}

/// A tool as the front end sees it; `permission` is its stored name.
#[derive(Debug, Clone)]
pub struct ToolDto {
    pub id: String,
    pub name: String,
    pub command: String,
    pub permission: String,
    pub description: String,
    pub timeout_ms: i64,
    pub enabled: bool,
    pub created_ts: i64,
    pub updated_ts: i64,
}

impl ToolDto {
    /// The record for `t`: the same fields, with the permission by name.
    pub fn from(t: Tool) -> (d: ToolDto)
        ensures
            d.id@ == t.id@,
            d.name@ == t.name@,
            d.command@ == t.command@,
            d.permission@ == permission_name(t.permission),
            d.description@ == t.description@,
            d.timeout_ms == t.timeout_ms,
            d.enabled == t.enabled,
            d.created_ts == t.created_ts,
            d.updated_ts == t.updated_ts,
    {
        let permission = owned(t.permission.as_str());
        ToolDto {
            id: t.id,
            name: t.name,
            command: t.command,
            permission,
            description: t.description,
            timeout_ms: t.timeout_ms,
            enabled: t.enabled,
            created_ts: t.created_ts,
            updated_ts: t.updated_ts,
        }
    }
}

/// A workspace as the front end lists it.
#[derive(Debug, Clone)]
pub struct WorkspaceInfo {
    pub id: String,
    pub name: String,
    pub path: String,
    pub created_ts: i64,
    pub is_active: bool,
    pub status: String,
}

/// The request to create a workspace.
#[derive(Debug, Clone)]
pub struct CreateWorkspaceRequest {
    pub name: String,
    pub path: String,
}

/// The front-end name of a workspace status.
pub open spec fn status_name(s: WorkspaceStatus) -> Seq<char> {
    match s {
        WorkspaceStatus::Valid => "valid"@,
        WorkspaceStatus::PathNotFound => "path_not_found"@,
        WorkspaceStatus::PathNotDir => "path_not_dir"@,
        WorkspaceStatus::NotWritable => "not_writable"@,
    }
}

/// The front-end name of a workspace status.
pub fn status_str(status: &WorkspaceStatus) -> (r: &'static str)
    ensures
        r@ == status_name(*status),
{
    match status {
        WorkspaceStatus::Valid => "valid",
        WorkspaceStatus::PathNotFound => "path_not_found",
        WorkspaceStatus::PathNotDir => "path_not_dir",
        WorkspaceStatus::NotWritable => "not_writable",
    }
}

/// `i` lists workspace `w`, whose directory has status `s`, under the active id `active`.
pub open spec fn info_of(i: WorkspaceInfo, w: WorkspaceView, active: Option<Seq<char>>, s: WorkspaceStatus) -> bool {
    &&& i.id@ == w.id
    &&& i.name@ == w.name
    &&& i.path@ == w.path
    &&& i.created_ts == w.created_ts
    &&& i.is_active == (active == Some(w.id))
    &&& i.status@ == status_name(s)
}

/// The list that `workspace_list` returns: each registered workspace, in
/// order, with `statuses[k]` the checked status of the `k`-th directory.
pub fn workspace_infos(reg: &WorkspaceRegistry, statuses: &Vec<WorkspaceStatus>) -> (r: Vec<WorkspaceInfo>)
    requires
        statuses@.len() == reg@.workspaces.len(),
    ensures
        r@.len() == reg@.workspaces.len(),
        forall|k: int| 0 <= k < r@.len() ==> info_of(#[trigger] r@[k], reg@.workspaces[k], reg@.active, statuses@[k]),
{
    let mut r: Vec<WorkspaceInfo> = Vec::new();
    let n = reg.workspaces.len();
    for i in 0..n
        invariant
            n == reg.workspaces@.len(),
            statuses@.len() == n,
            r@.len() == i,
            forall|k: int| 0 <= k < i ==> info_of(#[trigger] r@[k], reg@.workspaces[k], reg@.active, statuses@[k]),
    {
        let ws = &reg.workspaces[i];
        assert(reg@.workspaces[i as int] == ws@);
        let is_active = match &reg.active_workspace_id {
            Some(a) => chars_eq(&chars_of(a.as_str()), &chars_of(ws.id.as_str())),
            None => false,
        };
        r.push(WorkspaceInfo {
            id: ws.id.clone(),
            name: ws.name.clone(),
            path: ws.path.clone(),
            created_ts: ws.created_ts,
            is_active,
            status: owned(status_str(&statuses[i])),
        });
    }
    r
}

/// What `{:?}` prints for a workspace status.
pub open spec fn status_debug_name(s: WorkspaceStatus) -> Seq<char> {
    match s {
        WorkspaceStatus::Valid => "Valid"@,
        WorkspaceStatus::PathNotFound => "PathNotFound"@,
        WorkspaceStatus::PathNotDir => "PathNotDir"@,
        WorkspaceStatus::NotWritable => "NotWritable"@,
    }
}

fn status_debug_str(s: WorkspaceStatus) -> (r: &'static str)
    ensures
        r@ == status_debug_name(s),
{
    match s {
        WorkspaceStatus::Valid => "Valid",
        WorkspaceStatus::PathNotFound => "PathNotFound",
        WorkspaceStatus::PathNotDir => "PathNotDir",
        WorkspaceStatus::NotWritable => "NotWritable",
    }
}

/// `workspace_create` refuses a path that exists and is no directory;
/// otherwise it says whether the directory has to be created first.
pub fn check_create_path(exists: bool, is_dir: bool) -> (r: Result<bool, IpcError>)
    ensures
        exists && !is_dir ==> (r matches Err(e) && e.is_bad_request("路径已存在但不是目录"@)),
        !(exists && !is_dir) ==> r == Ok::<bool, IpcError>(!exists),
{
    if exists && !is_dir {
        return Err(IpcError::BadRequest(owned("路径已存在但不是目录")));
    }
    Ok(!exists)
}

/// A workspace directory is used only when its check found it valid.
pub fn check_valid_status(status: WorkspaceStatus) -> (r: Result<(), IpcError>)
    ensures
        status == WorkspaceStatus::Valid ==> r is Ok,
        status != WorkspaceStatus::Valid ==> (r matches Err(e)
            && e.is_bad_request("工作空间路径无效: "@ + status_debug_name(status))),
{
    if status == WorkspaceStatus::Valid {
        return Ok(());
    }
    Err(IpcError::BadRequest(concat2("工作空间路径无效: ", status_debug_str(status))))
}

/// Registers a new workspace (`WorkspaceRegistry::add`) and gives the record
/// that `workspace_create` returns for it.
pub fn register_workspace(reg: &mut WorkspaceRegistry, name: &str, path: String) -> (info: WorkspaceInfo)
    ensures
        final(reg)@.version == old(reg)@.version,
        final(reg)@.workspaces.drop_last() == old(reg)@.workspaces,
        final(reg)@.workspaces.len() == old(reg)@.workspaces.len() + 1,
        final(reg)@.active == (if old(reg)@.active is None { Some(info.id@) } else { old(reg)@.active }),
        well_formed(old(reg)@) ==> well_formed(final(reg)@),
        info_of(info, final(reg)@.workspaces.last(), final(reg)@.active, WorkspaceStatus::Valid),
        info.name@ == name@,
        info.path@ == path@,
        crate::text::is_prefix("ws-"@, info.id@),
{
    let ws = reg.add(name, path);
    let id = ws.id.clone();
    let ws_name = ws.name.clone();
    let ws_path = ws.path.clone();
    let created = ws.created_ts;
    let is_active = match &reg.active_workspace_id {
        Some(a) => chars_eq(&chars_of(a.as_str()), &chars_of(id.as_str())),
        None => false,
    };
    WorkspaceInfo { id, name: ws_name, path: ws_path, created_ts: created, is_active, status: owned("valid") }
}

/// The message with which a switch is refused while the agent runs.
pub open spec fn agent_busy_message() -> Seq<char> {
    "有正在执行的 AI 任务，请等待完成或中止后再切换"@
}

/// The checks of `workspace_switch` before the directory is looked at: no
/// agent task may be running, and `id` must be registered; gives the
/// workspace to switch to.
pub fn switch_target(reg: &WorkspaceRegistry, id: &str, agent_running: bool) -> (r: Result<Workspace, IpcError>)
    ensures
        agent_running ==> (r matches Err(e) && e.is_bad_request(agent_busy_message())),
        !agent_running && !has_id(reg@.workspaces, id@) ==> (r matches Err(e) && e.is_not_found(not_found_message(id@))),
        !agent_running && has_id(reg@.workspaces, id@) ==> (r matches Ok(w)
            && exists|k: int| first_with_id(reg@.workspaces, id@, k) && w@ == reg@.workspaces[k]),
{
    if agent_running {
        return Err(IpcError::BadRequest(owned("有正在执行的 AI 任务，请等待完成或中止后再切换")));
    }
    match reg.get(id) {
        Some(w) => Ok(Workspace { id: w.id.clone(), name: w.name.clone(), path: w.path.clone(), created_ts: w.created_ts }),
        None => Err(IpcError::NotFound(concat2("workspace ", id))),
    }
}


/// The answer of the health check: the number of memos in the store, or
/// the store's error.
pub fn ping_message(count: Result<i32, String>) -> (r: String)
    ensures
        r@ == match count {
            Ok(n) => "Store 就绪，当前 memo 数: "@ + crate::text::signed_decimal(n as int),
            Err(e) => "Store 错误: "@ + e@,
        },
{
    match count {
        Ok(n) => {
            let digits = crate::text::signed_decimal_string(n as i64);
            concat2("Store 就绪，当前 memo 数: ", digits.as_str())
        },
        Err(e) => concat2("Store 错误: ", e.as_str()),
    }
}

} // verus!
