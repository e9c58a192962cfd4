//! The workspace registry: the list of workspaces the user has created and
//! which of them is active.

use vstd::prelude::*;
use crate::error::IpcError;
use crate::text::{chars_of, chars_eq, concat2, owned};

verus! {

/// One workspace: a directory holding its own memo database and attachments.
#[derive(Debug, Clone)]
pub struct Workspace {
    pub id: String,
    pub name: String,
    /// The workspace directory.
    pub path: String,
    pub created_ts: i64,
}

/// The plain value of a workspace record.
pub struct WorkspaceView {
    pub id: Seq<char>,
    pub name: Seq<char>,
    pub path: Seq<char>,
    pub created_ts: i64,
}

impl View for Workspace {
    type V = WorkspaceView;

    open spec fn view(&self) -> WorkspaceView {
        WorkspaceView { id: self.id@, name: self.name@, path: self.path@, created_ts: self.created_ts }
    }
}

/// The contents of the registry file.
#[derive(Debug, Clone)]
pub struct WorkspaceRegistry {
    pub version: u32,
    pub active_workspace_id: Option<String>,
    pub workspaces: Vec<Workspace>,
}

/// The plain value of the registry.
pub struct RegistryView {
    pub version: u32,
    pub active: Option<Seq<char>>,
    pub workspaces: Seq<WorkspaceView>,
}

/// The plain values of a list of workspaces.
pub open spec fn workspaces_view(v: Seq<Workspace>) -> Seq<WorkspaceView> {
    v.map_values(|w: Workspace| w@)
}

impl View for WorkspaceRegistry {
    type V = RegistryView;

    open spec fn view(&self) -> RegistryView {
        RegistryView {
            version: self.version,
            active: match self.active_workspace_id {
                Some(s) => Some(s@),
                None => None,
            },
            workspaces: workspaces_view(self.workspaces@),
        }
    }
}

/// The outcome of checking a workspace directory.
#[derive(Debug, Clone, Copy, PartialEq, Eq, Structural)]
pub enum WorkspaceStatus {
    Valid,
    PathNotFound,
    PathNotDir,
    NotWritable,
}

/// Some workspace of `ws` has id `id`.
pub open spec fn has_id(ws: Seq<WorkspaceView>, id: Seq<char>) -> bool {
    exists|k: int| 0 <= k < ws.len() && ws[k].id == id
}

/// `k` is the first position in `ws` whose id is `id`.
pub open spec fn first_with_id(ws: Seq<WorkspaceView>, id: Seq<char>, k: int) -> bool {
    0 <= k < ws.len() && ws[k].id == id && forall|j: int| 0 <= j < k ==> ws[j].id != id
}

/// The registry's invariant: the active id, if any, names a listed
/// workspace, and there is an active workspace whenever any is listed.
pub open spec fn well_formed(r: RegistryView) -> bool {
    &&& r.active matches Some(a) ==> has_id(r.workspaces, a)
    &&& r.workspaces.len() > 0 ==> r.active is Some
}

/// The message of the errors for an unknown workspace id.
pub open spec fn not_found_message(id: Seq<char>) -> Seq<char> {
    "workspace "@ + id
}

/// The predicate "has an id other than `id`".
pub open spec fn id_other_than(id: Seq<char>) -> spec_fn(WorkspaceView) -> bool {
    |w: WorkspaceView| w.id != id
}

fn not_found(id: &str) -> (e: IpcError)
    ensures
        e.is_not_found(not_found_message(id@)),
{
    IpcError::NotFound(concat2("workspace ", id))
}

/// A copy of a workspace record.
fn copy_workspace(w: &Workspace) -> (r: Workspace)
    ensures
        r@ == w@,
{
    Workspace { id: w.id.clone(), name: w.name.clone(), path: w.path.clone(), created_ts: w.created_ts }
}

impl Default for WorkspaceRegistry {
    fn default() -> (r: Self)
        ensures
            r@.version == 1,
            r@.active is None,
            r@.workspaces.len() == 0,
    {
        WorkspaceRegistry { version: 1, active_workspace_id: None, workspaces: Vec::new() }
    }
}

/// A lower-case hexadecimal digit.
pub open spec fn is_hex_lower(c: char) -> bool {
    ('0' <= c && c <= '9') || ('a' <= c && c <= 'f')
}

/// The hyphenated lower-case text of a random (version 4, RFC 4122
/// variant) UUID: 32 hexadecimal digits in groups of 8-4-4-4-12, the
/// version digit `4` and a variant digit among `8`, `9`, `a`, `b`.
pub open spec fn is_v4_uuid_text(s: Seq<char>) -> bool {
    &&& s.len() == 36
    &&& s[8] == '-' && s[13] == '-' && s[18] == '-' && s[23] == '-'
    &&& forall|i: int| 0 <= i < 36 && i != 8 && i != 13 && i != 18 && i != 23 ==> #[trigger] is_hex_lower(s[i])
    &&& s[14] == '4'
    &&& (s[19] == '8' || s[19] == '9' || s[19] == 'a' || s[19] == 'b')
}

/// `uuid::Uuid::new_v4().to_string()`: a random UUID with the version and
/// variant bits set, printed by `Display` in the hyphenated lower-case form.
/// Which UUID comes back is left open.
#[verifier::external_body]
fn new_uuid_v4_string() -> (r: String)
    ensures
        is_v4_uuid_text(r@),
{
    uuid::Uuid::new_v4().to_string()
}

/// A new workspace id: `ws-` followed by a random UUID.
pub fn new_workspace_id() -> (r: String)
    ensures
        crate::text::is_prefix("ws-"@, r@),
        is_v4_uuid_text(r@.skip(3)),
        r@.len() == 39,
{
    let u = new_uuid_v4_string();
    let r = workspace_id_from_uuid(u.as_str());
    proof { reveal_strlit("ws-"); }
    assert(r@.subrange(0, 3) =~= "ws-"@);
    assert(r@.skip(3) =~= u@);
    r
}

/// The workspace id made of a UUID text: `ws-` and the text.
pub fn workspace_id_from_uuid(u: &str) -> (r: String)
    ensures
        r@ == "ws-"@ + u@,
{
    concat2("ws-", u)
}

impl WorkspaceRegistry {
    /// Appends a workspace named `name` at `path`, with a fresh `ws-` id and
    /// the current time; it becomes active when none is.
    pub fn add(&mut self, name: &str, path: String) -> (r: &Workspace)
        ensures
            final(self)@.version == old(self)@.version,
            final(self)@.workspaces.len() == old(self)@.workspaces.len() + 1,
            final(self)@.workspaces.drop_last() == old(self)@.workspaces,
            final(self)@.workspaces.last() == r@,
            r@.name == name@,
            r@.path == path@,
            crate::text::is_prefix("ws-"@, r@.id),
            is_v4_uuid_text(r@.id.skip(3)),
            crate::clock::is_clock_secs(r@.created_ts),
            final(self)@.active == (if old(self)@.active is None { Some(r@.id) } else { old(self)@.active }),
            well_formed(old(self)@) ==> well_formed(final(self)@),
    {
        let id = new_workspace_id();
        let now = crate::clock::now_epoch_secs();
        self.add_at(name, path, id, now)
    }

    /// Appends a workspace named `name` at `path` with id `id`, created at
    /// `created_ts`; it becomes active when none is.
    pub fn add_at(&mut self, name: &str, path: String, id: String, created_ts: i64) -> (r: &Workspace)
        ensures
            final(self)@.version == old(self)@.version,
            final(self)@.workspaces == old(self)@.workspaces.push(r@),
            r@ == (WorkspaceView { id: id@, name: name@, path: path@, created_ts }),
            final(self)@.active == (if old(self)@.active is None { Some(id@) } else { old(self)@.active }),
            well_formed(old(self)@) ==> well_formed(final(self)@),
    {
        let ghost old_v = self@;
        let ws = Workspace { id, name: owned(name), path, created_ts };
        if self.active_workspace_id.is_none() {
            self.active_workspace_id = Some(ws.id.clone());
        }
        let ghost w = ws@;
        self.workspaces.push(ws);
        proof {
            assert(self@.workspaces =~= old_v.workspaces.push(w));
            let n = old_v.workspaces.len();
            assert(self@.workspaces[n as int] == w);
            if well_formed(old_v) && old_v.active is Some {
                let a = old_v.active.unwrap();
                let k = choose|k: int| 0 <= k < old_v.workspaces.len() && old_v.workspaces[k].id == a;
                assert(self@.workspaces[k].id == a);
            }
        }
        let last = self.workspaces.len() - 1;
        &self.workspaces[last]
    }

    /// The position of the first workspace with id `id`.
    fn position(&self, id: &str) -> (r: Option<usize>)
        ensures
            match r {
                Some(k) => first_with_id(self@.workspaces, id@, k as int),
                None => !has_id(self@.workspaces, id@),
            },
    {
        let v = chars_of(id);
        let n = self.workspaces.len();
        for i in 0..n
            invariant
                n == self.workspaces@.len(),
                v@ == id@,
                forall|j: int| 0 <= j < i ==> self@.workspaces[j].id != id@,
        {
            if chars_eq(&chars_of(self.workspaces[i].id.as_str()), &v) {
                return Some(i);
            }
        }
        None
    }

    /// Removes every workspace with id `id`; when the active one is removed,
    /// the first remaining workspace (if any) becomes active.
    pub fn remove(&mut self, id: &str) -> (r: Result<(), IpcError>)
        ensures
            !has_id(old(self)@.workspaces, id@) ==> (r matches Err(e) && e.is_not_found(not_found_message(id@)))
                && final(self)@ == old(self)@,
            has_id(old(self)@.workspaces, id@) ==> r is Ok
                && final(self)@.version == old(self)@.version
                && final(self)@.workspaces == old(self)@.workspaces.filter(id_other_than(id@))
                && final(self)@.active == (if old(self)@.active == Some(id@) {
                    if final(self)@.workspaces.len() > 0 { Some(final(self)@.workspaces[0].id) } else { None }
                } else {
                    old(self)@.active
                }),
            well_formed(old(self)@) ==> well_formed(final(self)@),
    {
        let ghost old_v = self@;
        let v = chars_of(id);
        let mut kept: Vec<Workspace> = Vec::new();
        let n = self.workspaces.len();
        let ghost ws = old_v.workspaces;
        for i in 0..n
            invariant
                n == self.workspaces@.len(),
                self@ == old_v,
                ws == old_v.workspaces,
                v@ == id@,
                workspaces_view(kept@) == ws.take(i as int).filter(id_other_than(id@)),
        {
            let w = &self.workspaces[i];
            assert(w@ == ws[i as int]);
            if !chars_eq(&chars_of(w.id.as_str()), &v) {
                kept.push(copy_workspace(w));
            }
            proof {
                reveal_with_fuel(Seq::<WorkspaceView>::filter, 1);
                assert(ws.take(i + 1).drop_last() =~= ws.take(i as int));
                assert(workspaces_view(kept@) =~= ws.take(i + 1).filter(id_other_than(id@)));
            }
        }
        assert(ws.take(n as int) =~= ws);
        proof { lemma_filter_removes(ws, id@); }
        if kept.len() == n {
            return Err(not_found(id));
        }
        self.workspaces = kept;
        let is_active = match &self.active_workspace_id {
            Some(a) => chars_eq(&chars_of(a.as_str()), &v),
            None => false,
        };
        if is_active {
            self.active_workspace_id = if self.workspaces.len() > 0 {
                Some(self.workspaces[0].id.clone())
            } else {
                None
            };
        }
        proof {
            let nv = self@;
            if well_formed(old_v) {
                if nv.active is Some && !is_active {
                    let a = nv.active.unwrap();
                    let k = choose|k: int| 0 <= k < ws.len() && ws[k].id == a;
                    ws.lemma_filter_contains(id_other_than(id@), k);
                    let f = ws.filter(id_other_than(id@));
                    let m = choose|m: int| 0 <= m < f.len() && f[m] == ws[k];
                    assert(nv.workspaces[m].id == a);
                }
                if nv.active is Some && is_active {
                    assert(nv.workspaces[0].id == nv.active.unwrap());
                }
            }
        }
        Ok(())
    }

    /// Renames the first workspace with id `id`.
    pub fn rename(&mut self, id: &str, new_name: &str) -> (r: Result<(), IpcError>)
        ensures
            !has_id(old(self)@.workspaces, id@) ==> (r matches Err(e) && e.is_not_found(not_found_message(id@)))
                && final(self)@ == old(self)@,
            has_id(old(self)@.workspaces, id@) ==> r is Ok && exists|k: int|
                first_with_id(old(self)@.workspaces, id@, k)
                && final(self)@ == (RegistryView {
                    workspaces: old(self)@.workspaces.update(k, WorkspaceView { name: new_name@, ..old(self)@.workspaces[k] }),
                    ..old(self)@
                }),
            well_formed(old(self)@) ==> well_formed(final(self)@),
    {
        let ghost old_v = self@;
        match self.position(id) {
            None => Err(not_found(id)),
            Some(k) => {
                let w = self.workspaces.remove(k);
                let renamed = Workspace { name: owned(new_name), ..w };
                self.workspaces.insert(k, renamed);
                proof {
                    let nw = old_v.workspaces.update(k as int, WorkspaceView { name: new_name@, ..old_v.workspaces[k as int] });
                    assert(self@.workspaces =~= nw);
                    if well_formed(old_v) && self@.active is Some {
                        let a = self@.active.unwrap();
                        let j = choose|j: int| 0 <= j < old_v.workspaces.len() && old_v.workspaces[j].id == a;
                        assert(self@.workspaces[j].id == a);
                    }
                }
                Ok(())
            },
        }
    }

    /// Makes the workspace `id` active.
    pub fn set_active(&mut self, id: &str) -> (r: Result<(), IpcError>)
        ensures
            !has_id(old(self)@.workspaces, id@) ==> (r matches Err(e) && e.is_not_found(not_found_message(id@)))
                && final(self)@ == old(self)@,
            has_id(old(self)@.workspaces, id@) ==> r is Ok
                && final(self)@ == (RegistryView { active: Some(id@), ..old(self)@ }),
            well_formed(old(self)@) ==> well_formed(final(self)@),
    {
        match self.position(id) {
            None => Err(not_found(id)),
            Some(_) => {
                self.active_workspace_id = Some(owned(id));
                Ok(())
            },
        }
    }

    /// The active workspace, if the active id names a listed workspace (the
    /// first with that id).
    pub fn get_active(&self) -> (r: Option<&Workspace>)
        ensures
            match self@.active {
                None => r is None,
                Some(a) => match r {
                    None => !has_id(self@.workspaces, a),
                    Some(w) => exists|k: int| first_with_id(self@.workspaces, a, k) && w@ == self@.workspaces[k],
                },
            },
    {
        match &self.active_workspace_id {
            None => None,
            Some(a) => self.get(a.as_str()),
        }
    }

    /// The first workspace with id `id`.
    pub fn get(&self, id: &str) -> (r: Option<&Workspace>)
        ensures
            match r {
                None => !has_id(self@.workspaces, id@),
                Some(w) => exists|k: int| first_with_id(self@.workspaces, id@, k) && w@ == self@.workspaces[k],
            },
    {
        match self.position(id) {
            None => None,
            Some(k) => Some(&self.workspaces[k]),
        }
    }
}

/// Filtering out `id` shortens the list exactly when `id` is listed.
proof fn lemma_filter_removes(ws: Seq<WorkspaceView>, id: Seq<char>)
    ensures
        ws.filter(id_other_than(id)).len() == ws.len() <==> !has_id(ws, id),
        !has_id(ws, id) ==> ws.filter(id_other_than(id)) == ws,
    decreases ws.len(),
{
    reveal_with_fuel(Seq::<WorkspaceView>::filter, 1);
    if ws.len() > 0 {
        lemma_filter_removes(ws.drop_last(), id);
        ws.drop_last().lemma_filter_len(id_other_than(id));
        if has_id(ws.drop_last(), id) {
            let k = choose|k: int| 0 <= k < ws.drop_last().len() && ws.drop_last()[k].id == id;
            assert(ws[k].id == id);
        }
        if has_id(ws, id) && !has_id(ws.drop_last(), id) {
            let k = choose|k: int| 0 <= k < ws.len() && ws[k].id == id;
            if k < ws.len() - 1 {
                assert(ws.drop_last()[k].id == id);
            }
        }
        if !has_id(ws, id) {
            assert(ws.drop_last().push(ws.last()) =~= ws);
            assert forall|k: int| 0 <= k < ws.drop_last().len() implies ws.drop_last()[k].id != id by {
                assert(ws[k].id != id);
            }
        }
    } else {
        assert(ws.filter(id_other_than(id)) =~= ws);
    }
}


/// After `remove(id)` no workspace has that id any more, so `get(id)` finds
/// none.
pub proof fn law_removed_not_found(ws: Seq<WorkspaceView>, id: Seq<char>)
    ensures
        !has_id(ws.filter(id_other_than(id)), id),
{
    let f = ws.filter(id_other_than(id));
    if has_id(f, id) {
        let k = choose|k: int| 0 <= k < f.len() && f[k].id == id;
        ws.lemma_filter_pred(id_other_than(id), k);
    }
}


/// The registry file in the configuration directory.
pub const REGISTRY_FILE: &'static str = "workspaces.json";
/// The file the registry is written to before it replaces the old one.
pub const REGISTRY_TMP_FILE: &'static str = "workspaces.json.tmp";

/// The name under which an unreadable registry file is kept, `secs` being
/// the time in seconds since the epoch.
pub fn corrupt_backup_name(secs: u64) -> (r: String)
    ensures
        r@ == "workspaces.json.corrupt."@ + crate::text::decimal(secs as nat),
{
    let mut r = owned("workspaces.json.corrupt.");
    crate::text::push_decimal(&mut r, secs);
    r
}

} // verus!
