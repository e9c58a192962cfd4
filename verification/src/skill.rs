//! Skills: Markdown guides for the AI agent, either built in (read-only,
//! with a list of disabled ids kept in the settings) or written by the user.

use vstd::prelude::*;
use crate::error::CoreError;
use crate::text::{chars_of, chars_eq, chars_le, concat2, owned, starts_with, is_prefix, lex_le,
    lemma_lex_total, lemma_lex_trans};

verus! {

/// Where a skill comes from.
#[derive(Debug, Clone, Copy, PartialEq, Eq, Structural)]
pub enum SkillSource {
    BuiltIn,
    User,
}

/// A skill record.
#[derive(Debug, Clone)]
pub struct Skill {
    pub id: String,
    pub name: String,
    pub description: String,
    pub tools: Vec<String>,
    pub body: String,
    pub enabled: bool,
    pub source: SkillSource,
    pub created_ts: i64,
    pub updated_ts: i64,
}

/// The plain value of a skill record.
pub struct SkillView {
    pub id: Seq<char>,
    pub name: Seq<char>,
    pub description: Seq<char>,
    pub tools: Seq<Seq<char>>,
    pub body: Seq<char>,
    pub enabled: bool,
    pub source: SkillSource,
    pub created_ts: i64,
    pub updated_ts: i64,
}

/// The plain values of a list of strings.
pub open spec fn strings_view(v: Seq<String>) -> Seq<Seq<char>> {
    v.map_values(|s: String| s@)
}

impl View for Skill {
    type V = SkillView;

    open spec fn view(&self) -> SkillView {
        SkillView {
            id: self.id@,
            name: self.name@,
            description: self.description@,
            tools: strings_view(self.tools@),
            body: self.body@,
            enabled: self.enabled,
            source: self.source,
            created_ts: self.created_ts,
            updated_ts: self.updated_ts,
        }
    }
}

/// The plain values of a list of skills.
pub open spec fn skills_view(v: Seq<Skill>) -> Seq<SkillView> {
    v.map_values(|s: Skill| s@)
}

/// The settings key under which the disabled built-in ids are stored.
pub const DISABLED_BUILTIN_KEY: &'static str = "ai_skill_disabled_builtin";

/// Ids that mark a built-in skill.
pub open spec fn is_builtin_id(id: Seq<char>) -> bool {
    is_prefix("b-"@, id)
}

/// Ids that a user skill must have.
pub open spec fn is_user_id(id: Seq<char>) -> bool {
    is_prefix("u-"@, id)
}

/// The message of the errors that protect built-in skills.
pub open spec fn read_only_message() -> Seq<char> {
    "built-in skill is read-only"@
}

/// Whether `list` holds `s`.
pub fn contains_string(list: &Vec<String>, s: &str) -> (r: bool)
    ensures
        r == strings_view(list@).contains(s@),
{
    let v = chars_of(s);
    let n = list.len();
    for i in 0..n
        invariant
            n == list.len(),
            v@ == s@,
            forall|j: int| 0 <= j < i ==> list@[j]@ != s@,
    {
        let w = chars_of(list[i].as_str());
        if chars_eq(&w, &v) {
            assert(strings_view(list@)[i as int] == s@);
            return true;
        }
    }
    assert forall|j: int| 0 <= j < strings_view(list@).len() implies strings_view(list@)[j] != s@ by {
        assert(strings_view(list@)[j] == list@[j]@);
    }
    false
}

/// A copy of a list of strings.
pub fn copy_strings(list: &Vec<String>) -> (r: Vec<String>)
    ensures
        strings_view(r@) == strings_view(list@),
{
    let mut r: Vec<String> = Vec::new();
    let n = list.len();
    for i in 0..n
        invariant
            n == list.len(),
            r@.len() == i,
            forall|k: int| 0 <= k < i ==> (#[trigger] r@[k])@ == list@[k]@,
    {
        let c = list[i].clone();
        r.push(c);
    }
    assert(strings_view(r@) =~= strings_view(list@));
    r
}

/// A copy of `s` with `enabled` replaced.
pub fn copy_with_enabled(s: &Skill, enabled: bool) -> (r: Skill)
    ensures
        r@ == (SkillView { enabled, ..s@ }),
{
    Skill {
        id: s.id.clone(),
        name: s.name.clone(),
        description: s.description.clone(),
        tools: copy_strings(&s.tools),
        body: s.body.clone(),
        enabled,
        source: s.source,
        created_ts: s.created_ts,
        updated_ts: s.updated_ts,
    }
}

/// `r` is ordered by name.
pub open spec fn sorted_by_name(r: Seq<SkillView>) -> bool {
    forall|i: int, j: int| 0 <= i < j < r.len() ==> lex_le(#[trigger] r[i].name, #[trigger] r[j].name)
}

/// `p` maps each position of `r` to the position in `s` that it came from,
/// one to one, and keeps records of equal names in their order in `s`.
pub open spec fn is_stable_permutation(p: Seq<int>, r: Seq<SkillView>, s: Seq<SkillView>) -> bool {
    &&& p.len() == r.len()
    &&& r.len() == s.len()
    &&& forall|k: int| 0 <= k < p.len() ==> 0 <= #[trigger] p[k] < s.len() && r[k] == s[p[k]]
    &&& forall|k1: int, k2: int| 0 <= k1 < p.len() && 0 <= k2 < p.len() && k1 != k2
        ==> #[trigger] p[k1] != #[trigger] p[k2]
    &&& forall|k1: int, k2: int| 0 <= k1 < k2 < p.len() && (#[trigger] r[k1]).name == (#[trigger] r[k2]).name
        ==> p[k1] < p[k2]
}

/// `r` is `s` sorted stably by name (what `sort_by` on the names gives).
pub open spec fn is_stable_sort_by_name(r: Seq<SkillView>, s: Seq<SkillView>) -> bool {
    &&& sorted_by_name(r)
    &&& exists|p: Seq<int>| is_stable_permutation(p, r, s)
}

/// Sorts skills by name, keeping skills of equal names in their order.
pub fn sort_by_name(v: Vec<Skill>) -> (r: Vec<Skill>)
    ensures
        is_stable_sort_by_name(skills_view(r@), skills_view(v@)),
{
    let ghost s = skills_view(v@);
    let ghost n = v@.len();
    let mut v = v;
    let mut r: Vec<Skill> = Vec::new();
    let ghost mut p: Seq<int> = Seq::empty();
    while v.len() > 0
        invariant
            n == s.len(),
            v@.len() <= n,
            forall|k: int| 0 <= k < v@.len() ==> (#[trigger] v@[k])@ == s[k],
            r@.len() + v@.len() == n,
            p.len() == r@.len(),
            forall|k: int| 0 <= k < p.len() ==> v@.len() <= #[trigger] p[k] < n && r@[k]@ == s[p[k]],
            forall|k1: int, k2: int| 0 <= k1 < p.len() && 0 <= k2 < p.len() && k1 != k2
                ==> #[trigger] p[k1] != #[trigger] p[k2],
            forall|k1: int, k2: int| 0 <= k1 < k2 < p.len() && (#[trigger] r@[k1])@.name == (#[trigger] r@[k2])@.name
                ==> p[k1] < p[k2],
            forall|i: int, j: int| 0 <= i < j < r@.len() ==> lex_le(#[trigger] r@[i]@.name, #[trigger] r@[j]@.name),
        decreases v@.len(),
    {
        let x = v.pop().unwrap();
        let idx = v.len();
        let xname = chars_of(x.name.as_str());
        let mut pos: usize = 0;
        while pos < r.len()
            invariant
                pos <= r@.len(),
                xname@ == x.name@,
                forall|j: int| 0 <= j < pos ==> !lex_le(x.name@, #[trigger] r@[j]@.name),
            ensures
                pos <= r@.len(),
                forall|j: int| 0 <= j < pos ==> !lex_le(x.name@, #[trigger] r@[j]@.name),
                pos < r@.len() ==> lex_le(x.name@, r@[pos as int]@.name),
            decreases r@.len() - pos,
        {
            let rname = chars_of(r[pos].name.as_str());
            if chars_le(&xname, &rname) {
                break;
            }
            pos = pos + 1;
        }
        proof {
            // every record at or after `pos` has a name no smaller than `x`'s
            assert forall|j: int| pos <= j < r@.len() implies lex_le(x.name@, #[trigger] r@[j]@.name) by {
                assert(lex_le(x.name@, r@[pos as int]@.name));
                if j > pos {
                    lemma_lex_trans(x.name@, r@[pos as int]@.name, r@[j]@.name);
                }
            }
            // every record before `pos` has a strictly smaller name
            assert forall|j: int| 0 <= j < pos implies lex_le(#[trigger] r@[j]@.name, x.name@)
                && r@[j]@.name != x.name@ by {
                lemma_lex_total(x.name@, r@[j]@.name);
            }
        }
        let ghost old_r = r@;
        let ghost old_p = p;
        r.insert(pos, x);
        proof {
            p = old_p.insert(pos as int, idx as int);
            assert forall|k: int| 0 <= k < p.len() implies v@.len() <= #[trigger] p[k] < n && r@[k]@ == s[p[k]] by {
                if k < pos {
                    assert(p[k] == old_p[k]);
                    assert(r@[k] == old_r[k]);
                } else if k > pos {
                    assert(p[k] == old_p[k - 1]);
                    assert(r@[k] == old_r[k - 1]);
                }
            }
            assert forall|k1: int, k2: int| 0 <= k1 < p.len() && 0 <= k2 < p.len() && k1 != k2
                implies #[trigger] p[k1] != #[trigger] p[k2] by {
                if k1 != pos && k2 != pos {
                    let o1 = if k1 < pos { k1 } else { k1 - 1 };
                    let o2 = if k2 < pos { k2 } else { k2 - 1 };
                    assert(p[k1] == old_p[o1]);
                    assert(p[k2] == old_p[o2]);
                } else if k1 == pos {
                    let o2 = if k2 < pos { k2 } else { k2 - 1 };
                    assert(p[k2] == old_p[o2]);
                } else {
                    let o1 = if k1 < pos { k1 } else { k1 - 1 };
                    assert(p[k1] == old_p[o1]);
                }
            }
            assert forall|k1: int, k2: int| 0 <= k1 < k2 < p.len() && (#[trigger] r@[k1])@.name == (#[trigger] r@[k2])@.name
                implies p[k1] < p[k2] by {
                let o1 = if k1 < pos { k1 } else { k1 - 1 };
                let o2 = if k2 < pos { k2 } else { k2 - 1 };
                if k1 != pos && k2 != pos {
                    assert(r@[k1] == old_r[o1]);
                    assert(r@[k2] == old_r[o2]);
                    assert(p[k1] == old_p[o1]);
                    assert(p[k2] == old_p[o2]);
                } else if k1 == pos {
                    assert(p[k2] == old_p[o2]);
                } else {
                    assert(r@[k1] == old_r[o1]);
                }
            }
            assert forall|i: int, j: int| 0 <= i < j < r@.len() implies lex_le(#[trigger] r@[i]@.name, #[trigger] r@[j]@.name) by {
                let oi = if i < pos { i } else { i - 1 };
                let oj = if j < pos { j } else { j - 1 };
                if i != pos && j != pos {
                    assert(r@[i] == old_r[oi]);
                    assert(r@[j] == old_r[oj]);
                } else if i == pos {
                    assert(r@[j] == old_r[oj]);
                } else {
                    assert(r@[i] == old_r[oi]);
                }
            }
        }
    }
    proof {
        let rs = skills_view(r@);
        assert forall|k: int| 0 <= k < p.len() implies 0 <= #[trigger] p[k] < s.len() && rs[k] == s[p[k]] by {
            assert(rs[k] == r@[k]@);
        }
        assert forall|k1: int, k2: int| 0 <= k1 < k2 < p.len() && (#[trigger] rs[k1]).name == (#[trigger] rs[k2]).name
            implies p[k1] < p[k2] by {
            assert(rs[k1] == r@[k1]@);
            assert(rs[k2] == r@[k2]@);
        }
        assert forall|i: int, j: int| 0 <= i < j < rs.len() implies lex_le(#[trigger] rs[i].name, #[trigger] rs[j].name) by {
            assert(rs[i] == r@[i]@);
            assert(rs[j] == r@[j]@);
        }
        assert(is_stable_permutation(p, rs, s));
    }
    r
}

/// A built-in skill as listed: enabled unless its id is in `disabled`.
pub open spec fn with_flag(b: SkillView, disabled: Seq<Seq<char>>) -> SkillView {
    SkillView { enabled: !disabled.contains(b.id), ..b }
}

/// The built-in skills with their flags, then the user skills, before sorting.
pub open spec fn merged(builtin: Seq<SkillView>, disabled: Seq<Seq<char>>, user: Seq<SkillView>) -> Seq<SkillView> {
    builtin.map_values(|b: SkillView| with_flag(b, disabled)) + user
}

/// All skills, built-in ones (flagged by the disabled list) and the user's
/// stored ones, sorted stably by name.
pub fn list(builtin: &Vec<Skill>, disabled: &Vec<String>, user: Vec<Skill>) -> (r: Vec<Skill>)
    ensures
        is_stable_sort_by_name(skills_view(r@), merged(skills_view(builtin@), strings_view(disabled@), skills_view(user@))),
{
    let mut all: Vec<Skill> = Vec::new();
    let n = builtin.len();
    for i in 0..n
        invariant
            n == builtin.len(),
            all@.len() == i,
            forall|k: int| 0 <= k < i ==> (#[trigger] all@[k])@ == with_flag(builtin@[k]@, strings_view(disabled@)),
    {
        let b = &builtin[i];
        let off = contains_string(disabled, b.id.as_str());
        all.push(copy_with_enabled(b, !off));
    }
    let ghost prefix = all@;
    let ghost user0 = user@;
    let mut user = user;
    all.append(&mut user);
    proof {
        let m = merged(skills_view(builtin@), strings_view(disabled@), skills_view(user0));
        assert forall|k: int| 0 <= k < m.len() implies skills_view(all@)[k] == m[k] by {
            if k < n {
                assert(skills_view(builtin@)[k] == builtin@[k]@);
            }
        }
        assert(skills_view(all@) =~= m);
    }
    sort_by_name(all)
}

/// The skills of `v` that are enabled, in order.
pub fn enabled_only(v: Vec<Skill>) -> (r: Vec<Skill>)
    ensures
        skills_view(r@) == skills_view(v@).filter(|s: SkillView| s.enabled),
{
    let ghost s = skills_view(v@);
    let mut r: Vec<Skill> = Vec::new();
    let n = v.len();
    for i in 0..n
        invariant
            n == v@.len(),
            s == skills_view(v@),
            skills_view(r@) == s.take(i as int).filter(|s: SkillView| s.enabled),
    {
        let x = &v[i];
        assert(x@ == s[i as int]);
        let ghost before = r@;
        if x.enabled {
            r.push(copy_with_enabled(x, true));
        }
        proof {
            reveal_with_fuel(Seq::<SkillView>::filter, 1);
            assert(s.take(i + 1).drop_last() =~= s.take(i as int));
            assert(skills_view(r@) =~= s.take(i + 1).filter(|s: SkillView| s.enabled));
        }
    }
    assert(s.take(n as int) =~= s);
    r
}

/// Only the enabled skills of `list`.
pub fn list_enabled(builtin: &Vec<Skill>, disabled: &Vec<String>, user: Vec<Skill>) -> (r: Vec<Skill>)
    ensures
        exists|all: Seq<SkillView>|
            is_stable_sort_by_name(all, merged(skills_view(builtin@), strings_view(disabled@), skills_view(user@)))
            && skills_view(r@) == all.filter(|s: SkillView| s.enabled),
{
    let all = list(builtin, disabled, user);
    enabled_only(all)
}

/// The first built-in skill with id `id`, if any.
pub open spec fn first_with_id(builtin: Seq<SkillView>, id: Seq<char>) -> Option<int> {
    if exists|k: int| 0 <= k < builtin.len() && builtin[k].id == id {
        Some(choose|k: int| 0 <= k < builtin.len() && builtin[k].id == id
            && forall|j: int| 0 <= j < k ==> builtin[j].id != id)
    } else {
        None
    }
}

/// Looks a skill up by id: the first built-in skill with that id (flagged by
/// the disabled list) if there is one, else `stored`, the user skill that the
/// store holds under that id.
pub fn get(builtin: &Vec<Skill>, disabled: &Vec<String>, id: &str, stored: Option<Skill>) -> (r: Option<Skill>)
    ensures
        (exists|k: int| 0 <= k < builtin@.len() && builtin@[k]@.id == id@) ==> (exists|k: int|
            0 <= k < builtin@.len() && builtin@[k]@.id == id@
            && (forall|j: int| 0 <= j < k ==> builtin@[j]@.id != id@)
            && (r matches Some(s) && s@ == with_flag(builtin@[k]@, strings_view(disabled@)))),
        !(exists|k: int| 0 <= k < builtin@.len() && builtin@[k]@.id == id@) ==> r == stored,
{
    let v = chars_of(id);
    let n = builtin.len();
    for i in 0..n
        invariant
            n == builtin.len(),
            v@ == id@,
            forall|j: int| 0 <= j < i ==> builtin@[j]@.id != id@,
    {
        let b = &builtin[i];
        if chars_eq(&chars_of(b.id.as_str()), &v) {
            let off = contains_string(disabled, b.id.as_str());
            let r = copy_with_enabled(b, !off);
            assert(builtin@[i as int]@.id == id@);
            return Some(r);
        }
    }
    stored
}

/// The message with which a new user skill is refused, if it is.
pub open spec fn create_error(id: Seq<char>) -> Option<Seq<char>> {
    if is_user_id(id) {
        None
    } else {
        Some("用户 skill id 必须以 u- 开头"@)
    }
}

/// The record that `create` stores for `skill` at time `now`, or why it is
/// refused: a user skill's id starts with `u-`; it is marked as a user skill
/// and both time stamps are `now`.
pub fn prepare_create_at(skill: Skill, now: i64) -> (r: Result<Skill, CoreError>)
    ensures
        match create_error(skill@.id) {
            None => r matches Ok(t)
                && t@ == (SkillView { source: SkillSource::User, created_ts: now, updated_ts: now, ..skill@ }),
            Some(m) => r matches Err(e) && e.is_other(m),
        },
{
    if !starts_with(skill.id.as_str(), "u-") {
        return Err(CoreError::Other(owned("用户 skill id 必须以 u- 开头")));
    }
    Ok(Skill { source: SkillSource::User, created_ts: now, updated_ts: now, ..skill })
}

/// Checks a new user skill and stamps it with the current time.
pub fn prepare_create(skill: Skill) -> (r: Result<Skill, CoreError>)
    ensures
        match create_error(skill@.id) {
            None => r matches Ok(t) && t@.created_ts == t@.updated_ts
                && crate::clock::is_clock_timestamp(t@.created_ts)
                && t@ == (SkillView { source: SkillSource::User, created_ts: t@.created_ts, updated_ts: t@.updated_ts, ..skill@ }),
            Some(m) => r matches Err(e) && e.is_other(m),
        },
{
    let now = crate::clock::now_timestamp();
    prepare_create_at(skill, now)
}

/// The record that `update` writes for `skill` at time `now`; built-in
/// skills are read-only.
pub fn prepare_update_at(skill: Skill, now: i64) -> (r: Result<Skill, CoreError>)
    ensures
        skill.source == SkillSource::BuiltIn ==> (r matches Err(e) && e.is_other(read_only_message())),
        skill.source == SkillSource::User ==> (r matches Ok(t)
            && t@ == (SkillView { updated_ts: now, ..skill@ })),
{
    if skill.source == SkillSource::BuiltIn {
        return Err(CoreError::Other(owned("built-in skill is read-only")));
    }
    Ok(Skill { updated_ts: now, ..skill })
}

/// Checks an edited skill and stamps its update time with the current time.
pub fn prepare_update(skill: Skill) -> (r: Result<Skill, CoreError>)
    ensures
        skill.source == SkillSource::BuiltIn ==> (r matches Err(e) && e.is_other(read_only_message())),
        skill.source == SkillSource::User ==> (r matches Ok(t)
            && crate::clock::is_clock_timestamp(t@.updated_ts)
            && t@ == (SkillView { updated_ts: t@.updated_ts, ..skill@ })),
{
    let now = crate::clock::now_timestamp();
    prepare_update_at(skill, now)
}

/// The error of `update` when no stored skill has the id.
pub fn missing_skill_error(id: &str) -> (e: CoreError)
    ensures
        e.is_other("skill "@ + id@ + " 不存在"@),
{
    CoreError::Other(crate::text::concat3("skill ", id, " 不存在"))
}

/// Whether a skill may be deleted: built-in ones (`b-` ids) may not.
pub fn check_delete(id: &str) -> (r: Result<(), CoreError>)
    ensures
        is_builtin_id(id@) ==> (r matches Err(e) && e.is_other(read_only_message())),
        !is_builtin_id(id@) ==> r is Ok,
{
    if starts_with(id, "b-") {
        return Err(CoreError::Other(owned("built-in skill is read-only")));
    }
    Ok(())
}

/// The predicate "differs from `id`".
pub open spec fn other_than(id: Seq<char>) -> spec_fn(Seq<char>) -> bool {
    |x: Seq<char>| x != id
}

/// The disabled list after enabling (`enabled`) or disabling the built-in
/// skill `id`: enabling removes every occurrence, disabling appends it once.
pub open spec fn disabled_after(list: Seq<Seq<char>>, id: Seq<char>, enabled: bool) -> Seq<Seq<char>> {
    if enabled {
        list.filter(other_than(id))
    } else if list.contains(id) {
        list
    } else {
        list.push(id)
    }
}

/// Updates the list of disabled built-in skills for `set_enabled`.
pub fn update_disabled(list: Vec<String>, id: &str, enabled: bool) -> (r: Vec<String>)
    ensures
        strings_view(r@) == disabled_after(strings_view(list@), id@, enabled),
{
    let ghost s = strings_view(list@);
    if enabled {
        let v = chars_of(id);
        let mut r: Vec<String> = Vec::new();
        let n = list.len();
        for i in 0..n
            invariant
                n == list@.len(),
                s == strings_view(list@),
                v@ == id@,
                strings_view(r@) == s.take(i as int).filter(other_than(id@)),
        {
            let x = &list[i];
            assert(x@ == s[i as int]);
            if !chars_eq(&chars_of(x.as_str()), &v) {
                r.push(x.clone());
            }
            proof {
                reveal_with_fuel(Seq::<Seq<char>>::filter, 1);
                assert(s.take(i + 1).drop_last() =~= s.take(i as int));
                assert(strings_view(r@) =~= s.take(i + 1).filter(other_than(id@)));
            }
        }
        assert(s.take(n as int) =~= s);
        r
    } else if contains_string(&list, id) {
        list
    } else {
        let mut list = list;
        list.push(owned(id));
        assert(strings_view(list@) =~= s.push(id@));
        list
    }
}

/// After disabling a built-in skill it is on the list; after enabling it, it
/// is not; no other id changes its membership.
pub proof fn law_disabled_list(list: Seq<Seq<char>>, id: Seq<char>, other: Seq<char>)
    requires
        other != id,
    ensures
        disabled_after(list, id, false).contains(id),
        !disabled_after(list, id, true).contains(id),
        disabled_after(list, id, false).contains(other) == list.contains(other),
        disabled_after(list, id, true).contains(other) == list.contains(other),
{
    let f = other_than(id);
    if list.contains(other) {
        let k = choose|k: int| 0 <= k < list.len() && list[k] == other;
        list.lemma_filter_contains(f, k);
        assert(list.push(id)[k] == other);
    }
    if list.filter(f).contains(other) {
        list.lemma_filter_contains_rev(f, other);
    }
    if list.filter(f).contains(id) {
        let g = list.filter(f);
        let k = choose|k: int| 0 <= k < g.len() && g[k] == id;
        list.lemma_filter_pred(f, k);
    }
    if !list.contains(id) {
        assert(list.push(id)[list.len() as int] == id);
    }
    if list.push(id).contains(other) {
        let k = choose|k: int| 0 <= k < list.push(id).len() && list.push(id)[k] == other;
        assert(k < list.len());
        assert(list[k] == other);
    }
}

/// The JSON text that `serde_json::to_string` writes for a list of strings.
pub uninterp spec fn json_of_strings(list: Seq<Seq<char>>) -> Seq<char>;

/// What `serde_json::from_str::<Vec<String>>` reads from a text: the list of
/// strings, or `None` where the text is no JSON array of strings.
pub uninterp spec fn strings_of_json(text: Seq<char>) -> Option<Seq<Seq<char>>>;

/// The plain value of an optional list of strings.
pub open spec fn opt_strings_view(v: Option<Vec<String>>) -> Option<Seq<Seq<char>>> {
    match v {
        Some(l) => Some(strings_view(l@)),
        None => None,
    }
}

/// Calls `serde_json::to_string` on a list of strings. Its result, where it
/// succeeds, is the JSON text named by `json_of_strings`, and
/// `serde_json::from_str` reads that text back as the same list. A failure
/// carries the error's message; when one comes is left unsaid.
#[verifier::external_body]
fn write_string_list(list: &Vec<String>) -> (r: Result<String, String>)
    ensures
        r matches Ok(s) ==> s@ == json_of_strings(strings_view(list@)),
        r matches Ok(s) ==> strings_of_json(s@) == Some(strings_view(list@)),
{
    match serde_json::to_string(list) {
        Ok(s) => Ok(s),
        Err(e) => Err(e.to_string()),
    }
}

/// Calls `serde_json::from_str::<Vec<String>>`, keeping the list where the
/// text parses; its result is the one named by `strings_of_json`.
#[verifier::external_body]
fn read_string_list(text: &str) -> (r: Option<Vec<String>>)
    ensures
        opt_strings_view(r) == strings_of_json(text@),
{
    serde_json::from_str::<Vec<String>>(text).ok()
}

/// The list that a stored JSON text holds, or no strings where it holds none.
pub open spec fn list_or_empty(l: Option<Seq<Seq<char>>>) -> Seq<Seq<char>> {
    match l {
        Some(v) => v,
        None => Seq::empty(),
    }
}

/// Reads a stored JSON list of strings (the `tools` column, the disabled
/// list); a text that is no such list gives no strings.
pub fn strings_from_json(text: &str) -> (r: Vec<String>)
    ensures
        strings_view(r@) == list_or_empty(strings_of_json(text@)),
{
    list_or_default(read_string_list(text))
}

/// The list that was read, or no strings where nothing was read.
pub fn list_or_default(parsed: Option<Vec<String>>) -> (r: Vec<String>)
    ensures
        strings_view(r@) == list_or_empty(opt_strings_view(parsed)),
{
    match parsed {
        Some(v) => v,
        None => {
            let r: Vec<String> = Vec::new();
            assert(strings_view(r@) =~= Seq::<Seq<char>>::empty());
            r
        },
    }
}

/// The disabled built-in ids that a stored setting holds: none where the
/// setting is missing or is no JSON list of strings.
pub open spec fn stored_disabled(setting: Option<Seq<char>>) -> Seq<Seq<char>> {
    match setting {
        Some(text) => list_or_empty(strings_of_json(text)),
        None => Seq::empty(),
    }
}

/// The plain value of an optional text.
pub open spec fn opt_text(s: Option<&str>) -> Option<Seq<char>> {
    match s {
        Some(t) => Some(t@),
        None => None,
    }
}

/// Reads the list of disabled built-in skills from the stored setting.
pub fn disabled_from_setting(setting: Option<&str>) -> (r: Vec<String>)
    ensures
        strings_view(r@) == stored_disabled(opt_text(setting)),
{
    match setting {
        Some(text) => strings_from_json(text),
        None => {
            let r: Vec<String> = Vec::new();
            assert(strings_view(r@) =~= Seq::<Seq<char>>::empty());
            r
        },
    }
}

/// Writes `list` as JSON, or the error whose message starts with `prefix`.
fn json_or_error(list: &Vec<String>, prefix: &str) -> (r: Result<String, CoreError>)
    ensures
        r matches Ok(s) ==> s@ == json_of_strings(strings_view(list@))
            && strings_of_json(s@) == Some(strings_view(list@)),
        r matches Err(e) ==> (e matches CoreError::Other(m) && is_prefix(prefix@, m@)),
{
    let written = write_string_list(list);
    let r = json_text_or_error(written, prefix);
    proof {
        if r is Err {
            let m = r->Err_0->Other_0;
            assert(m@.subrange(0, prefix@.len() as int) =~= prefix@);
        }
    }
    r
}

/// The written JSON text, or the error whose message is `prefix` followed
/// by the writer's message.
pub fn json_text_or_error(written: Result<String, String>, prefix: &str) -> (r: Result<String, CoreError>)
    ensures
        written matches Ok(t) ==> (r matches Ok(s) && s@ == t@),
        written matches Err(m) ==> (r matches Err(e) && e.is_other(prefix@ + m@)),
{
    match written {
        Ok(s) => Ok(s),
        Err(m) => Err(CoreError::Other(concat2(prefix, m.as_str()))),
    }
}

/// The JSON text stored in the `tools` column of a user skill.
pub fn tools_json(tools: &Vec<String>) -> (r: Result<String, CoreError>)
    ensures
        r matches Ok(s) ==> s@ == json_of_strings(strings_view(tools@))
            && strings_of_json(s@) == Some(strings_view(tools@)),
        r matches Err(e) ==> (e matches CoreError::Other(m) && is_prefix("序列化 tools 失败: "@, m@)),
{
    json_or_error(tools, "序列化 tools 失败: ")
}

/// The JSON text stored as the list of disabled built-in skills.
pub fn disabled_list_json(ids: &Vec<String>) -> (r: Result<String, CoreError>)
    ensures
        r matches Ok(s) ==> s@ == json_of_strings(strings_view(ids@))
            && strings_of_json(s@) == Some(strings_view(ids@)),
        r matches Err(e) ==> (e matches CoreError::Other(m) && is_prefix("序列化禁用列表失败: "@, m@)),
{
    json_or_error(ids, "序列化禁用列表失败: ")
}

/// Whether `set_enabled` addresses a built-in skill (a `b-` id) rather than
/// a stored user skill.
pub fn is_builtin_skill_id(id: &str) -> (r: bool)
    ensures
        r == is_builtin_id(id@),
{
    starts_with(id, "b-")
}

/// The new stored setting when a built-in skill is enabled or disabled:
/// the stored list, updated as `disabled_after` says, written as JSON.
pub fn set_enabled_builtin(setting: Option<&str>, id: &str, enabled: bool) -> (r: Result<String, CoreError>)
    ensures
        r matches Ok(s) ==> strings_of_json(s@)
            == Some(disabled_after(stored_disabled(opt_text(setting)), id@, enabled)),
        r matches Err(e) ==> (e matches CoreError::Other(m) && is_prefix("序列化禁用列表失败: "@, m@)),
{
    let list = disabled_from_setting(setting);
    let next = update_disabled(list, id, enabled);
    disabled_list_json(&next)
}

/// Once `set_enabled` has stored a new setting for the built-in skill `id`,
/// listing flags that skill as `enabled` says, and every other built-in
/// skill as before.
pub proof fn law_set_enabled_then_list(
    setting: Option<Seq<char>>,
    id: Seq<char>,
    enabled: bool,
    stored: Seq<char>,
    b: SkillView,
)
    requires
        strings_of_json(stored) == Some(disabled_after(stored_disabled(setting), id, enabled)),
    ensures
        b.id == id ==> with_flag(b, stored_disabled(Some(stored))).enabled == enabled,
        b.id != id ==> with_flag(b, stored_disabled(Some(stored))).enabled
            == with_flag(b, stored_disabled(setting)).enabled,
{
    let before = stored_disabled(setting);
    if b.id == id {
        // the other id does not matter here: pick one that differs from `id`
        let other = id.push('x');
        assert(other.len() != id.len());
        law_disabled_list(before, id, other);
    } else {
        law_disabled_list(before, id, b.id);
    }
}

} // verus!
