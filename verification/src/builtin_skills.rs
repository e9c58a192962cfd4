//! Built-in skills: Markdown documents that start with a small front matter
//!
//! ```text
//! ---
//! id: b-xxx
//! name: xxx
//! description: xxx
//! tools: [tool1, tool2]
//! ---
//! # Markdown body...
//! ```

use vstd::prelude::*;
use crate::skill::{Skill, SkillSource, SkillView, strings_view, skills_view, is_builtin_id};
use crate::text::{chars_of, string_of, trim, trim_range, trim_start_by, trim_end_by, skip_start, skip_end,
    split, split_ranges, piece, find, find_in, lemma_find, is_prefix, chars_starts_with, is_char, ws, utf8_len,
    lemma_utf8_len_bounds, owned, str_eq};

verus! {

/// `strip_quotes` on plain text: the trimmed text without one pair of
/// surrounding double quotes.
pub open spec fn unquote(s: Seq<char>) -> Seq<char> {
    let t = trim(s);
    if utf8_len(t) >= 2 && t.len() > 0 && t[0] == '"' && t.last() == '"' {
        t.subrange(1, t.len() - 1)
    } else {
        t
    }
}

/// The bounds of `unquote(v[from..to])` in `v`.
fn unquote_range(v: &Vec<char>, from: usize, to: usize) -> (r: (usize, usize))
    requires
        from <= to <= v.len(),
    ensures
        from <= r.0 <= r.1 <= to,
        piece(v@, r) == unquote(v@.subrange(from as int, to as int)),
{
    let (a, b) = trim_range(v, from, to);
    let ghost t = v@.subrange(a as int, b as int);
    proof {
        lemma_utf8_len_bounds(t);
        if t.len() == 1 {
            assert(t =~= seq![t[0]]);
            assert(t.drop_first() =~= Seq::<char>::empty());
            reveal_with_fuel(utf8_len, 2);
        }
    }
    if b - a >= 2 && v[a] == '"' && v[b - 1] == '"' {
        assert(v@.subrange(a + 1, b - 1) =~= t.subrange(1, t.len() - 1));
        (a + 1, b - 1)
    } else {
        (a, b)
    }
}

/// Trims `s` and removes one pair of surrounding double quotes, if present.
pub fn strip_quotes(s: &str) -> (r: &str)
    ensures
        r@ == unquote(s@),
{
    let v = chars_of(s);
    let (a, b) = unquote_range(&v, 0, v.len());
    assert(v@.subrange(0, v@.len() as int) =~= s@);
    s.substring_char(a, b)
}

/// The fields that the front matter sets.
pub struct FrontMatter {
    pub id: Option<Seq<char>>,
    pub name: Option<Seq<char>>,
    pub description: Option<Seq<char>>,
    pub tools: Seq<Seq<char>>,
    pub enabled: bool,
}

/// The front matter before any line: no fields, and enabled (the default of
/// the optional `enabled` field).
pub open spec fn empty_front_matter() -> FrontMatter {
    FrontMatter { id: None, name: None, description: None, tools: Seq::empty(), enabled: true }
}

/// The switch given by an `enabled:` value: off for the YAML false values
/// `false`, `False` and `FALSE`, on otherwise.
pub open spec fn flag_value(v: Seq<char>) -> bool {
    !(v == "false"@ || v == "False"@ || v == "FALSE"@)
}

/// The tool list of a `tools:` line: `[a, "b", c]` gives `a`, `b`, `c`;
/// brackets are optional and empty entries are dropped.
pub open spec fn tool_list(v: Seq<char>) -> Seq<Seq<char>> {
    let inner = trim_end_by(trim_start_by(trim(v), is_char('[')), is_char(']'));
    split(inner, ',').map_values(|p: Seq<char>| unquote(trim(p))).filter(|t: Seq<char>| t.len() > 0)
}

/// One front matter line applied: `id:`, `name:`, `description:`, `tools:`
/// and `enabled:` set their field (a later line wins); other lines are
/// ignored.
pub open spec fn apply_line(f: FrontMatter, line: Seq<char>) -> FrontMatter {
    let t = trim(line);
    if is_prefix("id:"@, t) {
        FrontMatter { id: Some(unquote(trim(t.skip(3)))), ..f }
    } else if is_prefix("name:"@, t) {
        FrontMatter { name: Some(unquote(trim(t.skip(5)))), ..f }
    } else if is_prefix("description:"@, t) {
        FrontMatter { description: Some(unquote(trim(t.skip(12)))), ..f }
    } else if is_prefix("tools:"@, t) {
        FrontMatter { tools: tool_list(t.skip(6)), ..f }
    } else if is_prefix("enabled:"@, t) {
        FrontMatter { enabled: flag_value(unquote(trim(t.skip(8)))), ..f }
    } else {
        f
    }
}

/// The front matter given by its lines, in order.
pub open spec fn front_matter(lines: Seq<Seq<char>>) -> FrontMatter
    decreases lines.len(),
{
    if lines.len() == 0 {
        empty_front_matter()
    } else {
        apply_line(front_matter(lines.drop_last()), lines.last())
    }
}

/// What `parse` gives for a document. Its front matter is read line by
/// line; the lines are the pieces between the newlines (`str::lines` gives
/// the same lines up to a trailing `\r` and a last empty line, which trimming
/// and ignoring make no difference to).
#[verifier::opaque]
pub open spec fn parse_result(raw: Seq<char>) -> Result<SkillView, Seq<char>> {
    let r = trim_start_by(raw, ws());
    if !is_prefix("---"@, r) {
        Err("missing frontmatter start delimiter"@)
    } else {
        let a = r.skip(3);
        match find(a, "\n---"@) {
            None => Err("missing frontmatter end delimiter"@),
            Some(e) => {
                let f = front_matter(split(a.take(e), '\n'));
                let body = trim_start_by(a.skip(e + 4), is_char('\n'));
                if f.id is None {
                    Err("missing id"@)
                } else if f.name is None {
                    Err("missing name"@)
                } else if f.description is None {
                    Err("missing description"@)
                } else {
                    Ok(SkillView {
                        id: f.id.unwrap(),
                        name: f.name.unwrap(),
                        description: f.description.unwrap(),
                        tools: f.tools,
                        body,
                        enabled: f.enabled,
                        source: SkillSource::BuiltIn,
                        created_ts: 0,
                        updated_ts: 0,
                    })
                }
            },
        }
    }
}

/// Whether `v[from..to]` starts with `p`.
fn range_has_prefix(v: &Vec<char>, from: usize, to: usize, p: &Vec<char>) -> (r: bool)
    requires
        from <= to <= v.len(),
    ensures
        r == is_prefix(p@, v@.subrange(from as int, to as int)),
{
    if p.len() > to - from {
        return false;
    }
    let r = chars_starts_with(v, from, p);
    assert(v@.subrange(from as int, v@.len() as int).subrange(0, p@.len() as int)
        =~= v@.subrange(from as int, to as int).subrange(0, p@.len() as int));
    r
}

/// The plain value of an optional string.
pub open spec fn opt_view(o: Option<String>) -> Option<Seq<char>> {
    match o {
        Some(s) => Some(s@),
        None => None,
    }
}

/// The tool list of `v[from..to]` (see `tool_list`).
fn parse_tool_list(v: &Vec<char>, from: usize, to: usize) -> (r: Vec<String>)
    requires
        from <= to <= v.len(),
    ensures
        strings_view(r@) == tool_list(v@.subrange(from as int, to as int)),
{
    let (a, b) = trim_range(v, from, to);
    let c = skip_start(v, a, b, Some('['));
    let d = skip_end(v, c, b, Some(']'));
    let pieces = split_ranges(v, c, d, Some(','));
    let ghost ps = split(v@.subrange(c as int, d as int), ',');
    let ghost mapped = ps.map_values(|p: Seq<char>| unquote(trim(p)));
    let mut out: Vec<String> = Vec::new();
    let n = pieces.len();
    for j in 0..n
        invariant
            n == pieces@.len(),
            pieces@.map_values(|x: (usize, usize)| piece(v@, x)) == ps,
            mapped == ps.map_values(|p: Seq<char>| unquote(trim(p))),
            forall|k: int| 0 <= k < pieces@.len() ==> c <= (#[trigger] pieces@[k]).0 <= pieces@[k].1 <= d,
            d <= v@.len(),
            strings_view(out@) == mapped.take(j as int).filter(|t: Seq<char>| t.len() > 0),
    {
        let (p0, p1) = pieces[j];
        let (t0, t1) = trim_range(v, p0, p1);
        let (q0, q1) = unquote_range(v, t0, t1);
        assert(piece(v@, pieces@[j as int]) == ps[j as int]);
        assert(mapped[j as int] == v@.subrange(q0 as int, q1 as int));
        let ghost before = out@;
        if q1 > q0 {
            out.push(string_of(v, q0, q1));
        }
        proof {
            reveal_with_fuel(Seq::<Seq<char>>::filter, 1);
            assert(mapped.take(j + 1).drop_last() =~= mapped.take(j as int));
            assert(strings_view(out@) =~= mapped.take(j + 1).filter(|t: Seq<char>| t.len() > 0));
        }
    }
    assert(mapped.take(n as int) =~= mapped);
    out
}

/// The switch given by an `enabled:` value (see `flag_value`).
fn flag_of(v: &str) -> (r: bool)
    ensures
        r == flag_value(v@),
{
    !(str_eq(v, "false") || str_eq(v, "False") || str_eq(v, "FALSE"))
}

/// The text of an error of `parse`.
fn parse_error(m: &str) -> (r: Result<Skill, String>)
    ensures
        r matches Err(e) && e@ == m@,
{
    Err(owned(m))
}

/// Parses the front matter and body of one skill document.
pub fn parse(raw: &str) -> (r: Result<Skill, String>)
    ensures
        match parse_result(raw@) {
            Ok(s) => r matches Ok(t) && t@ == s,
            Err(m) => r matches Err(e) && e@ == m,
        },
{
    reveal(parse_result);
    let v = chars_of(raw);
    let len = v.len();
    assert(v@.subrange(0, len as int) =~= raw@);
    let a0 = skip_start(&v, 0, len, None);
    let ghost r = v@.subrange(a0 as int, len as int);
    if !range_has_prefix(&v, a0, len, &chars_of("---")) {
        return parse_error("missing frontmatter start delimiter");
    }
    proof { reveal_strlit("---"); }
    let s0 = a0 + 3;
    assert(r.skip(3) =~= v@.subrange(s0 as int, len as int));
    let ghost a = r.skip(3);
    let found = find_in(&v, s0, len, &chars_of("\n---"));
    let e = match found {
        None => {
            proof { lemma_find(a, "\n---"@, None); }
            return parse_error("missing frontmatter end delimiter");
        },
        Some(e) => e,
    };
    proof {
        lemma_find(a, "\n---"@, Some(e - s0));
        reveal_strlit("\n---");
    }
    let ghost ei = (e - s0) as int;
    assert(a.take(ei) =~= v@.subrange(s0 as int, e as int));
    assert(a.skip(ei + 4) =~= v@.subrange(e + 4, len as int));
    let b0 = skip_start(&v, e + 4, len, Some('\n'));
    let lines = split_ranges(&v, s0, e, Some('\n'));
    let ghost ls = split(v@.subrange(s0 as int, e as int), '\n');
    let mut id: Option<String> = None;
    let mut name: Option<String> = None;
    let mut description: Option<String> = None;
    let mut tools: Vec<String> = Vec::new();
    let mut enabled = true;
    let p_id = chars_of("id:");
    let p_name = chars_of("name:");
    let p_desc = chars_of("description:");
    let p_tools = chars_of("tools:");
    let p_enabled = chars_of("enabled:");
    proof {
        reveal_strlit("id:");
        reveal_strlit("name:");
        reveal_strlit("description:");
        reveal_strlit("tools:");
        reveal_strlit("enabled:");
    }
    let n = lines.len();
    for j in 0..n
        invariant
            n == lines@.len(),
            len == v@.len(),
            lines@.map_values(|x: (usize, usize)| piece(v@, x)) == ls,
            forall|k: int| 0 <= k < lines@.len() ==> (#[trigger] lines@[k]).0 <= lines@[k].1 <= len,
            p_id@ == "id:"@,
            p_name@ == "name:"@,
            p_desc@ == "description:"@,
            p_tools@ == "tools:"@,
            p_enabled@ == "enabled:"@,
            "enabled:"@.len() == 8,
            "id:"@.len() == 3,
            "name:"@.len() == 5,
            "description:"@.len() == 12,
            "tools:"@.len() == 6,
            ({
                let f = front_matter(ls.take(j as int));
                &&& opt_view(id) == f.id
                &&& opt_view(name) == f.name
                &&& opt_view(description) == f.description
                &&& strings_view(tools@) == f.tools
                &&& enabled == f.enabled
            }),
    {
        let (l0, l1) = lines[j];
        assert(piece(v@, lines@[j as int]) == ls[j as int]);
        assert(ls.take(j + 1).drop_last() =~= ls.take(j as int));
        let (t0, t1) = trim_range(&v, l0, l1);
        let ghost t = v@.subrange(t0 as int, t1 as int);
        if range_has_prefix(&v, t0, t1, &p_id) {
            assert(t.skip(3) =~= v@.subrange(t0 + 3, t1 as int));
            let (u0, u1) = trim_range(&v, t0 + 3, t1);
            let (q0, q1) = unquote_range(&v, u0, u1);
            id = Some(string_of(&v, q0, q1));
        } else if range_has_prefix(&v, t0, t1, &p_name) {
            assert(t.skip(5) =~= v@.subrange(t0 + 5, t1 as int));
            let (u0, u1) = trim_range(&v, t0 + 5, t1);
            let (q0, q1) = unquote_range(&v, u0, u1);
            name = Some(string_of(&v, q0, q1));
        } else if range_has_prefix(&v, t0, t1, &p_desc) {
            assert(t.skip(12) =~= v@.subrange(t0 + 12, t1 as int));
            let (u0, u1) = trim_range(&v, t0 + 12, t1);
            let (q0, q1) = unquote_range(&v, u0, u1);
            description = Some(string_of(&v, q0, q1));
        } else if range_has_prefix(&v, t0, t1, &p_tools) {
            assert(t.skip(6) =~= v@.subrange(t0 + 6, t1 as int));
            tools = parse_tool_list(&v, t0 + 6, t1);
        } else if range_has_prefix(&v, t0, t1, &p_enabled) {
            assert(t.skip(8) =~= v@.subrange(t0 + 8, t1 as int));
            let (u0, u1) = trim_range(&v, t0 + 8, t1);
            let (q0, q1) = unquote_range(&v, u0, u1);
            let value = string_of(&v, q0, q1);
            enabled = flag_of(value.as_str());
        }
    }
    assert(ls.take(n as int) =~= ls);
    let id = match id {
        Some(x) => x,
        None => return parse_error("missing id"),
    };
    let name = match name {
        Some(x) => x,
        None => return parse_error("missing name"),
    };
    let description = match description {
        Some(x) => x,
        None => return parse_error("missing description"),
    };
    Ok(Skill {
        id,
        name,
        description,
        tools,
        body: string_of(&v, b0, len),
        enabled,
        source: SkillSource::BuiltIn,
        created_ts: 0,
        updated_ts: 0,
    })
}

/// The skills that loading keeps from the given documents, in order: those
/// that parse and whose id starts with `b-`.
pub open spec fn loaded(docs: Seq<Seq<char>>) -> Seq<SkillView>
    decreases docs.len(),
{
    if docs.len() == 0 {
        Seq::empty()
    } else {
        let rest = loaded(docs.drop_last());
        match parse_result(docs.last()) {
            Ok(s) => if is_builtin_id(s.id) { rest.push(s) } else { rest },
            Err(_) => rest,
        }
    }
}

/// The documents of `(file name, text)` pairs.
pub open spec fn documents(files: Seq<(String, String)>) -> Seq<Seq<char>> {
    files.map_values(|f: (String, String)| f.1@)
}

/// Parses every built-in skill document, given as `(file name, text)`;
/// documents that do not parse, or whose id does not start with `b-`, are
/// skipped.
pub fn load_builtin_skills(raw_files: &Vec<(String, String)>) -> (r: Vec<Skill>)
    ensures
        skills_view(r@) == loaded(documents(raw_files@)),
{
    let ghost docs = documents(raw_files@);
    let mut result: Vec<Skill> = Vec::new();
    let n = raw_files.len();
    for i in 0..n
        invariant
            n == raw_files@.len(),
            docs == documents(raw_files@),
            skills_view(result@) == loaded(docs.take(i as int)),
    {
        let raw = raw_files[i].1.as_str();
        assert(docs.take(i + 1).drop_last() =~= docs.take(i as int));
        assert(docs.take(i + 1).last() == raw@);
        match parse(raw) {
            Ok(s) => {
                if crate::text::starts_with(s.id.as_str(), "b-") {
                    let ghost before = result@;
                    result.push(s);
                    assert(skills_view(result@) =~= skills_view(before).push(s@));
                }
            },
            Err(_) => {},
        }
    }
    assert(docs.take(n as int) =~= docs);
    result
}


/// A parsed document gives a built-in skill.
proof fn lemma_parsed_is_builtin(raw: Seq<char>)
    ensures
        parse_result(raw) matches Ok(s) ==> s.source == SkillSource::BuiltIn,
{
    reveal(parse_result);
}

/// Every loaded built-in skill has a `b-` id and is marked as built in.
pub proof fn law_loaded_are_builtin(docs: Seq<Seq<char>>)
    ensures
        forall|k: int| 0 <= k < loaded(docs).len() ==> {
            &&& is_builtin_id(#[trigger] loaded(docs)[k].id)
            &&& loaded(docs)[k].source == SkillSource::BuiltIn
        },
    decreases docs.len(),
{
    if docs.len() > 0 {
        let rest = loaded(docs.drop_last());
        law_loaded_are_builtin(docs.drop_last());
        lemma_parsed_is_builtin(docs.last());
        match parse_result(docs.last()) {
            Ok(s) => {
                if is_builtin_id(s.id) {
                    assert forall|k: int| 0 <= k < rest.push(s).len() implies {
                        &&& is_builtin_id(#[trigger] rest.push(s)[k].id)
                        &&& rest.push(s)[k].source == SkillSource::BuiltIn
                    } by {
                        if k < rest.len() {
                            assert(rest.push(s)[k] == rest[k]);
                            assert(is_builtin_id(rest[k].id));
                        } else {
                            assert(rest.push(s)[k] == s);
                        }
                    }
                }
            },
            Err(_) => {},
        }
    }
}

} // verus!
