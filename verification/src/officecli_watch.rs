//! Decisions of the `officecli watch` preview: one watch process at a time,
//! serving the document last worked on at a fixed local port.

use vstd::prelude::*;
use crate::text::{chars_of, chars_eq, owned, push_char, decimal, push_decimal};

verus! {

/// Port of the preview server that `officecli watch` starts.
pub const WATCH_PORT: u16 = 26315;

/// A path as compared outside Windows: its bytes, unchanged.
pub fn normalize_path(p: &Vec<u8>) -> (r: Vec<u8>)
    ensures
        r@ == p@,
{
    let mut r: Vec<u8> = Vec::new();
    let n = p.len();
    for i in 0..n
        invariant
            n == p@.len(),
            r@ == p@.take(i as int),
    {
        r.push(p[i]);
        assert(r@ =~= p@.take(i + 1));
    }
    assert(p@.take(n as int) =~= p@);
    r
}

/// The pieces of `p` between the separators `sep` (one more piece than
/// there are separators).
pub open spec fn pieces<T>(p: Seq<T>, sep: T) -> Seq<Seq<T>>
    decreases p.len(),
{
    if p.len() == 0 {
        seq![Seq::empty()]
    } else {
        let q = pieces(p.drop_last(), sep);
        if p.last() == sep {
            q.push(Seq::empty())
        } else {
            q.update(q.len() - 1, q.last().push(p.last()))
        }
    }
}

proof fn lemma_pieces_nonempty<T>(p: Seq<T>, sep: T)
    ensures
        pieces(p, sep).len() >= 1,
    decreases p.len(),
{
    if p.len() > 0 {
        lemma_pieces_nonempty(p.drop_last(), sep);
    }
}

/// A piece that names a component: not empty and not `.`.
pub open spec fn names_component<T>(dot: T) -> spec_fn(Seq<T>) -> bool {
    |x: Seq<T>| x.len() > 0 && x != seq![dot]
}

/// What `Path` equality compares of a path (its components): whether it
/// starts at the root, whether it starts with a `.` component, and the
/// names between the separators, with empty pieces and `.` left out.
pub struct PathForm<T> {
    pub root: bool,
    pub cur_dir: bool,
    pub names: Seq<Seq<T>>,
}

/// The components of `p` with separator `sep` and current-directory mark `dot`.
pub open spec fn path_form<T>(p: Seq<T>, sep: T, dot: T) -> PathForm<T> {
    let root = p.len() > 0 && p[0] == sep;
    PathForm {
        root,
        cur_dir: !root && p.len() > 0 && p[0] == dot && (p.len() == 1 || p[1] == sep),
        names: pieces(p, sep).filter(names_component(dot)),
    }
}

/// The components of a path outside Windows (`/` separates, `.` is the
/// current directory).
pub open spec fn unix_form(p: Seq<u8>) -> PathForm<u8> {
    path_form(p, 47u8, 46u8)
}

proof fn lemma_filter_push_bytes(s: Seq<Seq<u8>>, x: Seq<u8>, f: spec_fn(Seq<u8>) -> bool)
    ensures
        s.push(x).filter(f) == if f(x) { s.filter(f).push(x) } else { s.filter(f) },
{
    reveal_with_fuel(Seq::<Seq<u8>>::filter, 1);
    assert(s.push(x).drop_last() =~= s);
}

proof fn lemma_filter_push_chars(s: Seq<Seq<char>>, x: Seq<char>, f: spec_fn(Seq<char>) -> bool)
    ensures
        s.push(x).filter(f) == if f(x) { s.filter(f).push(x) } else { s.filter(f) },
{
    reveal_with_fuel(Seq::<Seq<char>>::filter, 1);
    assert(s.push(x).drop_last() =~= s);
}

/// The plain values of a list of byte strings.
pub open spec fn byte_lists(v: Seq<Vec<u8>>) -> Seq<Seq<u8>> {
    v.map_values(|x: Vec<u8>| x@)
}

/// The plain values of a list of character strings.
pub open spec fn char_lists(v: Seq<Vec<char>>) -> Seq<Seq<char>> {
    v.map_values(|x: Vec<char>| x@)
}

/// The component names of a path of bytes (see `unix_form`).
fn unix_names(p: &Vec<u8>) -> (r: Vec<Vec<u8>>)
    ensures
        byte_lists(r@) == pieces(p@, 47u8).filter(names_component(46u8)),
{
    let ghost f = names_component(46u8);
    let mut names: Vec<Vec<u8>> = Vec::new();
    let mut cur: Vec<u8> = Vec::new();
    let ghost mut done: Seq<Seq<u8>> = Seq::empty();
    assert(p@.take(0) =~= Seq::<u8>::empty());
    assert(done.push(cur@) =~= seq![Seq::<u8>::empty()]);
    let n = p.len();
    for i in 0..n
        invariant
            n == p@.len(),
            f == names_component(46u8),
            pieces(p@.take(i as int), 47u8) == done.push(cur@),
            byte_lists(names@) == done.filter(f),
    {
        let b = p[i];
        proof {
            assert(p@.take(i + 1).drop_last() =~= p@.take(i as int));
            assert(p@.take(i + 1).last() == b);
        }
        if b == 47u8 {
            let keep = cur.len() > 0 && !(cur.len() == 1 && cur[0] == 46u8);
            proof {
                assert(keep == f(cur@)) by {
                    if cur@.len() == 1 {
                        if cur@[0] == 46u8 { assert(cur@ =~= seq![46u8]); } else { assert(cur@[0] != seq![46u8][0]); }
                    }
                }
                lemma_filter_push_bytes(done, cur@, f);
            }
            let ghost piece = cur@;
            let ghost before = names@;
            if keep {
                names.push(cur);
                assert(byte_lists(names@) =~= byte_lists(before).push(piece));
            }
            proof { done = done.push(piece); }
            cur = Vec::new();
            assert(done.push(cur@) =~= done.push(Seq::empty()));
        } else {
            let ghost before = cur@;
            cur.push(b);
            proof {
                lemma_pieces_nonempty(p@.take(i as int), 47u8);
                assert(done.push(cur@) =~= done.push(before).update(done.len() as int, before.push(b)));
            }
        }
    }
    assert(p@.take(n as int) =~= p@);
    let keep = cur.len() > 0 && !(cur.len() == 1 && cur[0] == 46u8);
    proof {
        assert(keep == f(cur@)) by {
            if cur@.len() == 1 {
                if cur@[0] == 46u8 { assert(cur@ =~= seq![46u8]); } else { assert(cur@[0] != seq![46u8][0]); }
            }
        }
        lemma_filter_push_bytes(done, cur@, f);
    }
    let ghost piece = cur@;
    let ghost before = names@;
    if keep {
        names.push(cur);
        assert(byte_lists(names@) =~= byte_lists(before).push(piece));
    }
    names
}

/// The component names of a path of characters with separator `sep` (see
/// `path_form`).
fn char_names(p: &Vec<char>, sep: char) -> (r: Vec<Vec<char>>)
    ensures
        char_lists(r@) == pieces(p@, sep).filter(names_component('.')),
{
    let ghost f = names_component('.');
    let mut names: Vec<Vec<char>> = Vec::new();
    let mut cur: Vec<char> = Vec::new();
    let ghost mut done: Seq<Seq<char>> = Seq::empty();
    assert(p@.take(0) =~= Seq::<char>::empty());
    assert(done.push(cur@) =~= seq![Seq::<char>::empty()]);
    let n = p.len();
    for i in 0..n
        invariant
            n == p@.len(),
            f == names_component('.'),
            pieces(p@.take(i as int), sep) == done.push(cur@),
            char_lists(names@) == done.filter(f),
    {
        let c = p[i];
        proof {
            assert(p@.take(i + 1).drop_last() =~= p@.take(i as int));
            assert(p@.take(i + 1).last() == c);
        }
        if c == sep {
            let keep = cur.len() > 0 && !(cur.len() == 1 && cur[0] == '.');
            proof {
                assert(keep == f(cur@)) by {
                    if cur@.len() == 1 {
                        if cur@[0] == '.' { assert(cur@ =~= seq!['.']); } else { assert(cur@[0] != seq!['.'][0]); }
                    }
                }
                lemma_filter_push_chars(done, cur@, f);
            }
            let ghost piece = cur@;
            let ghost before = names@;
            if keep {
                names.push(cur);
                assert(char_lists(names@) =~= char_lists(before).push(piece));
            }
            proof { done = done.push(piece); }
            cur = Vec::new();
            assert(done.push(cur@) =~= done.push(Seq::empty()));
        } else {
            let ghost before = cur@;
            cur.push(c);
            proof {
                lemma_pieces_nonempty(p@.take(i as int), sep);
                assert(done.push(cur@) =~= done.push(before).update(done.len() as int, before.push(c)));
            }
        }
    }
    assert(p@.take(n as int) =~= p@);
    let keep = cur.len() > 0 && !(cur.len() == 1 && cur[0] == '.');
    proof {
        assert(keep == f(cur@)) by {
            if cur@.len() == 1 {
                if cur@[0] == '.' { assert(cur@ =~= seq!['.']); } else { assert(cur@[0] != seq!['.'][0]); }
            }
        }
        lemma_filter_push_chars(done, cur@, f);
    }
    let ghost piece = cur@;
    let ghost before = names@;
    if keep {
        names.push(cur);
        assert(char_lists(names@) =~= char_lists(before).push(piece));
    }
    names
}

/// Whether two byte strings are equal.
fn bytes_eq(a: &Vec<u8>, b: &Vec<u8>) -> (r: bool)
    ensures
        r == (a@ == b@),
{
    if a.len() != b.len() {
        return false;
    }
    let n = a.len();
    for i in 0..n
        invariant
            n == a@.len(),
            n == b@.len(),
            forall|j: int| 0 <= j < i ==> a@[j] == b@[j],
    {
        if a[i] != b[i] {
            return false;
        }
    }
    assert(a@ =~= b@);
    true
}

/// Whether two lists of byte strings are equal.
fn byte_lists_eq(a: &Vec<Vec<u8>>, b: &Vec<Vec<u8>>) -> (r: bool)
    ensures
        r == (byte_lists(a@) == byte_lists(b@)),
{
    if a.len() != b.len() {
        assert(byte_lists(a@).len() != byte_lists(b@).len());
        return false;
    }
    let n = a.len();
    for i in 0..n
        invariant
            n == a@.len(),
            n == b@.len(),
            forall|j: int| 0 <= j < i ==> a@[j]@ == b@[j]@,
    {
        if !bytes_eq(&a[i], &b[i]) {
            assert(byte_lists(a@)[i as int] != byte_lists(b@)[i as int]);
            return false;
        }
    }
    assert(byte_lists(a@) =~= byte_lists(b@));
    true
}

/// Whether two lists of character strings are equal.
fn char_lists_eq(a: &Vec<Vec<char>>, b: &Vec<Vec<char>>) -> (r: bool)
    ensures
        r == (char_lists(a@) == char_lists(b@)),
{
    if a.len() != b.len() {
        assert(char_lists(a@).len() != char_lists(b@).len());
        return false;
    }
    let n = a.len();
    for i in 0..n
        invariant
            n == a@.len(),
            n == b@.len(),
            forall|j: int| 0 <= j < i ==> a@[j]@ == b@[j]@,
    {
        if !chars_eq(&a[i], &b[i]) {
            assert(char_lists(a@)[i as int] != char_lists(b@)[i as int]);
            return false;
        }
    }
    assert(char_lists(a@) =~= char_lists(b@));
    true
}

/// `str::to_lowercase` of a text (the Unicode lower-case mapping of std).
pub uninterp spec fn lowercase(s: Seq<char>) -> Seq<char>;

/// Calls `str::to_lowercase`; its result is the one named by `lowercase`.
#[verifier::external_body]
fn to_lowercase(s: &str) -> (r: String)
    ensures
        r@ == lowercase(s@),
{
    s.to_lowercase()
}

/// A path as compared on Windows: lower case, with `\` for `/`.
pub open spec fn windows_form(p: Seq<char>) -> Seq<char> {
    lowercase(p).map_values(|c: char| if c == '/' { '\\' } else { c })
}

/// The Windows comparison form of a path.
pub fn normalize_windows_path(p: &str) -> (r: String)
    ensures
        r@ == windows_form(p@),
{
    let low = to_lowercase(p);
    backslash_separators(low.as_str())
}

/// `s` with `\` for each `/`.
pub fn backslash_separators(s: &str) -> (r: String)
    ensures
        r@ == s@.map_values(|c: char| if c == '/' { '\\' } else { c }),
{
    let v = chars_of(s);
    let mut r = String::new();
    let n = v.len();
    for i in 0..n
        invariant
            n == v@.len(),
            v@ == s@,
            r@ == v@.take(i as int).map_values(|c: char| if c == '/' { '\\' } else { c }),
    {
        let c = v[i];
        push_char(&mut r, if c == '/' { '\\' } else { c });
        assert(r@ =~= v@.take(i + 1).map_values(|c: char| if c == '/' { '\\' } else { c }));
    }
    assert(v@.take(n as int) =~= v@);
    r
}

/// Whether the watched file `current` is the document `file` outside
/// Windows: both paths (taken by `normalize_path`) have the same components.
pub fn same_document(current: &Vec<u8>, file: &Vec<u8>) -> (r: bool)
    ensures
        r == (unix_form(current@) == unix_form(file@)),
{
    let a = normalize_path(current);
    let b = normalize_path(file);
    let ra = a.len() > 0 && a[0] == 47u8;
    let rb = b.len() > 0 && b[0] == 47u8;
    let ca = !ra && a.len() > 0 && a[0] == 46u8 && (a.len() == 1 || a[1] == 47u8);
    let cb = !rb && b.len() > 0 && b[0] == 46u8 && (b.len() == 1 || b[1] == 47u8);
    let na = unix_names(&a);
    let nb = unix_names(&b);
    let same_names = byte_lists_eq(&na, &nb);
    proof {
        let fa = unix_form(a@);
        let fb = unix_form(b@);
        assert(fa.root == ra && fb.root == rb && fa.cur_dir == ca && fb.cur_dir == cb);
        if ra == rb && ca == cb && same_names {
            assert(fa == fb);
        }
    }
    ra == rb && ca == cb && same_names
}

/// The components of a path on Windows, after `normalize_windows_path`:
/// `\` separates and `.` is the current directory; a drive or server
/// prefix counts as the first name.
pub open spec fn windows_path_form(p: Seq<char>) -> PathForm<char> {
    path_form(windows_form(p), '\\', '.')
}

/// Whether the watched file `current` is the document `file` on Windows:
/// both paths, lower-cased with `\` for `/`, have the same components.
pub fn same_document_windows(current: &str, file: &str) -> (r: bool)
    ensures
        r == (windows_path_form(current@) == windows_path_form(file@)),
{
    let sa = normalize_windows_path(current);
    let sb = normalize_windows_path(file);
    let a = chars_of(sa.as_str());
    let b = chars_of(sb.as_str());
    let ra = a.len() > 0 && a[0] == '\\';
    let rb = b.len() > 0 && b[0] == '\\';
    let ca = !ra && a.len() > 0 && a[0] == '.' && (a.len() == 1 || a[1] == '\\');
    let cb = !rb && b.len() > 0 && b[0] == '.' && (b.len() == 1 || b[1] == '\\');
    let na = char_names(&a, '\\');
    let nb = char_names(&b, '\\');
    let same_names = char_lists_eq(&na, &nb);
    proof {
        let fa = windows_path_form(current@);
        let fb = windows_path_form(file@);
        assert(fa.root == ra && fb.root == rb && fa.cur_dir == ca && fb.cur_dir == cb);
        if ra == rb && ca == cb && same_names {
            assert(fa == fb);
        }
    }
    ra == rb && ca == cb && same_names
}

/// What `try_wait` said of the running watch process.
#[derive(Debug, Clone, Copy, PartialEq, Eq, Structural)]
pub enum ChildStatus {
    /// It is still running.
    Running,
    /// It has exited.
    Exited,
    /// Its state could not be read.
    Unknown,
}

/// The next step of `ensure_watching`.
#[derive(Debug, Clone, Copy, PartialEq, Eq, Structural)]
pub enum WatchPlan {
    /// The document is already served: nothing to do (the call returns `false`).
    Keep,
    /// The same document is watched: ask the process whether it still runs,
    /// then decide with `plan_after_probe`.
    Probe,
    /// Forget the old handle, if any, and start a watch for the document.
    Start,
    /// Kill the watch of another document, wait for the port, and start one
    /// for this document.
    Switch,
}

/// The first decision for `file`, given the file now watched, if any
/// (paths compared as outside Windows).
pub fn plan_watch(current: Option<&Vec<u8>>, file: &Vec<u8>) -> (r: WatchPlan)
    ensures
        match current {
            None => r == WatchPlan::Start,
            Some(c) => if unix_form(c@) == unix_form(file@) { r == WatchPlan::Probe } else { r == WatchPlan::Switch },
        },
{
    match current {
        None => WatchPlan::Start,
        Some(c) => if same_document(c, file) { WatchPlan::Probe } else { WatchPlan::Switch },
    }
}

/// The first decision for `file` on Windows, given the file now watched, if
/// any.
pub fn plan_watch_windows(current: Option<&str>, file: &str) -> (r: WatchPlan)
    ensures
        match current {
            None => r == WatchPlan::Start,
            Some(c) => if windows_path_form(c@) == windows_path_form(file@) { r == WatchPlan::Probe }
                else { r == WatchPlan::Switch },
        },
{
    match current {
        None => WatchPlan::Start,
        Some(c) => if same_document_windows(c, file) { WatchPlan::Probe } else { WatchPlan::Switch },
    }
}

/// The decision once the process watching the same document was probed:
/// keep it while it runs, else start a new one (the exited one is not killed).
pub fn plan_after_probe(status: ChildStatus) -> (r: WatchPlan)
    ensures
        status == ChildStatus::Running ==> r == WatchPlan::Keep,
        status != ChildStatus::Running ==> r == WatchPlan::Start,
{
    match status {
        ChildStatus::Running => WatchPlan::Keep,
        _ => WatchPlan::Start,
    }
}

/// Whether carrying out `plan` starts a watch process (what
/// `ensure_watching` returns once it succeeded).
pub fn plan_starts_watch(plan: WatchPlan) -> (r: bool)
    ensures
        r == (plan == WatchPlan::Start || plan == WatchPlan::Switch),
{
    match plan {
        WatchPlan::Start | WatchPlan::Switch => true,
        _ => false,
    }
}

/// The address of the preview page.
pub fn preview_url() -> (r: String)
    ensures
        r@ == "http://localhost:"@ + decimal(WATCH_PORT as nat) + "/"@,
{
    let mut s = owned("http://localhost:");
    push_decimal(&mut s, WATCH_PORT as u64);
    s.append("/");
    s
}

} // verus!
