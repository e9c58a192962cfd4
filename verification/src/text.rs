//! Character-level helpers on strings, with their mathematical meaning.

use vstd::prelude::*;
use vstd::utf8::{encode_utf8, encode_scalar, char_is_scalar};

verus! {

/// Appends one character to a string (`String::push`).
#[verifier::external_body]
pub(crate) fn push_char(s: &mut String, c: char)
    ensures
        final(s)@ == old(s)@.push(c),
{
    s.push(c);
}

/// The characters of `s`, in order.
pub fn chars_of(s: &str) -> (v: Vec<char>)
    ensures
        v@ == s@,
{
    let mut v: Vec<char> = Vec::new();
    for c in it: s.chars()
        invariant
            v@ == it.seq().take(it.index() as int),
    {
        v.push(c);
    }
    v
}


/// Whether two character vectors hold the same characters.
pub fn chars_eq(a: &Vec<char>, b: &Vec<char>) -> (r: bool)
    ensures
        r == (a@ == b@),
{
    if a.len() != b.len() {
        return false;
    }
    let n = a.len();
    for i in 0..n
        invariant
            n == a.len(),
            n == b.len(),
            forall|j: int| 0 <= j < i ==> a@[j] == b@[j],
    {
        if a[i] != b[i] {
            return false;
        }
    }
    assert(a@ =~= b@);
    true
}

/// Whether two strings hold the same characters.
pub fn str_eq(a: &str, b: &str) -> (r: bool)
    ensures
        r == (a@ == b@),
{
    let av = chars_of(a);
    let bv = chars_of(b);
    chars_eq(&av, &bv)
}

/// `p` is a prefix of `s`.
pub open spec fn is_prefix(p: Seq<char>, s: Seq<char>) -> bool {
    p.len() <= s.len() && s.subrange(0, p.len() as int) == p
}

/// Whether `p` is a prefix of `s` (`str::starts_with` with a string pattern).
pub fn starts_with(s: &str, p: &str) -> (r: bool)
    ensures
        r == is_prefix(p@, s@),
{
    let sv = chars_of(s);
    let pv = chars_of(p);
    assert(sv@.subrange(0, sv@.len() as int) =~= sv@);
    chars_starts_with(&sv, 0, &pv)
}

/// Whether `p` occurs in `s` starting at index `at`.
pub fn chars_starts_with(s: &Vec<char>, at: usize, p: &Vec<char>) -> (r: bool)
    requires
        at <= s.len(),
    ensures
        r == is_prefix(p@, s@.subrange(at as int, s@.len() as int)),
{
    if p.len() > s.len() - at {
        return false;
    }
    let n = p.len();
    for i in 0..n
        invariant
            n == p.len(),
            at + n <= s.len(),
            forall|j: int| 0 <= j < i ==> s@[at + j] == p@[j],
    {
        if s[at + i] != p[i] {
            assert(s@.subrange(at as int, s@.len() as int).subrange(0, n as int)[i as int] != p@[i as int]);
            return false;
        }
    }
    assert(s@.subrange(at as int, s@.len() as int).subrange(0, n as int) =~= p@);
    true
}

/// The string holding the characters `v[from..to]`.
pub fn string_of(v: &Vec<char>, from: usize, to: usize) -> (s: String)
    requires
        from <= to <= v.len(),
    ensures
        s@ == v@.subrange(from as int, to as int),
{
    let mut s = String::new();
    for i in from..to
        invariant
            from <= to <= v.len(),
            s@ == v@.subrange(from as int, i as int),
    {
        push_char(&mut s, v[i]);
        assert(s@ =~= v@.subrange(from as int, i + 1));
    }
    s
}

/// A fresh string holding the characters of `s`.
pub fn owned(s: &str) -> (r: String)
    ensures
        r@ == s@,
{
    let mut r = String::new();
    r.append(s);
    assert(r@ =~= s@);
    r
}

/// `a` followed by `b`, as a new string.
pub fn concat2(a: &str, b: &str) -> (r: String)
    ensures
        r@ == a@ + b@,
{
    let mut r = owned(a);
    r.append(b);
    r
}

/// `a`, `b` and `c` one after the other, as a new string.
pub fn concat3(a: &str, b: &str, c: &str) -> (r: String)
    ensures
        r@ == a@ + b@ + c@,
{
    let mut r = owned(a);
    r.append(b);
    r.append(c);
    r
}

/// The number of bytes of the UTF-8 encoding of `c`.
pub open spec fn char_width(c: char) -> int {
    let u = c as u32;
    if u <= 0x7F {
        1
    } else if u <= 0x7FF {
        2
    } else if u <= 0xFFFF {
        3
    } else {
        4
    }
}

/// The number of bytes of the UTF-8 encoding of `s` (what `str::len` returns).
pub open spec fn utf8_len(s: Seq<char>) -> int
    decreases s.len(),
{
    if s.len() == 0 {
        0
    } else {
        char_width(s[0]) + utf8_len(s.drop_first())
    }
}

/// The byte length splits over concatenation.
pub proof fn lemma_utf8_len_concat(a: Seq<char>, b: Seq<char>)
    ensures
        utf8_len(a + b) == utf8_len(a) + utf8_len(b),
    decreases a.len(),
{
    if a.len() == 0 {
        assert(a + b =~= b);
    } else {
        lemma_utf8_len_concat(a.drop_first(), b);
        assert((a + b).drop_first() =~= a.drop_first() + b);
    }
}

/// The byte length of a prefix grows by the width of the next character.
pub proof fn lemma_utf8_len_take(s: Seq<char>, i: int)
    requires
        0 <= i < s.len(),
    ensures
        utf8_len(s.take(i + 1)) == utf8_len(s.take(i)) + char_width(s[i]),
{
    lemma_utf8_len_concat(s.take(i), seq![s[i]]);
    assert(s.take(i + 1) =~= s.take(i) + seq![s[i]]);
    assert(utf8_len(seq![s[i]]) == char_width(s[i])) by {
        assert(seq![s[i]].drop_first() =~= Seq::<char>::empty());
        reveal_with_fuel(utf8_len, 2);
    }
}

/// The byte length is at least the number of characters.
pub proof fn lemma_utf8_len_bounds(s: Seq<char>)
    ensures
        s.len() <= utf8_len(s) <= 4 * s.len(),
    decreases s.len(),
{
    if s.len() > 0 {
        lemma_utf8_len_bounds(s.drop_first());
    }
}

/// `utf8_len` is the length of vstd's UTF-8 encoding.
pub proof fn lemma_utf8_len_is_encoding_len(s: Seq<char>)
    ensures
        utf8_len(s) == encode_utf8(s).len(),
    decreases s.len(),
{
    if s.len() > 0 {
        lemma_utf8_len_is_encoding_len(s.drop_first());
        let c = s[0];
        char_is_scalar(c);
        assert(encode_scalar(c as u32).len() == char_width(c));
    }
}

/// The width of `c` in bytes (`char::len_utf8`).
pub fn char_len_utf8(c: char) -> (w: usize)
    ensures
        w == char_width(c),
        1 <= w <= 4,
{
    let u = c as u32;
    if u <= 0x7F {
        1
    } else if u <= 0x7FF {
        2
    } else if u <= 0xFFFF {
        3
    } else {
        4
    }
}

/// Whether the UTF-8 encoding of `v` is longer than `limit` bytes.
pub fn utf8_len_exceeds(v: &Vec<char>, limit: usize) -> (r: bool)
    ensures
        r == (utf8_len(v@) > limit),
{
    let mut acc: usize = 0;
    let n = v.len();
    for i in 0..n
        invariant
            n == v.len(),
            acc == utf8_len(v@.take(i as int)),
            acc <= limit,
    {
        proof { lemma_utf8_len_take(v@, i as int); }
        let w = char_len_utf8(v[i]);
        if w > limit - acc {
            proof {
                lemma_utf8_len_concat(v@.take(i + 1), v@.skip(i + 1));
                assert(v@.take(i + 1) + v@.skip(i + 1) =~= v@);
                lemma_utf8_len_bounds(v@.skip(i + 1));
            }
            return true;
        }
        acc = acc + w;
    }
    assert(v@.take(n as int) =~= v@);
    false
}

/// `a` comes before or equals `b` in lexicographic order of code points (the
/// order of `str`'s `Ord`, which compares UTF-8 bytes: UTF-8 keeps the order
/// of code points).
pub open spec fn lex_le(a: Seq<char>, b: Seq<char>) -> bool
    decreases a.len(),
{
    if a.len() == 0 {
        true
    } else if b.len() == 0 {
        false
    } else if a[0] != b[0] {
        (a[0] as u32) < (b[0] as u32)
    } else {
        lex_le(a.drop_first(), b.drop_first())
    }
}

/// Any two strings are ordered one way or the other.
pub proof fn lemma_lex_total(a: Seq<char>, b: Seq<char>)
    ensures
        lex_le(a, b) || lex_le(b, a),
    decreases a.len(),
{
    if a.len() > 0 && b.len() > 0 && a[0] == b[0] {
        lemma_lex_total(a.drop_first(), b.drop_first());
    } else if a.len() > 0 && b.len() > 0 {
        assert((a[0] as u32) != (b[0] as u32)) by {
            vstd::utf8::char_u32_cast(a[0], a[0] as u32);
            vstd::utf8::char_u32_cast(b[0], b[0] as u32);
        }
    }
}

/// The order is transitive.
pub proof fn lemma_lex_trans(a: Seq<char>, b: Seq<char>, c: Seq<char>)
    requires
        lex_le(a, b),
        lex_le(b, c),
    ensures
        lex_le(a, c),
    decreases a.len(),
{
    if a.len() > 0 && b.len() > 0 && c.len() > 0 && a[0] == b[0] && b[0] == c[0] {
        lemma_lex_trans(a.drop_first(), b.drop_first(), c.drop_first());
    }
}

/// Whether `a` comes before or equals `b` (see `lex_le`).
pub fn chars_le(a: &Vec<char>, b: &Vec<char>) -> (r: bool)
    ensures
        r == lex_le(a@, b@),
{
    let mut i: usize = 0;
    assert(a@.skip(0) =~= a@);
    assert(b@.skip(0) =~= b@);
    while i < a.len() && i < b.len()
        invariant
            i <= a.len(),
            i <= b.len(),
            lex_le(a@, b@) == lex_le(a@.skip(i as int), b@.skip(i as int)),
        decreases a.len() - i,
    {
        if a[i] != b[i] {
            assert(a@.skip(i as int)[0] == a@[i as int]);
            assert(b@.skip(i as int)[0] == b@[i as int]);
            return (a[i] as u32) < (b[i] as u32);
        }
        assert(a@.skip(i as int).drop_first() =~= a@.skip(i + 1));
        assert(b@.skip(i as int).drop_first() =~= b@.skip(i + 1));
        i = i + 1;
    }
    i == a.len()
}

/// `char::is_whitespace`: the characters with Unicode's White_Space property.
pub open spec fn is_ws(c: char) -> bool {
    let u = c as u32;
    (0x9 <= u && u <= 0xD) || u == 0x20 || u == 0x85 || u == 0xA0 || u == 0x1680
        || (0x2000 <= u && u <= 0x200A) || u == 0x2028 || u == 0x2029 || u == 0x202F
        || u == 0x205F || u == 0x3000
}

/// Whether `c` is whitespace (see `is_ws`).
pub fn is_whitespace(c: char) -> (r: bool)
    ensures
        r == is_ws(c),
{
    let u = c as u32;
    (0x9 <= u && u <= 0xD) || u == 0x20 || u == 0x85 || u == 0xA0 || u == 0x1680
        || (0x2000 <= u && u <= 0x200A) || u == 0x2028 || u == 0x2029 || u == 0x202F
        || u == 0x205F || u == 0x3000
}

/// `s` without its leading characters that satisfy `f`.
pub open spec fn trim_start_by(s: Seq<char>, f: spec_fn(char) -> bool) -> Seq<char>
    decreases s.len(),
{
    if s.len() > 0 && f(s[0]) {
        trim_start_by(s.drop_first(), f)
    } else {
        s
    }
}

/// `s` without its trailing characters that satisfy `f`.
pub open spec fn trim_end_by(s: Seq<char>, f: spec_fn(char) -> bool) -> Seq<char>
    decreases s.len(),
{
    if s.len() > 0 && f(s.last()) {
        trim_end_by(s.drop_last(), f)
    } else {
        s
    }
}

/// The predicate `is_ws`.
pub open spec fn ws() -> spec_fn(char) -> bool {
    |c: char| is_ws(c)
}

/// The predicate "equals `c`".
pub open spec fn is_char(c: char) -> spec_fn(char) -> bool {
    |x: char| x == c
}

/// `str::trim`: `s` without leading and trailing whitespace.
pub open spec fn trim(s: Seq<char>) -> Seq<char> {
    trim_end_by(trim_start_by(s, ws()), ws())
}

/// A piece `v[from..to]` of `v`, as a pair of indices.
pub open spec fn piece(v: Seq<char>, r: (usize, usize)) -> Seq<char> {
    v.subrange(r.0 as int, r.1 as int)
}

/// The first index in `from..to` whose character does not satisfy `f` (or `to`):
/// the start of `trim_start_by(v[from..to], f)`.
pub fn skip_start(v: &Vec<char>, from: usize, to: usize, ws_or_char: Option<char>) -> (a: usize)
    requires
        from <= to <= v.len(),
    ensures
        from <= a <= to,
        v@.subrange(a as int, to as int) == trim_start_by(v@.subrange(from as int, to as int), pred_of(ws_or_char)),
{
    let mut a = from;
    while a < to && matches_pred(v[a], ws_or_char)
        invariant
            from <= a <= to <= v.len(),
            trim_start_by(v@.subrange(from as int, to as int), pred_of(ws_or_char))
                == trim_start_by(v@.subrange(a as int, to as int), pred_of(ws_or_char)),
        decreases to - a,
    {
        assert(v@.subrange(a as int, to as int).drop_first() =~= v@.subrange(a + 1, to as int));
        a = a + 1;
    }
    a
}

/// The last end index in `from..=to` such that no character of `v[..end]`
/// from `from` on is cut: the end of `trim_end_by(v[from..to], f)`.
pub fn skip_end(v: &Vec<char>, from: usize, to: usize, ws_or_char: Option<char>) -> (b: usize)
    requires
        from <= to <= v.len(),
    ensures
        from <= b <= to,
        v@.subrange(from as int, b as int) == trim_end_by(v@.subrange(from as int, to as int), pred_of(ws_or_char)),
{
    let mut b = to;
    while b > from && matches_pred(v[b - 1], ws_or_char)
        invariant
            from <= b <= to <= v.len(),
            trim_end_by(v@.subrange(from as int, to as int), pred_of(ws_or_char))
                == trim_end_by(v@.subrange(from as int, b as int), pred_of(ws_or_char)),
        decreases b - from,
    {
        assert(v@.subrange(from as int, b as int).drop_last() =~= v@.subrange(from as int, b - 1));
        b = b - 1;
    }
    b
}

/// Whitespace for `None`, the given character for `Some`.
pub open spec fn pred_of(p: Option<char>) -> spec_fn(char) -> bool {
    match p {
        None => ws(),
        Some(c) => is_char(c),
    }
}

/// Whether `c` satisfies `pred_of(p)`.
pub fn matches_pred(c: char, p: Option<char>) -> (r: bool)
    ensures
        r == pred_of(p)(c),
{
    match p {
        None => is_whitespace(c),
        Some(x) => c == x,
    }
}

/// The bounds of `trim(v[from..to])` in `v`.
pub fn trim_range(v: &Vec<char>, from: usize, to: usize) -> (r: (usize, usize))
    requires
        from <= to <= v.len(),
    ensures
        from <= r.0 <= r.1 <= to,
        piece(v@, r) == trim(v@.subrange(from as int, to as int)),
{
    let a = skip_start(v, from, to, None);
    let b = skip_end(v, a, to, None);
    (a, b)
}

/// `str::trim` as a new string.
pub fn trimmed(s: &str) -> (r: String)
    ensures
        r@ == trim(s@),
{
    let v = chars_of(s);
    let (a, b) = trim_range(&v, 0, v.len());
    assert(v@.subrange(0, v@.len() as int) =~= v@);
    string_of(&v, a, b)
}

/// `str::split` by a predicate: the pieces between the characters that
/// satisfy `p` (one more piece than there are such characters).
pub open spec fn split_by(s: Seq<char>, p: spec_fn(char) -> bool) -> Seq<Seq<char>>
    decreases s.len(),
{
    if s.len() == 0 {
        seq![Seq::<char>::empty()]
    } else if p(s.last()) {
        split_by(s.drop_last(), p).push(Seq::<char>::empty())
    } else {
        let q = split_by(s.drop_last(), p);
        q.update(q.len() - 1, q.last().push(s.last()))
    }
}

/// `str::split` by a character.
pub open spec fn split(s: Seq<char>, sep: char) -> Seq<Seq<char>> {
    split_by(s, is_char(sep))
}

/// `split` never gives an empty list of pieces.
pub proof fn lemma_split_nonempty(s: Seq<char>, p: spec_fn(char) -> bool)
    ensures
        split_by(s, p).len() >= 1,
    decreases s.len(),
{
    if s.len() > 0 {
        lemma_split_nonempty(s.drop_last(), p);
    }
}

/// The last piece of a split is what follows the last separator.
pub proof fn lemma_split_last(s: Seq<char>, p: spec_fn(char) -> bool, a: int)
    requires
        0 <= a <= s.len(),
        a == 0 || p(s[a - 1]),
        forall|i: int| a <= i < s.len() ==> !p(#[trigger] s[i]),
    ensures
        split_by(s, p).last() == s.skip(a),
    decreases s.len(),
{
    if s.len() == 0 {
        assert(s.skip(a) =~= Seq::<char>::empty());
    } else if s.len() == a {
        assert(s.skip(a) =~= Seq::<char>::empty());
    } else {
        lemma_split_nonempty(s.drop_last(), p);
        lemma_split_last(s.drop_last(), p, a);
        assert(!p(s[s.len() - 1]));
        assert(s.drop_last().skip(a).push(s.last()) =~= s.skip(a));
    }
}

/// The pieces of a split of a prefix, but its last, are pieces of the
/// split of the whole.
pub proof fn lemma_split_prefix(s: Seq<char>, p: spec_fn(char) -> bool, m: int)
    requires
        0 <= m <= s.len(),
    ensures
        split_by(s.take(m), p).len() <= split_by(s, p).len(),
        forall|i: int| 0 <= i < split_by(s.take(m), p).len() - 1
            ==> split_by(s, p)[i] == #[trigger] split_by(s.take(m), p)[i],
    decreases s.len(),
{
    if m == s.len() {
        assert(s.take(m) =~= s);
    } else {
        lemma_split_prefix(s.drop_last(), p, m);
        assert(s.drop_last().take(m) =~= s.take(m));
        lemma_split_nonempty(s.drop_last(), p);
    }
}

/// A longest run `s[a..b]` of characters outside `p` is one of the pieces
/// of the split at `p`.
pub proof fn lemma_split_has_run(s: Seq<char>, p: spec_fn(char) -> bool, a: int, b: int)
    requires
        0 <= a <= b <= s.len(),
        a == 0 || p(s[a - 1]),
        b == s.len() || p(s[b]),
        forall|i: int| a <= i < b ==> !p(#[trigger] s[i]),
    ensures
        split_by(s, p).contains(s.subrange(a, b)),
{
    let u = s.take(b);
    assert forall|i: int| a <= i < u.len() implies !p(#[trigger] u[i]) by {
        assert(u[i] == s[i]);
    }
    lemma_split_last(u, p, a);
    lemma_split_nonempty(u, p);
    assert(u.skip(a) =~= s.subrange(a, b));
    if b == s.len() {
        assert(u =~= s);
        assert(split_by(s, p)[split_by(s, p).len() - 1] == s.subrange(a, b));
    } else {
        let w = s.take(b + 1);
        assert(w.drop_last() =~= u);
        assert(w.last() == s[b]);
        assert(split_by(w, p) == split_by(u, p).push(Seq::<char>::empty()));
        lemma_split_prefix(s, p, b + 1);
        let k = split_by(u, p).len() - 1;
        assert(split_by(w, p)[k] == s.subrange(a, b));
        assert(split_by(s, p)[k] == s.subrange(a, b));
    }
}

/// The pieces of `v[from..to]` split at `sep` (at whitespace for `None`),
/// as index pairs into `v`.
pub fn split_ranges(v: &Vec<char>, from: usize, to: usize, sep: Option<char>) -> (r: Vec<(usize, usize)>)
    requires
        from <= to <= v.len(),
    ensures
        r@.map_values(|x: (usize, usize)| piece(v@, x)) == split_by(v@.subrange(from as int, to as int), pred_of(sep)),
        forall|k: int| 0 <= k < r@.len() ==> from <= (#[trigger] r@[k]).0 <= r@[k].1 <= to,
{
    let mut done: Vec<(usize, usize)> = Vec::new();
    let mut cur = from;
    let mut i = from;
    assert(v@.subrange(from as int, from as int) =~= Seq::<char>::empty());
    assert(done@.map_values(|x: (usize, usize)| piece(v@, x)).push(v@.subrange(cur as int, i as int))
        =~= split_by(v@.subrange(from as int, i as int), pred_of(sep)));
    while i < to
        invariant
            from <= cur <= i <= to <= v.len(),
            done@.map_values(|x: (usize, usize)| piece(v@, x)).push(v@.subrange(cur as int, i as int))
                == split_by(v@.subrange(from as int, i as int), pred_of(sep)),
            forall|k: int| 0 <= k < done@.len() ==> from <= (#[trigger] done@[k]).0 <= done@[k].1 <= to,
            forall|k: int| 0 <= k < done@.len() ==> (#[trigger] done@[k]).1 <= cur,
        decreases to - i,
    {
        let ghost prev = split_by(v@.subrange(from as int, i as int), pred_of(sep));
        assert(v@.subrange(from as int, i + 1).drop_last() =~= v@.subrange(from as int, i as int));
        assert(v@.subrange(from as int, i + 1).last() == v@[i as int]);
        let ghost old_done = done@;
        if matches_pred(v[i], sep) {
            done.push((cur, i));
            assert(done@.map_values(|x: (usize, usize)| piece(v@, x))
                =~= old_done.map_values(|x: (usize, usize)| piece(v@, x)).push(v@.subrange(cur as int, i as int)));
            cur = i + 1;
            assert(v@.subrange(cur as int, i + 1) =~= Seq::<char>::empty());
        } else {
            assert(v@.subrange(cur as int, i as int).push(v@[i as int]) =~= v@.subrange(cur as int, i + 1));
            assert(done@.map_values(|x: (usize, usize)| piece(v@, x)).push(v@.subrange(cur as int, i + 1))
                =~= prev.update(prev.len() - 1, prev.last().push(v@[i as int])));
        }
        i = i + 1;
    }
    let ghost before = done@;
    done.push((cur, to));
    assert(done@.map_values(|x: (usize, usize)| piece(v@, x))
        =~= before.map_values(|x: (usize, usize)| piece(v@, x)).push(v@.subrange(cur as int, to as int)));
    done
}

/// `pat` occurs in `s` at index `i`.
pub open spec fn occurs_at(s: Seq<char>, pat: Seq<char>, i: int) -> bool {
    0 <= i && i + pat.len() <= s.len() && s.subrange(i, i + pat.len()) == pat
}

/// `str::find` with a string pattern: the first index at which `pat` occurs.
pub open spec fn find(s: Seq<char>, pat: Seq<char>) -> Option<int> {
    if exists|i: int| occurs_at(s, pat, i) {
        Some(choose|i: int| occurs_at(s, pat, i) && forall|j: int| 0 <= j < i ==> !occurs_at(s, pat, j))
    } else {
        None
    }
}

/// `k` is the first index at which `pat` occurs in `s`.
pub open spec fn is_first_occurrence(s: Seq<char>, pat: Seq<char>, k: int) -> bool {
    occurs_at(s, pat, k) && forall|j: int| 0 <= j < k ==> !occurs_at(s, pat, j)
}

/// `find` gives the first occurrence, or `None` when there is none.
pub proof fn lemma_find(s: Seq<char>, pat: Seq<char>, k: Option<int>)
    requires
        match k {
            None => forall|j: int| !occurs_at(s, pat, j),
            Some(k) => is_first_occurrence(s, pat, k),
        },
    ensures
        find(s, pat) == k,
{
    match k {
        None => {},
        Some(k) => {
            let c = choose|c: int| occurs_at(s, pat, c) && forall|j: int| 0 <= j < c ==> !occurs_at(s, pat, j);
            assert(occurs_at(s, pat, k));
            if c < k {
                assert(!occurs_at(s, pat, c));
            } else if k < c {
                assert(!occurs_at(s, pat, k));
            }
        },
    }
}

/// A match of `p` at index `i` of `v`, inside `v[from..to]`, is an occurrence
/// in that piece.
proof fn lemma_match_in_piece(v: Seq<char>, from: int, to: int, i: int, p: Seq<char>)
    requires
        0 <= from <= i <= to <= v.len(),
    ensures
        (p.len() <= to - i && is_prefix(p, v.subrange(i, v.len() as int)))
            == occurs_at(v.subrange(from, to), p, i - from),
{
    let s = v.subrange(from, to);
    if p.len() <= to - i {
        assert(v.subrange(i, v.len() as int).subrange(0, p.len() as int) =~= s.subrange(i - from, i - from + p.len()));
    }
}

/// The first index `i >= from` at which `p` occurs in `v[from..to]`, as an
/// index into `v`.
pub fn find_in(v: &Vec<char>, from: usize, to: usize, p: &Vec<char>) -> (r: Option<usize>)
    requires
        from <= to <= v.len(),
    ensures
        match r {
            None => forall|j: int| !occurs_at(v@.subrange(from as int, to as int), p@, j),
            Some(i) => from <= i <= to && is_first_occurrence(v@.subrange(from as int, to as int), p@, i - from),
        },
{
    let ghost s = v@.subrange(from as int, to as int);
    let mut i = from;
    loop
        invariant
            from <= i <= to <= v.len(),
            s == v@.subrange(from as int, to as int),
            forall|j: int| 0 <= j < i - from ==> !occurs_at(s, p@, j),
        ensures
            forall|j: int| 0 <= j <= to - from ==> !occurs_at(s, p@, j),
        decreases to - i,
    {
        proof { lemma_match_in_piece(v@, from as int, to as int, i as int, p@); }
        if p.len() <= to - i && chars_starts_with(v, i, p) {
            return Some(i);
        }
        if i == to {
            break;
        }
        i = i + 1;
    }
    proof {
        assert forall|j: int| !occurs_at(s, p@, j) by {
            if occurs_at(s, p@, j) {
                assert(j <= to - from);
            }
        }
    }
    None
}

/// The lower-case hexadecimal digit (or decimal digit) of value `d < 16`.
pub open spec fn digit(d: int) -> char {
    seq!['0', '1', '2', '3', '4', '5', '6', '7', '8', '9', 'a', 'b', 'c', 'd', 'e', 'f'][d]
}

fn digit_char(d: u64) -> (c: char)
    requires
        d < 16,
    ensures
        c == digit(d as int),
{
    let t = ['0', '1', '2', '3', '4', '5', '6', '7', '8', '9', 'a', 'b', 'c', 'd', 'e', 'f'];
    assert(t@ =~= seq!['0', '1', '2', '3', '4', '5', '6', '7', '8', '9', 'a', 'b', 'c', 'd', 'e', 'f']);
    t[d as usize]
}

/// The decimal digits of `n` (what `Display` prints for an unsigned integer).
pub open spec fn decimal(n: nat) -> Seq<char>
    decreases n,
{
    if n < 10 {
        seq![digit(n as int)]
    } else {
        decimal(n / 10).push(digit((n % 10) as int))
    }
}

/// `n` in decimal, with a leading `-` when negative (what `Display` prints
/// for a signed integer).
pub open spec fn signed_decimal(n: int) -> Seq<char> {
    if n < 0 {
        seq!['-'] + decimal((-n) as nat)
    } else {
        decimal(n as nat)
    }
}

/// Appends the decimal digits of `n` to `s`.
pub fn push_decimal(s: &mut String, n: u64)
    ensures
        final(s)@ == old(s)@ + decimal(n as nat),
    decreases n,
{
    if n >= 10 {
        push_decimal(s, n / 10);
    }
    push_char(s, digit_char(n % 10));
    assert(final(s)@ =~= old(s)@ + decimal(n as nat));
}

/// `n` in decimal, signed (`n.to_string()`).
pub fn signed_decimal_string(n: i64) -> (r: String)
    ensures
        r@ == signed_decimal(n as int),
{
    let mut s = String::new();
    if n < 0 {
        push_char(&mut s, '-');
        let m: u64 = (-(n as i128)) as u64;
        push_decimal(&mut s, m);
    } else {
        push_decimal(&mut s, n as u64);
    }
    assert(s@ =~= signed_decimal(n as int));
    s
}

/// The last `width` hexadecimal digits of `n`, zero-padded.
pub open spec fn hex_fixed(n: nat, width: nat) -> Seq<char>
    decreases width,
{
    if width == 0 {
        Seq::empty()
    } else {
        hex_fixed(n / 16, (width - 1) as nat).push(digit((n % 16) as int))
    }
}

/// Appends the last `width` hexadecimal digits of `n`, zero-padded, to `s`.
fn push_hex_fixed(s: &mut String, n: u64, width: u64)
    ensures
        final(s)@ == old(s)@ + hex_fixed(n as nat, width as nat),
    decreases width,
{
    if width > 0 {
        push_hex_fixed(s, n / 16, width - 1);
        push_char(s, digit_char(n % 16));
    }
    assert(final(s)@ =~= old(s)@ + hex_fixed(n as nat, width as nat));
}

/// Bytes as lower-case hexadecimal text, two digits per byte.
pub open spec fn hex_lower(bytes: Seq<u8>) -> Seq<char>
    decreases bytes.len(),
{
    if bytes.len() == 0 {
        Seq::empty()
    } else {
        hex_lower(bytes.drop_last()) + hex_fixed(bytes.last() as nat, 2)
    }
}

/// The hexadecimal text of `bytes` (two digits per byte, lower case).
pub fn hex_of_bytes(bytes: &Vec<u8>) -> (r: String)
    ensures
        r@ == hex_lower(bytes@),
{
    let mut s = String::new();
    let n = bytes.len();
    for i in 0..n
        invariant
            n == bytes@.len(),
            s@ == hex_lower(bytes@.take(i as int)),
    {
        push_hex_fixed(&mut s, bytes[i] as u64, 2);
        assert(bytes@.take(i + 1).drop_last() =~= bytes@.take(i as int));
    }
    assert(bytes@.take(n as int) =~= bytes@);
    s
}

/// Two digits per byte.
pub proof fn lemma_hex_lower_len(bytes: Seq<u8>)
    ensures
        hex_lower(bytes).len() == 2 * bytes.len(),
    decreases bytes.len(),
{
    if bytes.len() > 0 {
        lemma_hex_lower_len(bytes.drop_last());
        reveal_with_fuel(hex_fixed, 3);
    }
}

/// `n` as 16 lower-case hexadecimal digits (`format!("{:016x}", n)`).
pub fn hex16(n: u64) -> (r: String)
    ensures
        r@ == hex_fixed(n as nat, 16),
{
    let mut s = String::new();
    push_hex_fixed(&mut s, n, 16);
    assert(s@ =~= hex_fixed(n as nat, 16));
    s
}

/// The number of leading characters of `s` whose UTF-8 encoding fits in
/// `limit` bytes: the largest char boundary at or below `limit`.
pub open spec fn prefix_fitting(s: Seq<char>, limit: int) -> nat
    decreases s.len(),
{
    if s.len() == 0 || char_width(s[0]) > limit {
        0
    } else {
        1 + prefix_fitting(s.drop_first(), limit - char_width(s[0]))
    }
}

/// The number of trailing characters of `s` whose UTF-8 encoding fits in
/// `limit` bytes: the smallest char boundary at or above `len - limit`.
pub open spec fn suffix_fitting(s: Seq<char>, limit: int) -> nat
    decreases s.len(),
{
    if s.len() == 0 || char_width(s.last()) > limit {
        0
    } else {
        1 + suffix_fitting(s.drop_last(), limit - char_width(s.last()))
    }
}

/// The fitting prefix is a prefix and fits.
pub proof fn lemma_prefix_fitting(s: Seq<char>, limit: int)
    ensures
        prefix_fitting(s, limit) <= s.len(),
        limit >= 0 ==> utf8_len(s.take(prefix_fitting(s, limit) as int)) <= limit,
    decreases s.len(),
{
    if s.len() > 0 && char_width(s[0]) <= limit {
        lemma_prefix_fitting(s.drop_first(), limit - char_width(s[0]));
        let k = prefix_fitting(s.drop_first(), limit - char_width(s[0]));
        assert(s.take(k + 1 as int).drop_first() =~= s.drop_first().take(k as int));
    } else {
        assert(s.take(0) =~= Seq::<char>::empty());
    }
}

/// The fitting suffix is a suffix and fits.
pub proof fn lemma_suffix_fitting(s: Seq<char>, limit: int)
    ensures
        suffix_fitting(s, limit) <= s.len(),
        limit >= 0 ==> utf8_len(s.skip(s.len() - suffix_fitting(s, limit))) <= limit,
    decreases s.len(),
{
    if s.len() > 0 && char_width(s.last()) <= limit {
        lemma_suffix_fitting(s.drop_last(), limit - char_width(s.last()));
        let k = suffix_fitting(s.drop_last(), limit - char_width(s.last()));
        let t = s.drop_last().skip(s.len() - 1 - k);
        assert(s.skip(s.len() - (k + 1)) =~= t + seq![s.last()]);
        lemma_utf8_len_concat(t, seq![s.last()]);
        reveal_with_fuel(utf8_len, 2);
    } else {
        assert(s.skip(s.len() as int) =~= Seq::<char>::empty());
    }
}

/// The length of the prefix of `v` that fits in `limit` bytes, and its size.
pub fn fitting_prefix(v: &Vec<char>, limit: usize) -> (r: (usize, usize))
    ensures
        r.0 == prefix_fitting(v@, limit as int),
        r.1 == utf8_len(v@.take(r.0 as int)),
{
    let mut k: usize = 0;
    let mut acc: usize = 0;
    assert(v@.skip(0) =~= v@);
    while k < v.len() && char_len_utf8(v[k]) <= limit - acc
        invariant
            k <= v@.len(),
            acc <= limit,
            acc == utf8_len(v@.take(k as int)),
            prefix_fitting(v@, limit as int) == k + prefix_fitting(v@.skip(k as int), limit - acc),
        decreases v@.len() - k,
    {
        proof {
            lemma_utf8_len_take(v@, k as int);
            assert(v@.skip(k as int).drop_first() =~= v@.skip(k + 1));
            assert(v@.skip(k as int)[0] == v@[k as int]);
        }
        acc = acc + char_len_utf8(v[k]);
        k = k + 1;
    }
    proof {
        if k < v@.len() {
            assert(v@.skip(k as int)[0] == v@[k as int]);
        }
    }
    (k, acc)
}

/// The length of the suffix of `v` that fits in `limit` bytes, and its size.
pub fn fitting_suffix(v: &Vec<char>, limit: usize) -> (r: (usize, usize))
    ensures
        r.0 == suffix_fitting(v@, limit as int),
        r.0 <= v@.len(),
        r.1 == utf8_len(v@.skip(v@.len() - r.0)),
{
    let n = v.len();
    let mut k: usize = 0;
    let mut acc: usize = 0;
    assert(v@.take(n as int) =~= v@);
    assert(v@.skip(n as int) =~= Seq::<char>::empty());
    while k < n && char_len_utf8(v[n - 1 - k]) <= limit - acc
        invariant
            n == v@.len(),
            k <= n,
            acc <= limit,
            acc == utf8_len(v@.skip(n - k)),
            suffix_fitting(v@, limit as int) == k + suffix_fitting(v@.take(n - k), limit - acc),
        decreases n - k,
    {
        proof {
            let j = n - 1 - k;
            assert(v@.take(n - k).drop_last() =~= v@.take(j as int));
            assert(v@.take(n - k).last() == v@[j as int]);
            assert(v@.skip(j as int) =~= seq![v@[j as int]] + v@.skip(n - k));
            lemma_utf8_len_concat(seq![v@[j as int]], v@.skip(n - k));
            assert(seq![v@[j as int]].drop_first() =~= Seq::<char>::empty());
            reveal_with_fuel(utf8_len, 2);
        }
        acc = acc + char_len_utf8(v[n - 1 - k]);
        k = k + 1;
    }
    proof {
        if k < n {
            assert(v@.take(n - k).last() == v@[n - 1 - k]);
        }
    }
    (k, acc)
}

/// The UTF-8 length of `s` as `str::len` gives it, when it fits in `usize`.
pub fn byte_len(s: &str) -> (n: usize)
    requires
        utf8_len(s@) <= usize::MAX,
    ensures
        n == utf8_len(s@),
{
    proof { lemma_utf8_len_is_encoding_len(s@); }
    s.len()
}

} // verus!
