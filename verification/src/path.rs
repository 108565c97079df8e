//! Slash-separated paths as text: components, parent, join, file name and extension,
//! following the rules of `std::path` on Unix.

use vstd::prelude::*;
use crate::text::{push_char, string_of, chars_of};
use crate::order::{OrdKey, lex_le, lex_le_exec, lemma_lex_total, lemma_lex_trans, lemma_lex_antisym};

verus! {

/// The pieces of `s` between slashes, in order (always at least one, possibly empty).
pub open spec fn segments(s: Seq<char>) -> Seq<Seq<char>>
    decreases s.len(),
{
    if s.len() == 0 {
        seq![Seq::<char>::empty()]
    } else {
        let r = segments(s.drop_last());
        if s.last() == '/' {
            r.push(Seq::<char>::empty())
        } else {
            r.update(r.len() - 1, r.last().push(s.last()))
        }
    }
}

pub proof fn lemma_segments_nonempty(s: Seq<char>)
    ensures
        segments(s).len() >= 1,
    decreases s.len(),
{
    if s.len() > 0 {
        lemma_segments_nonempty(s.drop_last());
    }
}

/// The named components of a path: its segments without empty ones and without `.`,
/// except that a `.` that is the very first segment stays (as `std::path` keeps a leading `.`).
pub open spec fn keep_components(segs: Seq<Seq<char>>) -> Seq<Seq<char>>
    decreases segs.len(),
{
    if segs.len() == 0 {
        Seq::empty()
    } else {
        let r = keep_components(segs.drop_last());
        let x = segs.last();
        if x.len() == 0 || (x == seq!['.'] && segs.len() > 1) {
            r
        } else {
            r.push(x)
        }
    }
}

pub open spec fn components(s: Seq<char>) -> Seq<Seq<char>> {
    keep_components(segments(s))
}

/// The path starts at the root.
pub open spec fn is_absolute(s: Seq<char>) -> bool {
    s.len() > 0 && s[0] == '/'
}

/// `parts` joined with `/` between them.
pub open spec fn join_with_slash(parts: Seq<Seq<char>>) -> Seq<char>
    decreases parts.len(),
{
    if parts.len() == 0 {
        Seq::empty()
    } else if parts.len() == 1 {
        parts[0]
    } else {
        join_with_slash(parts.drop_last()).push('/') + parts.last()
    }
}

/// The parent of a path: `None` for the root and for the empty path; otherwise the path
/// without its last component, written in normal form (components joined by single slashes,
/// led by `/` for an absolute path).
pub open spec fn parent_of(s: Seq<char>) -> Option<Seq<char>> {
    let c = components(s);
    if c.len() == 0 {
        None
    } else {
        let rest = join_with_slash(c.drop_last());
        Some(if is_absolute(s) { seq!['/'] + rest } else { rest })
    }
}

/// `base` joined with `name` as `PathBuf::push` does: an absolute `name` replaces `base`;
/// otherwise a `/` is put between them unless `base` is empty or already ends with one.
pub open spec fn join_of(base: Seq<char>, name: Seq<char>) -> Seq<char> {
    if is_absolute(name) {
        name
    } else if base.len() == 0 || base.last() == '/' {
        base + name
    } else {
        base.push('/') + name
    }
}

/// The last component, when it is a name (not `.` or `..`, and the path has components).
pub open spec fn file_name_of(s: Seq<char>) -> Option<Seq<char>> {
    let c = components(s);
    if c.len() == 0 || c.last() == seq!['.'] || c.last() == seq!['.', '.'] {
        None
    } else {
        Some(c.last())
    }
}

/// Position of the last `.` in `s`, if any.
pub open spec fn last_dot(s: Seq<char>) -> Option<int>
    decreases s.len(),
{
    if s.len() == 0 {
        None
    } else if s.last() == '.' {
        Some(s.len() - 1)
    } else {
        last_dot(s.drop_last())
    }
}

/// The extension of a path: the text of the file name after its last `.`, when that `.`
/// is not the name's first character.
pub open spec fn extension_of(s: Seq<char>) -> Option<Seq<char>> {
    match file_name_of(s) {
        None => None,
        Some(n) => match last_dot(n) {
            None => None,
            Some(i) => if i == 0 { None } else { Some(n.subrange(i + 1, n.len() as int)) },
        },
    }
}

/// The components of `s`, and whether it is absolute.
pub fn components_exec(s: &str) -> (r: (bool, Vec<Vec<char>>))
    ensures
        r.0 == is_absolute(s@),
        r.1@.map_values(|v: Vec<char>| v@) == components(s@),
{
    let cs = chars_of(s);
    let mut comps: Vec<Vec<char>> = Vec::new();
    let mut cur: Vec<char> = Vec::new();
    let mut multi: bool = false;
    let mut i: usize = 0;
    proof {
        assert(cs@.take(0) =~= Seq::<char>::empty());
    }
    while i < cs.len()
        invariant
            i <= cs.len(),
            cs@ == s@,
            multi == (segments(cs@.take(i as int)).len() > 1),
            segments(cs@.take(i as int)).len() >= 1,
            segments(cs@.take(i as int)).last() == cur@,
            keep_components(segments(cs@.take(i as int)).drop_last())
                == comps@.map_values(|v: Vec<char>| v@),
        decreases cs.len() - i,
    {
        let ghost pre = cs@.take(i as int);
        let ghost segs = segments(pre);
        let c = cs[i];
        proof {
            lemma_segments_nonempty(pre);
            assert(cs@.take(i + 1).drop_last() =~= pre);
            assert(cs@.take(i + 1).last() == c);
        }
        if c == '/' {
            proof {
                let segs2 = segments(cs@.take(i + 1));
                assert(segs2 == segs.push(Seq::<char>::empty()));
                assert(segs2.drop_last() =~= segs);
                assert(segs.drop_last() =~= segs.drop_last());
                assert(segs =~= segs.drop_last().push(cur@));
            }
            let keep = !(cur.len() == 0 || (cur.len() == 1 && cur[0] == '.' && multi));
            proof {
                let segs2 = segments(cs@.take(i + 1));
                assert((cur@ == seq!['.']) == (cur@.len() == 1 && cur@[0] == '.')) by {
                    if cur@.len() == 1 && cur@[0] == '.' {
                        assert(cur@ =~= seq!['.']);
                    }
                }
                assert(keep_components(segs2.drop_last()) == keep_components(segs));
            }
            if keep {
                comps.push(cur);
            }
            cur = Vec::new();
            multi = true;
            proof {
                assert(comps@.map_values(|v: Vec<char>| v@) =~= keep_components(
                    segments(cs@.take(i + 1)).drop_last(),
                ));
            }
        } else {
            cur.push(c);
            proof {
                let segs2 = segments(cs@.take(i + 1));
                assert(segs2 == segs.update(segs.len() - 1, segs.last().push(c)));
                assert(segs2.drop_last() =~= segs.drop_last());
            }
        }
        i = i + 1;
    }
    proof {
        assert(cs@.take(i as int) =~= s@);
    }
    let keep = !(cur.len() == 0 || (cur.len() == 1 && cur[0] == '.' && multi));
    proof {
        let segs = segments(s@);
        assert(segs =~= segs.drop_last().push(cur@));
        assert((cur@ == seq!['.']) == (cur@.len() == 1 && cur@[0] == '.')) by {
            if cur@.len() == 1 && cur@[0] == '.' {
                assert(cur@ =~= seq!['.']);
            }
        }
    }
    if keep {
        comps.push(cur);
    }
    proof {
        assert(comps@.map_values(|v: Vec<char>| v@) =~= components(s@));
    }
    let abs = cs.len() > 0 && cs[0] == '/';
    (abs, comps)
}

/// `join_with_slash` of the first `n` parts, appended to `out`.
fn push_joined(out: &mut String, parts: &Vec<Vec<char>>, n: usize)
    requires
        n <= parts.len(),
    ensures
        final(out)@ == old(out)@ + join_with_slash(parts@.map_values(|v: Vec<char>| v@).take(n as int)),
{
    let ghost ps = parts@.map_values(|v: Vec<char>| v@);
    let mut k: usize = 0;
    proof {
        assert(ps.take(0) =~= Seq::<Seq<char>>::empty());
        assert(out@ =~= old(out)@ + join_with_slash(ps.take(0)));
    }
    while k < n
        invariant
            n <= parts.len(),
            k <= n,
            ps == parts@.map_values(|v: Vec<char>| v@),
            out@ == old(out)@ + join_with_slash(ps.take(k as int)),
        decreases n - k,
    {
        let ghost before = out@;
        if k > 0 {
            push_char(out, '/');
        }
        let part = &parts[k];
        let mut j: usize = 0;
        let ghost mid = out@;
        while j < part.len()
            invariant
                j <= part.len(),
                out@ == mid + part@.take(j as int),
            decreases part.len() - j,
        {
            push_char(out, part[j]);
            j = j + 1;
            proof {
                assert(part@.take(j as int) =~= part@.take(j - 1).push(part@[j - 1]));
            }
        }
        proof {
            assert(part@.take(j as int) =~= part@);
            assert(ps[k as int] == part@);
            assert(ps.take(k + 1).drop_last() =~= ps.take(k as int));
            if k == 0 {
                assert(ps.take(1) =~= seq![part@]);
            }
            assert(out@ =~= old(out)@ + join_with_slash(ps.take(k + 1)));
        }
        k = k + 1;
    }
}

/// The parent of `s` (see `parent_of`).
pub fn parent(s: &str) -> (r: Option<String>)
    ensures
        match r {
            None => parent_of(s@) is None,
            Some(p) => parent_of(s@) == Some(p@),
        },
{
    let (abs, comps) = components_exec(s);
    if comps.len() == 0 {
        return None;
    }
    let mut out = String::new();
    if abs {
        push_char(&mut out, '/');
    }
    push_joined(&mut out, &comps, comps.len() - 1);
    proof {
        let ps = comps@.map_values(|v: Vec<char>| v@);
        assert(ps.take(comps.len() - 1) =~= ps.drop_last());
        if abs {
            assert(out@ =~= seq!['/'] + join_with_slash(components(s@).drop_last()));
        } else {
            assert(out@ =~= join_with_slash(components(s@).drop_last()));
        }
    }
    Some(out)
}

/// `base` joined with `name` (see `join_of`).
pub fn join(base: &str, name: &str) -> (r: String)
    ensures
        r@ == join_of(base@, name@),
{
    let bc = chars_of(base);
    let nc = chars_of(name);
    if nc.len() > 0 && nc[0] == '/' {
        return string_of(&nc);
    }
    let mut out = string_of(&bc);
    if !(bc.len() == 0 || bc[bc.len() - 1] == '/') {
        push_char(&mut out, '/');
    }
    out.append(name);
    out
}

/// The file name of `s` (see `file_name_of`).
pub fn file_name(s: &str) -> (r: Option<String>)
    ensures
        match r {
            None => file_name_of(s@) is None,
            Some(n) => file_name_of(s@) == Some(n@),
        },
{
    let (_abs, comps) = components_exec(s);
    if comps.len() == 0 {
        return None;
    }
    let last = &comps[comps.len() - 1];
    proof {
        let ps = comps@.map_values(|v: Vec<char>| v@);
        assert(ps.last() == last@);
    }
    let is_dot = last.len() == 1 && last[0] == '.';
    let is_dotdot = last.len() == 2 && last[0] == '.' && last[1] == '.';
    proof {
        if last@.len() == 1 && last@[0] == '.' {
            assert(last@ =~= seq!['.']);
        }
        if last@.len() == 2 && last@[0] == '.' && last@[1] == '.' {
            assert(last@ =~= seq!['.', '.']);
        }
    }
    if is_dot || is_dotdot {
        return None;
    }
    Some(string_of(last))
}

/// The extension of `s` (see `extension_of`).
pub fn extension(s: &str) -> (r: Option<String>)
    ensures
        match r {
            None => extension_of(s@) is None,
            Some(e) => extension_of(s@) == Some(e@),
        },
{
    let name = match file_name(s) {
        None => return None,
        Some(n) => n,
    };
    let nc = chars_of(name.as_str());
    let mut i: usize = nc.len();
    assert(nc@.take(nc.len() as int) =~= nc@);
    while i > 0 && nc[i - 1] != '.'
        invariant
            i <= nc.len(),
            forall|j: int| i <= j < nc.len() ==> nc@[j] != '.',
            last_dot(nc@) == last_dot(nc@.take(i as int)),
        decreases i,
    {
        proof {
            assert(nc@.take(i as int).drop_last() =~= nc@.take(i - 1));
        }
        i = i - 1;
    }
    proof {
        assert(nc@.take(nc.len() as int) =~= nc@);
    }
    if i == 0 {
        proof {
            assert(nc@.take(0) =~= Seq::<char>::empty());
        }
        return None;
    }
    proof {
        assert(last_dot(nc@.take(i as int)) == Some(i - 1));
    }
    if i == 1 {
        return None;
    }
    let mut out: Vec<char> = Vec::new();
    let mut k: usize = i;
    while k < nc.len()
        invariant
            i <= k <= nc.len(),
            out@ == nc@.subrange(i as int, k as int),
        decreases nc.len() - k,
    {
        out.push(nc[k]);
        k = k + 1;
        proof {
            assert(out@ =~= nc@.subrange(i as int, k as int));
        }
    }
    Some(string_of(&out))
}

/// A path component as `std::path` orders it: the root, then `.`, then `..`, then names,
/// names by their text.
pub open spec fn comp_key(c: Seq<char>) -> (u8, Seq<char>) {
    if c == seq!['.'] {
        (2u8, Seq::empty())
    } else if c == seq!['.', '.'] {
        (3u8, Seq::empty())
    } else {
        (4u8, c)
    }
}

/// The sequence of component keys by which `std::path::Path` compares paths: the root
/// first for an absolute path, then each component.
pub open spec fn path_key_of(s: Seq<char>) -> Seq<(u8, Seq<char>)> {
    let named = components(s).map_values(|c: Seq<char>| comp_key(c));
    if is_absolute(s) {
        seq![(1u8, Seq::<char>::empty())] + named
    } else {
        named
    }
}

pub open spec fn comp_le(a: (u8, Seq<char>), b: (u8, Seq<char>)) -> bool {
    a.0 < b.0 || (a.0 == b.0 && lex_le(a.1, b.1))
}

/// Lexicographic order on component keys.
pub open spec fn key_le(a: Seq<(u8, Seq<char>)>, b: Seq<(u8, Seq<char>)>) -> bool
    decreases a.len(),
{
    if a.len() == 0 {
        true
    } else if b.len() == 0 {
        false
    } else if a[0] != b[0] {
        comp_le(a[0], b[0])
    } else {
        key_le(a.drop_first(), b.drop_first())
    }
}

proof fn lemma_comp_total(a: (u8, Seq<char>), b: (u8, Seq<char>))
    ensures
        comp_le(a, b) || comp_le(b, a),
{
    lemma_lex_total(a.1, b.1);
}

proof fn lemma_comp_antisym(a: (u8, Seq<char>), b: (u8, Seq<char>))
    requires
        comp_le(a, b),
        comp_le(b, a),
    ensures
        a == b,
{
    lemma_lex_antisym(a.1, b.1);
}

proof fn lemma_comp_trans(a: (u8, Seq<char>), b: (u8, Seq<char>), c: (u8, Seq<char>))
    requires
        comp_le(a, b),
        comp_le(b, c),
    ensures
        comp_le(a, c),
{
    if a.0 == b.0 && b.0 == c.0 {
        lemma_lex_trans(a.1, b.1, c.1);
    }
}

pub proof fn lemma_key_total(a: Seq<(u8, Seq<char>)>, b: Seq<(u8, Seq<char>)>)
    ensures
        key_le(a, b) || key_le(b, a),
    decreases a.len(),
{
    if a.len() > 0 && b.len() > 0 {
        if a[0] == b[0] {
            lemma_key_total(a.drop_first(), b.drop_first());
        } else {
            lemma_comp_total(a[0], b[0]);
        }
    }
}

pub proof fn lemma_key_trans(a: Seq<(u8, Seq<char>)>, b: Seq<(u8, Seq<char>)>, c: Seq<(u8, Seq<char>)>)
    requires
        key_le(a, b),
        key_le(b, c),
    ensures
        key_le(a, c),
    decreases a.len(),
{
    if a.len() > 0 && b.len() > 0 && c.len() > 0 {
        if a[0] == b[0] && b[0] == c[0] {
            lemma_key_trans(a.drop_first(), b.drop_first(), c.drop_first());
        } else if a[0] == b[0] {
        } else if b[0] == c[0] {
        } else {
            lemma_comp_trans(a[0], b[0], c[0]);
            if a[0] == c[0] {
                lemma_comp_antisym(a[0], b[0]);
            }
        }
    }
}

/// The component keys of a path (see `path_key_of`).
pub struct PathParts {
    pub parts: Vec<(u8, Vec<char>)>,
}

impl PathParts {
    pub open spec fn key(self) -> Seq<(u8, Seq<char>)> {
        self.parts@.map_values(|p: (u8, Vec<char>)| (p.0, p.1@))
    }
}

fn comp_le_exec(a: &(u8, Vec<char>), b: &(u8, Vec<char>)) -> (r: bool)
    ensures
        r == comp_le((a.0, a.1@), (b.0, b.1@)),
{
    a.0 < b.0 || (a.0 == b.0 && lex_le_exec(&a.1, &b.1))
}

fn comp_eq_exec(a: &(u8, Vec<char>), b: &(u8, Vec<char>)) -> (r: bool)
    ensures
        r == ((a.0, a.1@) == (b.0, b.1@)),
{
    if a.0 != b.0 || a.1.len() != b.1.len() {
        return false;
    }
    let mut i: usize = 0;
    while i < a.1.len()
        invariant
            i <= a.1.len(),
            a.1.len() == b.1.len(),
            forall|j: int| 0 <= j < i ==> a.1@[j] == b.1@[j],
        decreases a.1.len() - i,
    {
        if a.1[i] != b.1[i] {
            return false;
        }
        i = i + 1;
    }
    assert(a.1@ =~= b.1@);
    true
}

/// `a` orders no later than `b` by their component keys.
fn parts_le(a: &PathParts, b: &PathParts) -> (r: bool)
    ensures
        r == key_le(a.key(), b.key()),
{
    let ghost ka = a.key();
    let ghost kb = b.key();
    let mut i: usize = 0;
    assert(ka.skip(0) =~= ka);
    assert(kb.skip(0) =~= kb);
    while i < a.parts.len() && i < b.parts.len() && comp_eq_exec(&a.parts[i], &b.parts[i])
        invariant
            ka == a.key(),
            kb == b.key(),
            i <= a.parts.len(),
            i <= b.parts.len(),
            key_le(ka, kb) == key_le(ka.skip(i as int), kb.skip(i as int)),
        decreases a.parts.len() - i,
    {
        proof {
            assert(ka.skip(i as int).drop_first() =~= ka.skip(i + 1));
            assert(kb.skip(i as int).drop_first() =~= kb.skip(i + 1));
            assert(ka.skip(i as int)[0] == ka[i as int]);
            assert(kb.skip(i as int)[0] == kb[i as int]);
        }
        i = i + 1;
    }
    if i == a.parts.len() {
        assert(ka.skip(i as int).len() == 0);
        true
    } else if i == b.parts.len() {
        assert(kb.skip(i as int).len() == 0);
        false
    } else {
        assert(ka.skip(i as int)[0] == ka[i as int]);
        assert(kb.skip(i as int)[0] == kb[i as int]);
        comp_le_exec(&a.parts[i], &b.parts[i])
    }
}

/// A path, ordered as `std::path::Path` orders paths: component by component.
pub struct PathKey {
    pub path: String,
}

impl OrdKey for PathKey {
    open spec fn le(self, other: Self) -> bool {
        key_le(path_key_of(self.path@), path_key_of(other.path@))
    }

    fn le_exec(&self, other: &Self) -> (r: bool) {
        let a = path_parts(self.path.as_str());
        let b = path_parts(other.path.as_str());
        parts_le(&a, &b)
    }

    proof fn lemma_total(a: Self, b: Self) {
        lemma_key_total(path_key_of(a.path@), path_key_of(b.path@));
    }

    proof fn lemma_trans(a: Self, b: Self, c: Self) {
        lemma_key_trans(path_key_of(a.path@), path_key_of(b.path@), path_key_of(c.path@));
    }
}

/// The component keys of `s`.
pub fn path_parts(s: &str) -> (k: PathParts)
    ensures
        k.key() == path_key_of(s@),
{
    let (abs, comps) = components_exec(s);
    let mut parts: Vec<(u8, Vec<char>)> = Vec::new();
    if abs {
        let e: Vec<char> = Vec::new();
        assert(e@ =~= Seq::<char>::empty());
        parts.push((1u8, e));
    }
    let ghost start = parts@.map_values(|p: (u8, Vec<char>)| (p.0, p.1@));
    let ghost cv = comps@.map_values(|v: Vec<char>| v@);
    let mut i: usize = 0;
    while i < comps.len()
        invariant
            i <= comps.len(),
            cv == comps@.map_values(|v: Vec<char>| v@),
            parts@.map_values(|p: (u8, Vec<char>)| (p.0, p.1@)) == start + cv.take(i as int).map_values(|c: Seq<char>| comp_key(c)),
        decreases comps.len() - i,
    {
        let c = &comps[i];
        let is_dot = c.len() == 1 && c[0] == '.';
        let is_dotdot = c.len() == 2 && c[0] == '.' && c[1] == '.';
        proof {
            if c@.len() == 1 && c@[0] == '.' {
                assert(c@ =~= seq!['.']);
            }
            if c@.len() == 2 && c@[0] == '.' && c@[1] == '.' {
                assert(c@ =~= seq!['.', '.']);
            }
            assert(cv[i as int] == c@);
        }
        let ghost before = parts@;
        if is_dot {
            let e: Vec<char> = Vec::new();
            assert(e@ =~= Seq::<char>::empty());
            parts.push((2u8, e));
        } else if is_dotdot {
            let e: Vec<char> = Vec::new();
            assert(e@ =~= Seq::<char>::empty());
            parts.push((3u8, e));
        } else {
            parts.push((4u8, c.clone()));
        }
        proof {
            assert(cv.take(i + 1) =~= cv.take(i as int).push(cv[i as int]));
            assert(parts@.map_values(|p: (u8, Vec<char>)| (p.0, p.1@)) =~= before.map_values(|p: (u8, Vec<char>)| (p.0, p.1@)).push(comp_key(c@)));
        }
        i = i + 1;
    }
    proof {
        assert(cv.take(comps.len() as int) =~= cv);
    }
    let k = PathParts { parts };
    proof {
        if abs {
            assert(start =~= seq![(1u8, Seq::<char>::empty())]);
        } else {
            assert(start =~= Seq::<(u8, Seq<char>)>::empty());
        }
        assert(k.key() =~= path_key_of(s@));
    }
    k
}

/// `base`'s component keys begin `p`'s.
pub open spec fn is_key_prefix(base: Seq<(u8, Seq<char>)>, p: Seq<(u8, Seq<char>)>) -> bool {
    base.len() <= p.len() && p.take(base.len() as int) == base
}

/// Two paths are equal as `std::path::Path` compares them: component by component.
pub open spec fn same_path(a: Seq<char>, b: Seq<char>) -> bool {
    path_key_of(a) == path_key_of(b)
}

/// `Path::starts_with`: `base`'s components begin `p`'s.
pub open spec fn path_starts_with(p: Seq<char>, base: Seq<char>) -> bool {
    is_key_prefix(path_key_of(base), path_key_of(p))
}

/// The text of a component.
pub open spec fn key_text(k: (u8, Seq<char>)) -> Seq<char> {
    if k.0 == 1 {
        Seq::empty()
    } else if k.0 == 2 {
        seq!['.']
    } else if k.0 == 3 {
        seq!['.', '.']
    } else {
        k.1
    }
}

/// A path written from its components: `/` first when it starts at the root, the other
/// components joined by `/`.
pub open spec fn render_keys(keys: Seq<(u8, Seq<char>)>) -> Seq<char> {
    let texts = keys.map_values(|k: (u8, Seq<char>)| key_text(k));
    if keys.len() > 0 && keys[0].0 == 1 {
        seq!['/'] + join_with_slash(texts.drop_first())
    } else {
        join_with_slash(texts)
    }
}

/// `Path::strip_prefix`: the rest of `p` after the components of `base`, when they begin it.
pub open spec fn strip_prefix_of(p: Seq<char>, base: Seq<char>) -> Option<Seq<char>> {
    if path_starts_with(p, base) {
        Some(render_keys(path_key_of(p).skip(path_key_of(base).len() as int)))
    } else {
        None
    }
}

fn parts_eq(a: &PathParts, b: &PathParts, from: usize) -> (r: bool)
    requires
        from <= a.parts.len(),
        from <= b.parts.len(),
    ensures
        r == (a.key().skip(from as int) == b.key().skip(from as int)),
{
    if a.parts.len() != b.parts.len() {
        assert(a.key().skip(from as int).len() != b.key().skip(from as int).len());
        return false;
    }
    let mut i: usize = from;
    while i < a.parts.len()
        invariant
            from <= i <= a.parts.len(),
            a.parts.len() == b.parts.len(),
            forall|j: int| from <= j < i ==> a.key()[j] == b.key()[j],
        decreases a.parts.len() - i,
    {
        if !comp_eq_exec(&a.parts[i], &b.parts[i]) {
            assert(a.key().skip(from as int)[i - from] != b.key().skip(from as int)[i - from]);
            return false;
        }
        i = i + 1;
    }
    assert(a.key().skip(from as int) =~= b.key().skip(from as int));
    true
}

/// `base`'s keys begin `p`'s.
fn parts_prefix(base: &PathParts, p: &PathParts) -> (r: bool)
    ensures
        r == is_key_prefix(base.key(), p.key()),
{
    if base.parts.len() > p.parts.len() {
        return false;
    }
    let mut i: usize = 0;
    while i < base.parts.len()
        invariant
            i <= base.parts.len(),
            base.parts.len() <= p.parts.len(),
            forall|j: int| 0 <= j < i ==> base.key()[j] == p.key()[j],
        decreases base.parts.len() - i,
    {
        if !comp_eq_exec(&base.parts[i], &p.parts[i]) {
            assert(p.key().take(base.parts.len() as int)[i as int] != base.key()[i as int]);
            return false;
        }
        i = i + 1;
    }
    assert(p.key().take(base.parts.len() as int) =~= base.key());
    true
}

/// Whether `a` and `b` are the same path (see `same_path`).
pub fn same_path_exec(a: &str, b: &str) -> (r: bool)
    ensures
        r == same_path(a@, b@),
{
    let x = path_parts(a);
    let y = path_parts(b);
    let r = parts_eq(&x, &y, 0);
    assert(x.key().skip(0) =~= x.key());
    assert(y.key().skip(0) =~= y.key());
    r
}

/// Whether `p` starts with `base` (see `path_starts_with`).
pub fn starts_with_path(p: &str, base: &str) -> (r: bool)
    ensures
        r == path_starts_with(p@, base@),
{
    let x = path_parts(base);
    let y = path_parts(p);
    parts_prefix(&x, &y)
}

/// The text of the components `keys[from..]` (see `render_keys`).
fn render_parts(k: &PathParts, from: usize) -> (r: String)
    requires
        from <= k.parts.len(),
    ensures
        r@ == render_keys(k.key().skip(from as int)),
{
    let ghost ks = k.key().skip(from as int);
    let ghost texts = ks.map_values(|x: (u8, Seq<char>)| key_text(x));
    let mut out = String::new();
    let mut start: usize = from;
    if from < k.parts.len() && k.parts[from].0 == 1 {
        push_char(&mut out, '/');
        start = from + 1;
    }
    let ghost rest = k.key().skip(start as int).map_values(|x: (u8, Seq<char>)| key_text(x));
    proof {
        if start == from + 1 {
            assert(ks[0] == k.key()[from as int]);
            assert(texts.drop_first() =~= rest);
        } else {
            assert(texts =~= rest);
        }
    }
    let ghost head = out@;
    let mut i: usize = start;
    assert(rest.take(0) =~= Seq::<Seq<char>>::empty());
    while i < k.parts.len()
        invariant
            start <= i <= k.parts.len(),
            rest == k.key().skip(start as int).map_values(|x: (u8, Seq<char>)| key_text(x)),
            out@ == head + join_with_slash(rest.take(i - start)),
        decreases k.parts.len() - i,
    {
        let ghost before = out@;
        if i > start {
            push_char(&mut out, '/');
        }
        let part = &k.parts[i];
        let ghost t = key_text((part.0, part.1@));
        if part.0 == 1 {
        } else if part.0 == 2 {
            push_char(&mut out, '.');
        } else if part.0 == 3 {
            push_char(&mut out, '.');
            push_char(&mut out, '.');
        } else {
            let mut j: usize = 0;
            let ghost mid = out@;
            while j < part.1.len()
                invariant
                    j <= part.1.len(),
                    out@ == mid + part.1@.take(j as int),
                decreases part.1.len() - j,
            {
                push_char(&mut out, part.1[j]);
                j = j + 1;
                assert(out@ =~= mid + part.1@.take(j as int));
            }
            assert(part.1@.take(j as int) =~= part.1@);
        }
        proof {
            assert(rest[i - start] == t);
            assert(rest.take(i - start + 1).drop_last() =~= rest.take(i - start));
            if i == start {
                assert(rest.take(1) =~= seq![t]);
            }
            assert(out@ =~= head + join_with_slash(rest.take(i - start + 1)));
        }
        i = i + 1;
    }
    proof {
        assert(rest.take(k.parts.len() - start) =~= rest);
    }
    out
}

/// `Path::strip_prefix` (see `strip_prefix_of`).
pub fn strip_prefix(p: &str, base: &str) -> (r: Option<String>)
    ensures
        match r {
            Some(s) => strip_prefix_of(p@, base@) == Some(s@),
            None => strip_prefix_of(p@, base@) is None,
        },
{
    let x = path_parts(base);
    let y = path_parts(p);
    if !parts_prefix(&x, &y) {
        return None;
    }
    Some(render_parts(&y, x.parts.len()))
}

} // verus!
