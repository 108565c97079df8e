//! Finding files below a directory by name, extension, size and modification time.

use vstd::prelude::*;
use crate::fs::FileEntry;
use crate::fs::archive::fe_view;
use crate::text::{to_lower, lowercase, chars_of, contains_seq, contains_exec};
use crate::path::{extension, file_name, file_name_of};
use crate::ops::classify::ext_text;

verus! {

/// What a search asks for; each part that is set must hold. Times are seconds since
/// the Unix epoch.
#[derive(Debug, Clone)]
pub struct SearchCriteria {
    pub pattern: Option<String>,
    pub extension: Option<String>,
    pub min_size: Option<u64>,
    pub max_size: Option<u64>,
    pub modified_after: Option<i64>,
    pub modified_before: Option<i64>,
}

impl Default for SearchCriteria {
    fn default() -> (c: SearchCriteria)
        ensures
            c.pattern is None,
            c.extension is None,
            c.min_size is None,
            c.max_size is None,
            c.modified_after is None,
            c.modified_before is None,
    {
        SearchCriteria {
            pattern: None,
            extension: None,
            min_size: None,
            max_size: None,
            modified_after: None,
            modified_before: None,
        }
    }
}

/// An entry a walk found below the search root: its path and, when its metadata could be
/// read, whether it is a directory, its size and its modification time.
pub struct FoundEntry {
    pub path: String,
    pub meta: Option<(bool, u64, i64)>,
}

/// The file name of a path, empty when it has none.
pub open spec fn name_text(path: Seq<char>) -> Seq<char> {
    match file_name_of(path) {
        Some(n) => n,
        None => Seq::empty(),
    }
}

/// `s` without its leading dots.
pub open spec fn trim_dots(s: Seq<char>) -> Seq<char>
    decreases s.len(),
{
    if s.len() > 0 && s[0] == '.' {
        trim_dots(s.drop_first())
    } else {
        s
    }
}

/// The metadata of an entry (meaningful when it was read).
pub open spec fn meta_of(e: FoundEntry) -> (bool, u64, i64) {
    e.meta->0
}

/// The entry `e` meets the criteria: its lowercased name contains the lowercased pattern,
/// its lowercased extension is the asked one (lowercased, leading dots dropped), its
/// metadata was read, and its size and time are within the bounds.
pub open spec fn passes(e: FoundEntry, c: SearchCriteria) -> bool {
    &&& (c.pattern matches Some(p) ==> contains_seq(lowercase(name_text(e.path@)), lowercase(p@)))
    &&& (c.extension matches Some(x) ==> lowercase(ext_text(e.path@)) == trim_dots(lowercase(x@)))
    &&& e.meta is Some
    &&& (c.min_size matches Some(m) ==> meta_of(e).1 >= m)
    &&& (c.max_size matches Some(m) ==> meta_of(e).1 <= m)
    &&& (c.modified_after matches Some(t) ==> meta_of(e).2 >= t)
    &&& (c.modified_before matches Some(t) ==> meta_of(e).2 <= t)
}

/// The entry a match is shown as: its file name, path, kind, size (0 for a directory) and
/// time, with permissions `0o644`.
pub open spec fn hit_view(e: FoundEntry) -> (Seq<char>, Seq<char>, bool, u64, i64, u32) {
    let m = meta_of(e);
    (name_text(e.path@), e.path@, m.0, if m.0 { 0u64 } else { m.1 }, m.2, 420u32)
}

/// The matches among `found`, in the order found.
pub open spec fn search_results(found: Seq<FoundEntry>, c: SearchCriteria) -> Seq<(Seq<char>, Seq<char>, bool, u64, i64, u32)>
    decreases found.len(),
{
    if found.len() == 0 {
        Seq::empty()
    } else {
        let rest = search_results(found.drop_last(), c);
        if passes(found.last(), c) {
            rest.push(hit_view(found.last()))
        } else {
            rest
        }
    }
}

fn trim_dots_exec(s: &Vec<char>) -> (r: Vec<char>)
    ensures
        r@ == trim_dots(s@),
{
    let mut i: usize = 0;
    assert(s@.skip(0) =~= s@);
    while i < s.len() && s[i] == '.'
        invariant
            i <= s.len(),
            trim_dots(s@) == trim_dots(s@.skip(i as int)),
        decreases s.len() - i,
    {
        assert(s@.skip(i as int).drop_first() =~= s@.skip(i + 1));
        i = i + 1;
    }
    let mut r: Vec<char> = Vec::new();
    let mut k: usize = i;
    while k < s.len()
        invariant
            i <= k <= s.len(),
            r@ == s@.subrange(i as int, k as int),
        decreases s.len() - k,
    {
        r.push(s[k]);
        k = k + 1;
        assert(r@ =~= s@.subrange(i as int, k as int));
    }
    assert(r@ =~= s@.skip(i as int));
    r
}

fn chars_equal(a: &Vec<char>, b: &Vec<char>) -> (r: bool)
    ensures
        r == (a@ == b@),
{
    if a.len() != b.len() {
        return false;
    }
    let mut i: usize = 0;
    while i < a.len()
        invariant
            i <= a.len(),
            a.len() == b.len(),
            forall|j: int| 0 <= j < i ==> a@[j] == b@[j],
        decreases a.len() - i,
    {
        if a[i] != b[i] {
            return false;
        }
        i = i + 1;
    }
    assert(a@ =~= b@);
    true
}

/// Whether `e` meets `c`, given the lowercased pattern and the asked extension.
fn passes_exec(e: &FoundEntry, c: &SearchCriteria, pat: &Option<Vec<char>>, ext: &Option<Vec<char>>) -> (r: bool)
    requires
        match c.pattern {
            Some(p) => pat matches Some(v) && v@ == lowercase(p@),
            None => pat is None,
        },
        match c.extension {
            Some(x) => ext matches Some(v) && v@ == trim_dots(lowercase(x@)),
            None => ext is None,
        },
    ensures
        r == passes(*e, *c),
{
    match pat {
        Some(p) => {
            let name = match file_name(e.path.as_str()) {
                Some(n) => n,
                None => String::new(),
            };
            let lower = chars_of(to_lower(name.as_str()).as_str());
            if !contains_exec(&lower, p) {
                return false;
            }
        },
        None => {},
    }
    match ext {
        Some(x) => {
            let actual = match extension(e.path.as_str()) {
                Some(a) => a,
                None => String::new(),
            };
            let lower = chars_of(to_lower(actual.as_str()).as_str());
            if !chars_equal(&lower, x) {
                return false;
            }
        },
        None => {},
    }
    let m = match e.meta {
        Some(m) => m,
        None => return false,
    };
    let size = m.1;
    let modified = m.2;
    match c.min_size {
        Some(min) => {
            if size < min {
                return false;
            }
        },
        None => {},
    }
    match c.max_size {
        Some(max) => {
            if size > max {
                return false;
            }
        },
        None => {},
    }
    match c.modified_after {
        Some(t) => {
            if modified < t {
                return false;
            }
        },
        None => {},
    }
    match c.modified_before {
        Some(t) => {
            if modified > t {
                return false;
            }
        },
        None => {},
    }
    true
}

/// The entries below the root (as a walk found them, the root itself left out) that meet
/// `criteria`, in the order found.
pub fn find_files_with_criteria(found: &Vec<FoundEntry>, criteria: &SearchCriteria) -> (r: Vec<FileEntry>)
    ensures
        r@.map_values(|e: FileEntry| fe_view(e)) == search_results(found@, *criteria),
{
    let pat: Option<Vec<char>> = match &criteria.pattern {
        Some(p) => Some(chars_of(to_lower(p.as_str()).as_str())),
        None => None,
    };
    let ext: Option<Vec<char>> = match &criteria.extension {
        Some(x) => {
            let lower = chars_of(to_lower(x.as_str()).as_str());
            Some(trim_dots_exec(&lower))
        },
        None => None,
    };
    let mut r: Vec<FileEntry> = Vec::new();
    let mut i: usize = 0;
    while i < found.len()
        invariant
            i <= found.len(),
            match criteria.pattern {
                Some(p) => pat matches Some(v) && v@ == lowercase(p@),
                None => pat is None,
            },
            match criteria.extension {
                Some(x) => ext matches Some(v) && v@ == trim_dots(lowercase(x@)),
                None => ext is None,
            },
            r@.map_values(|e: FileEntry| fe_view(e)) == search_results(found@.take(i as int), *criteria),
        decreases found.len() - i,
    {
        let e = &found[i];
        proof {
            assert(found@.take(i + 1).drop_last() =~= found@.take(i as int));
            assert(found@.take(i + 1).last() == *e);
        }
        if passes_exec(e, criteria, &pat, &ext) {
            let m = match e.meta {
                Some(m) => m,
                None => (false, 0, 0),
            };
            let name = match file_name(e.path.as_str()) {
                Some(n) => n,
                None => String::new(),
            };
            let ghost before = r@;
            r.push(FileEntry {
                name,
                path: e.path.clone(),
                is_dir: m.0,
                size: if m.0 { 0 } else { m.1 },
                modified: m.2,
                permissions: 420,
            });
            proof {
                assert(r@.map_values(|e: FileEntry| fe_view(e)) =~= before.map_values(|e: FileEntry| fe_view(e)).push(
                    hit_view(*e),
                ));
            }
        }
        i = i + 1;
    }
    assert(found@.take(found.len() as int) =~= found@);
    r
}

/// The entries whose lowercased name contains the lowercased `q`, in the order found
/// (those whose metadata could not be read left out).
pub open spec fn name_results(found: Seq<FoundEntry>, q: Seq<char>) -> Seq<(Seq<char>, Seq<char>, bool, u64, i64, u32)>
    decreases found.len(),
{
    if found.len() == 0 {
        Seq::empty()
    } else {
        let rest = name_results(found.drop_last(), q);
        let e = found.last();
        if e.meta is Some && contains_seq(lowercase(name_text(e.path@)), lowercase(q)) {
            rest.push(hit_view(e))
        } else {
            rest
        }
    }
}

proof fn lemma_name_results(found: Seq<FoundEntry>, c: SearchCriteria, q: Seq<char>)
    requires
        c.pattern matches Some(p) && p@ == q,
        c.extension is None,
        c.min_size is None,
        c.max_size is None,
        c.modified_after is None,
        c.modified_before is None,
    ensures
        search_results(found, c) == name_results(found, q),
    decreases found.len(),
{
    if found.len() > 0 {
        lemma_name_results(found.drop_last(), c, q);
    }
}

/// The entries whose name contains `query`, ignoring case.
pub fn find_files(found: &Vec<FoundEntry>, query: &str) -> (r: Vec<FileEntry>)
    ensures
        r@.map_values(|e: FileEntry| fe_view(e)) == name_results(found@, query@),
{
    let mut c = SearchCriteria::default();
    c.pattern = Some(String::from_str(query));
    let r = find_files_with_criteria(found, &c);
    proof {
        lemma_name_results(found@, c, query@);
    }
    r
}

} // verus!
