//! Comparing the files of two directory trees by relative path, size and modification time.

use vstd::prelude::*;
use crate::order::{is_stable_order, stable_order, lex_le, lemma_lex_antisym, is_permutation};
use crate::text::{chars_of, push_str};
use crate::report::{concat_all, lemma_concat_push, count_text, opt_size_text, push_opt_size, push_count};

verus! {

/// A file found under a root: its path relative to the root, its size and its
/// modification time (seconds since the epoch, 0 when unknown).
#[derive(Debug)]
pub struct FileStamp {
    pub relative_path: String,
    pub size: u64,
    pub modified: u64,
}

/// One file that is not the same on both sides.
#[derive(Debug)]
pub struct DiffEntry {
    pub relative_path: String,
    pub left_size: Option<u64>,
    pub right_size: Option<u64>,
    pub left_modified: Option<u64>,
    pub right_modified: Option<u64>,
}

pub struct SyncReport {
    pub left_root: String,
    pub right_root: String,
    pub only_left: Vec<DiffEntry>,
    pub only_right: Vec<DiffEntry>,
    pub different: Vec<DiffEntry>,
    pub same_count: usize,
}

/// The files of one side by relative path; a later record for the same path replaces
/// an earlier one.
pub open spec fn stamp_map(list: Seq<FileStamp>) -> Map<Seq<char>, (u64, u64)>
    decreases list.len(),
{
    if list.len() == 0 {
        Map::empty()
    } else {
        stamp_map(list.drop_last()).insert(list.last().relative_path@, (list.last().size, list.last().modified))
    }
}

/// The paths of a list of differences are in ascending order, each once.
pub open spec fn paths_ascending(d: Seq<DiffEntry>) -> bool {
    forall|i: int, j: int|
        0 <= i < j < d.len() ==> lex_le(d[i].relative_path@, d[j].relative_path@)
            && d[i].relative_path@ != d[j].relative_path@
}

pub open spec fn lists_path(d: Seq<DiffEntry>, k: Seq<char>) -> bool {
    exists|i: int| 0 <= i < d.len() && d[i].relative_path@ == k
}

/// The paths on both sides with the same size and modification time.
pub open spec fn same_paths(l: Map<Seq<char>, (u64, u64)>, r: Map<Seq<char>, (u64, u64)>) -> Set<Seq<char>> {
    l.dom().filter(|k: Seq<char>| r.contains_key(k) && l[k] == r[k])
}

/// `report` is the comparison of the left files `l` with the right files `r`.
pub open spec fn is_sync_report(report: SyncReport, l: Map<Seq<char>, (u64, u64)>, r: Map<Seq<char>, (u64, u64)>) -> bool {
    &&& paths_ascending(report.only_left@)
    &&& paths_ascending(report.only_right@)
    &&& paths_ascending(report.different@)
    &&& forall|k: Seq<char>| #[trigger] lists_path(report.only_left@, k) <==> (l.contains_key(k) && !r.contains_key(k))
    &&& forall|k: Seq<char>| #[trigger] lists_path(report.only_right@, k) <==> (r.contains_key(k) && !l.contains_key(k))
    &&& forall|k: Seq<char>| #[trigger] lists_path(report.different@, k) <==> (l.contains_key(k) && r.contains_key(k) && l[k] != r[k])
    &&& forall|i: int| 0 <= i < report.only_left@.len() ==> {
        let e = #[trigger] report.only_left@[i];
        &&& e.left_size == Some(l[e.relative_path@].0)
        &&& e.left_modified == Some(l[e.relative_path@].1)
        &&& e.right_size is None
        &&& e.right_modified is None
    }
    &&& forall|i: int| 0 <= i < report.only_right@.len() ==> {
        let e = #[trigger] report.only_right@[i];
        &&& e.right_size == Some(r[e.relative_path@].0)
        &&& e.right_modified == Some(r[e.relative_path@].1)
        &&& e.left_size is None
        &&& e.left_modified is None
    }
    &&& forall|i: int| 0 <= i < report.different@.len() ==> {
        let e = #[trigger] report.different@[i];
        &&& e.left_size == Some(l[e.relative_path@].0)
        &&& e.left_modified == Some(l[e.relative_path@].1)
        &&& e.right_size == Some(r[e.relative_path@].0)
        &&& e.right_modified == Some(r[e.relative_path@].1)
    }
    &&& report.same_count == same_paths(l, r).len()
}

/// No later record has the same path as record `i`.
pub open spec fn is_last_record(list: Seq<FileStamp>, i: int) -> bool {
    forall|j: int| i < j < list.len() ==> list[j].relative_path@ != list[i].relative_path@
}

proof fn lemma_stamp_map(list: Seq<FileStamp>)
    ensures
        forall|k: Seq<char>| stamp_map(list).contains_key(k) <==> exists|i: int| 0 <= i < list.len() && list[i].relative_path@ == k,
        forall|i: int| 0 <= i < list.len() && is_last_record(list, i) ==> stamp_map(list)[list[i].relative_path@] == (list[i].size, list[i].modified),
        stamp_map(list).dom().finite(),
    decreases list.len(),
{
    if list.len() > 0 {
        let p = list.drop_last();
        lemma_stamp_map(p);
        assert forall|k: Seq<char>| stamp_map(list).contains_key(k) implies exists|i: int| 0 <= i < list.len() && list[i].relative_path@ == k by {
            if k != list.last().relative_path@ {
                let i = choose|i: int| 0 <= i < p.len() && p[i].relative_path@ == k;
                assert(list[i] == p[i]);
            } else {
                assert(list[list.len() - 1].relative_path@ == k);
            }
        }
        assert forall|k: Seq<char>| (exists|i: int| 0 <= i < list.len() && list[i].relative_path@ == k) implies stamp_map(list).contains_key(k) by {
            let i = choose|i: int| 0 <= i < list.len() && list[i].relative_path@ == k;
            if i < list.len() - 1 {
                assert(p[i] == list[i]);
            }
        }
        assert forall|i: int| 0 <= i < list.len() && is_last_record(list, i) implies stamp_map(list)[list[i].relative_path@] == (list[i].size, list[i].modified) by {
            if i < list.len() - 1 {
                assert(p[i] == list[i]);
                assert(is_last_record(p, i));
                assert(list[list.len() - 1].relative_path@ != list[i].relative_path@);
            }
        }
    }
}

/// Index of the last record for `path`, if any.
fn last_record(list: &Vec<FileStamp>, path: &String) -> (r: Option<usize>)
    ensures
        match r {
            Some(i) => i < list.len() && list@[i as int].relative_path@ == path@ && is_last_record(list@, i as int),
            None => forall|i: int| 0 <= i < list.len() ==> list@[i].relative_path@ != path@,
        },
{
    let mut j: usize = list.len();
    while j > 0
        invariant
            j <= list.len(),
            forall|i: int| j <= i < list.len() ==> list@[i].relative_path@ != path@,
        decreases j,
    {
        if list[j - 1].relative_path.eq(path) {
            return Some(j - 1);
        }
        j = j - 1;
    }
    None
}

fn copy_stamp_path(s: &String) -> (r: String)
    ensures
        r@ == s@,
{
    s.clone()
}

/// The entries ordered by relative path (a stable sort, so equal paths keep their order).
fn sort_by_path(v: Vec<DiffEntry>) -> (r: Vec<DiffEntry>)
    ensures
        exists|perm: Seq<usize>|
            is_permutation(perm, v@.len()) && r@ == perm.map_values(|p: usize| v@[p as int]),
        forall|i: int, j: int| 0 <= i < j < r@.len() ==> lex_le(r@[i].relative_path@, r@[j].relative_path@),
{
    let mut keys: Vec<Vec<char>> = Vec::new();
    let mut i: usize = 0;
    while i < v.len()
        invariant
            i <= v.len(),
            keys@.len() == i,
            forall|k: int| 0 <= k < i ==> (#[trigger] keys@[k])@ == v@[k].relative_path@,
        decreases v.len() - i,
    {
        keys.push(chars_of(v[i].relative_path.as_str()));
        i = i + 1;
    }
    let perm = stable_order(&keys, false);
    let mut out: Vec<DiffEntry> = Vec::new();
    let mut j: usize = 0;
    while j < perm.len()
        invariant
            j <= perm.len(),
            is_stable_order(keys@, perm@, false),
            keys@.len() == v@.len(),
            forall|q: int| 0 <= q < v@.len() ==> (#[trigger] keys@[q])@ == v@[q].relative_path@,
            out@ == perm@.take(j as int).map_values(|p: usize| v@[p as int]),
        decreases perm.len() - j,
    {
        let p = perm[j];
        out.push(copy_diff(&v[p]));
        j = j + 1;
        assert(out@ =~= perm@.take(j as int).map_values(|p: usize| v@[p as int]));
    }
    proof {
        assert(perm@.take(perm.len() as int) =~= perm@);
        assert forall|i: int, j: int| 0 <= i < j < out@.len() implies lex_le(out@[i].relative_path@, out@[j].relative_path@) by {
            assert(crate::order::OrdKey::le(keys@[perm@[i] as int], keys@[perm@[j] as int]));
        }
    }
    out
}

fn copy_diff(e: &DiffEntry) -> (r: DiffEntry)
    ensures
        r == *e,
{
    DiffEntry {
        relative_path: e.relative_path.clone(),
        left_size: e.left_size,
        right_size: e.right_size,
        left_modified: e.left_modified,
        right_modified: e.right_modified,
    }
}

/// The paths that have a last record before index `i`.
pub open spec fn last_keys_before(list: Seq<FileStamp>, i: int) -> Set<Seq<char>> {
    Set::new(|k: Seq<char>| exists|t: int| 0 <= t < i && list[t].relative_path@ == k && is_last_record(list, t))
}

proof fn lemma_last_keys_all(list: Seq<FileStamp>)
    ensures
        last_keys_before(list, list.len() as int) =~= stamp_map(list).dom(),
{
    lemma_stamp_map(list);
    assert forall|k: Seq<char>| stamp_map(list).contains_key(k) implies last_keys_before(list, list.len() as int).contains(k) by {
        let i = choose|i: int| 0 <= i < list.len() && list[i].relative_path@ == k;
        lemma_last_exists(list, i);
    }
}

proof fn lemma_last_exists(list: Seq<FileStamp>, i: int)
    requires
        0 <= i < list.len(),
    ensures
        exists|t: int| i <= t < list.len() && list[t].relative_path@ == list[i].relative_path@ && is_last_record(list, t),
    decreases list.len() - i,
{
    if !is_last_record(list, i) {
        let j = choose|j: int| i < j < list.len() && list[j].relative_path@ == list[i].relative_path@;
        lemma_last_exists(list, j);
    }
}

/// Distinct paths in a list of differences.
pub open spec fn distinct_paths(d: Seq<DiffEntry>) -> bool {
    forall|i: int, j: int| 0 <= i < j < d.len() ==> d[i].relative_path@ != d[j].relative_path@
}

proof fn lemma_sorted_keeps(v: Seq<DiffEntry>, r: Seq<DiffEntry>, perm: Seq<usize>)
    requires
        is_permutation(perm, v.len()),
        r == perm.map_values(|p: usize| v[p as int]),
        distinct_paths(v),
        forall|i: int, j: int| 0 <= i < j < r.len() ==> lex_le(r[i].relative_path@, r[j].relative_path@),
    ensures
        paths_ascending(r),
        forall|k: Seq<char>| lists_path(r, k) <==> lists_path(v, k),
{
    assert forall|i: int, j: int| 0 <= i < j < r.len() implies r[i].relative_path@ != r[j].relative_path@ by {
        assert(perm[i] != perm[j]);
        if perm[i] < perm[j] {
        } else {
        }
    }
    assert forall|k: Seq<char>| lists_path(v, k) implies lists_path(r, k) by {
        let q = choose|q: int| 0 <= q < v.len() && v[q].relative_path@ == k;
        assert(crate::order::index_listed(perm, q));
        let i = choose|i: int| 0 <= i < perm.len() && perm[i] == q;
        assert(r[i] == v[q]);
    }
    assert forall|k: Seq<char>| lists_path(r, k) implies lists_path(v, k) by {
        let i = choose|i: int| 0 <= i < r.len() && r[i].relative_path@ == k;
        assert(r[i] == v[perm[i] as int]);
    }
}

/// The files only on the right, in the order of the right list.
fn only_right_of(left: &Vec<FileStamp>, right: &Vec<FileStamp>) -> (only_right: Vec<DiffEntry>)
    ensures
        distinct_paths(only_right@),
        forall|k: Seq<char>| lists_path(only_right@, k) <==> (stamp_map(right@).contains_key(k) && !stamp_map(left@).contains_key(k)),
        forall|q: int| 0 <= q < only_right@.len() ==> {
            let e = #[trigger] only_right@[q];
            &&& e.right_size == Some(stamp_map(right@)[e.relative_path@].0)
            &&& e.right_modified == Some(stamp_map(right@)[e.relative_path@].1)
            &&& e.left_size is None
            &&& e.left_modified is None
        },
{
    let ghost lm = stamp_map(left@);
    let ghost rm = stamp_map(right@);
    proof {
        lemma_stamp_map(left@);
        lemma_stamp_map(right@);
    }
    let mut only_right: Vec<DiffEntry> = Vec::new();
    let mut j: usize = 0;
    while j < right.len()
        invariant
            j <= right.len(),
            lm == stamp_map(left@),
            rm == stamp_map(right@),
            forall|k: Seq<char>| lm.contains_key(k) <==> exists|t: int| 0 <= t < left@.len() && left@[t].relative_path@ == k,
            forall|t: int| 0 <= t < right@.len() && is_last_record(right@, t) ==> rm[right@[t].relative_path@] == (right@[t].size, right@[t].modified),
            distinct_paths(only_right@),
            forall|k: Seq<char>| lists_path(only_right@, k) <==> (last_keys_before(right@, j as int).contains(k) && !lm.contains_key(k)),
            forall|q: int| 0 <= q < only_right@.len() ==> {
                let e = #[trigger] only_right@[q];
                &&& e.right_size == Some(rm[e.relative_path@].0)
                &&& e.right_modified == Some(rm[e.relative_path@].1)
                &&& e.left_size is None
                &&& e.left_modified is None
            },
        decreases right.len() - j,
    {
        let e = &right[j];
        let me = last_record(&right, &e.relative_path);
        let ghost k = e.relative_path@;
        proof {
            assert(last_keys_before(right@, j + 1) =~= if is_last_record(right@, j as int) {
                last_keys_before(right@, j as int).insert(k)
            } else {
                last_keys_before(right@, j as int)
            });
        }
        if me == Some(j) {
            proof {
                assert(!last_keys_before(right@, j as int).contains(k)) by {
                    if last_keys_before(right@, j as int).contains(k) {
                        let t = choose|t: int| 0 <= t < j && right@[t].relative_path@ == k && is_last_record(right@, t);
                        assert(right@[j as int].relative_path@ == right@[t].relative_path@);
                    }
                }
            }
            if last_record(&left, &e.relative_path).is_none() {
                let d = DiffEntry {
                    relative_path: copy_stamp_path(&e.relative_path),
                    left_size: None,
                    right_size: Some(e.size),
                    left_modified: None,
                    right_modified: Some(e.modified),
                };
                proof {
                    assert(!lm.contains_key(k));
                }
                let ghost before = only_right@;
                only_right.push(d);
                proof {
                    assert forall|kk: Seq<char>| lists_path(only_right@, kk) <==> (last_keys_before(right@, j + 1).contains(kk) && !lm.contains_key(kk)) by {
                        if lists_path(only_right@, kk) && kk != k {
                            let q = choose|q: int| 0 <= q < only_right@.len() && only_right@[q].relative_path@ == kk;
                            assert(before[q] == only_right@[q]);
                        }
                        if lists_path(before, kk) {
                            let q = choose|q: int| 0 <= q < before.len() && before[q].relative_path@ == kk;
                            assert(only_right@[q] == before[q]);
                        }
                        if kk == k {
                            assert(only_right@[before.len() as int].relative_path@ == k);
                        }
                    }
                    assert forall|a: int, b: int| 0 <= a < b < only_right@.len() implies only_right@[a].relative_path@ != only_right@[b].relative_path@ by {
                        if b == before.len() {
                            assert(lists_path(before, before[a].relative_path@));
                        }
                    }
                }
            } else {
                proof {
                    assert(lm.contains_key(k));
                }
            }
        }
        j = j + 1;
    }
    proof {
        lemma_last_keys_all(right@);
    }
    only_right
}

/// Compares the files of the left tree with those of the right tree.
pub fn analyze_sync(left_root: String, right_root: String, left: Vec<FileStamp>, right: Vec<FileStamp>) -> (r: SyncReport)
    ensures
        r.left_root == left_root,
        r.right_root == right_root,
        is_sync_report(r, stamp_map(left@), stamp_map(right@)),
{
    let ghost lm = stamp_map(left@);
    let ghost rm = stamp_map(right@);
    proof {
        lemma_stamp_map(left@);
        lemma_stamp_map(right@);
    }
    let mut only_left: Vec<DiffEntry> = Vec::new();
    let mut different: Vec<DiffEntry> = Vec::new();
    let mut same_count: usize = 0;
    let ghost mut same_seq: Seq<Seq<char>> = Seq::empty();
    let mut i: usize = 0;
    while i < left.len()
        invariant
            i <= left.len(),
            lm == stamp_map(left@),
            rm == stamp_map(right@),
            forall|k: Seq<char>| lm.contains_key(k) <==> exists|t: int| 0 <= t < left@.len() && left@[t].relative_path@ == k,
            forall|t: int| 0 <= t < left@.len() && is_last_record(left@, t) ==> lm[left@[t].relative_path@] == (left@[t].size, left@[t].modified),
            forall|k: Seq<char>| rm.contains_key(k) <==> exists|t: int| 0 <= t < right@.len() && right@[t].relative_path@ == k,
            forall|t: int| 0 <= t < right@.len() && is_last_record(right@, t) ==> rm[right@[t].relative_path@] == (right@[t].size, right@[t].modified),
            distinct_paths(only_left@),
            distinct_paths(different@),
            forall|k: Seq<char>| lists_path(only_left@, k) <==> (last_keys_before(left@, i as int).contains(k) && !rm.contains_key(k)),
            forall|k: Seq<char>| lists_path(different@, k) <==> (last_keys_before(left@, i as int).contains(k) && rm.contains_key(k) && lm[k] != rm[k]),
            forall|q: int| 0 <= q < only_left@.len() ==> {
                let e = #[trigger] only_left@[q];
                &&& e.left_size == Some(lm[e.relative_path@].0)
                &&& e.left_modified == Some(lm[e.relative_path@].1)
                &&& e.right_size is None
                &&& e.right_modified is None
            },
            forall|q: int| 0 <= q < different@.len() ==> {
                let e = #[trigger] different@[q];
                &&& e.left_size == Some(lm[e.relative_path@].0)
                &&& e.left_modified == Some(lm[e.relative_path@].1)
                &&& e.right_size == Some(rm[e.relative_path@].0)
                &&& e.right_modified == Some(rm[e.relative_path@].1)
            },
            same_seq.no_duplicates(),
            same_seq.len() == same_count,
            same_count <= i,
            forall|k: Seq<char>| same_seq.contains(k) <==> (last_keys_before(left@, i as int).contains(k) && rm.contains_key(k) && lm[k] == rm[k]),
        decreases left.len() - i,
    {
        let e = &left[i];
        let me = last_record(&left, &e.relative_path);
        let ghost k = e.relative_path@;
        proof {
            assert(last_keys_before(left@, i + 1) =~= if is_last_record(left@, i as int) {
                last_keys_before(left@, i as int).insert(k)
            } else {
                last_keys_before(left@, i as int)
            });
        }
        if me == Some(i) {
            proof {
                assert(!last_keys_before(left@, i as int).contains(k)) by {
                    if last_keys_before(left@, i as int).contains(k) {
                        let t = choose|t: int| 0 <= t < i && left@[t].relative_path@ == k && is_last_record(left@, t);
                        assert(left@[i as int].relative_path@ == left@[t].relative_path@);
                    }
                }
                assert(lm[k] == (e.size, e.modified));
            }
            match last_record(&right, &e.relative_path) {
                None => {
                    let d = DiffEntry {
                        relative_path: copy_stamp_path(&e.relative_path),
                        left_size: Some(e.size),
                        right_size: None,
                        left_modified: Some(e.modified),
                        right_modified: None,
                    };
                    proof {
                        assert(!rm.contains_key(k));
                    }
                    let ghost before = only_left@;
                    only_left.push(d);
                    proof {
                        assert forall|kk: Seq<char>| lists_path(only_left@, kk) <==> (last_keys_before(left@, i + 1).contains(kk) && !rm.contains_key(kk)) by {
                            if lists_path(only_left@, kk) && kk != k {
                                let q = choose|q: int| 0 <= q < only_left@.len() && only_left@[q].relative_path@ == kk;
                                assert(before[q] == only_left@[q]);
                            }
                            if lists_path(before, kk) {
                                let q = choose|q: int| 0 <= q < before.len() && before[q].relative_path@ == kk;
                                assert(only_left@[q] == before[q]);
                            }
                            if kk == k {
                                assert(only_left@[before.len() as int].relative_path@ == k);
                            }
                        }
                        assert forall|a: int, b: int| 0 <= a < b < only_left@.len() implies only_left@[a].relative_path@ != only_left@[b].relative_path@ by {
                            if b == before.len() {
                                assert(lists_path(before, before[a].relative_path@));
                            }
                        }
                    }
                },
                Some(j) => {
                    let rj = &right[j];
                    proof {
                        assert(rm.contains_key(k));
                        assert(rm[k] == (rj.size, rj.modified));
                    }
                    if rj.size == e.size && rj.modified == e.modified {
                        proof {
                            assert(!same_seq.contains(k));
                            let old_same = same_seq;
                            same_seq = same_seq.push(k);
                            assert forall|kk: Seq<char>| same_seq.contains(kk) <==> (last_keys_before(left@, i + 1).contains(kk) && rm.contains_key(kk) && lm[kk] == rm[kk]) by {
                                if same_seq.contains(kk) && kk != k {
                                    let q = choose|q: int| 0 <= q < same_seq.len() && same_seq[q] == kk;
                                    assert(old_same[q] == kk);
                                }
                                if old_same.contains(kk) {
                                    let q = choose|q: int| 0 <= q < old_same.len() && old_same[q] == kk;
                                    assert(same_seq[q] == kk);
                                }
                                if kk == k {
                                    assert(same_seq[same_seq.len() - 1] == k);
                                }
                            }
                            assert forall|a: int, b: int| 0 <= a < b < same_seq.len() implies same_seq[a] != same_seq[b] by {
                                if b == same_seq.len() - 1 {
                                    assert(old_same[a] == same_seq[a]);
                                    assert(old_same.contains(same_seq[a]));
                                } else {
                                    assert(old_same[a] == same_seq[a]);
                                    assert(old_same[b] == same_seq[b]);
                                }
                            }
                        }
                        same_count = same_count + 1;
                    } else {
                        let d = DiffEntry {
                            relative_path: copy_stamp_path(&e.relative_path),
                            left_size: Some(e.size),
                            right_size: Some(rj.size),
                            left_modified: Some(e.modified),
                            right_modified: Some(rj.modified),
                        };
                        let ghost before = different@;
                        different.push(d);
                        proof {
                            assert forall|kk: Seq<char>| lists_path(different@, kk) <==> (last_keys_before(left@, i + 1).contains(kk) && rm.contains_key(kk) && lm[kk] != rm[kk]) by {
                                if lists_path(different@, kk) && kk != k {
                                    let q = choose|q: int| 0 <= q < different@.len() && different@[q].relative_path@ == kk;
                                    assert(before[q] == different@[q]);
                                }
                                if lists_path(before, kk) {
                                    let q = choose|q: int| 0 <= q < before.len() && before[q].relative_path@ == kk;
                                    assert(different@[q] == before[q]);
                                }
                                if kk == k {
                                    assert(different@[before.len() as int].relative_path@ == k);
                                }
                            }
                            assert forall|a: int, b: int| 0 <= a < b < different@.len() implies different@[a].relative_path@ != different@[b].relative_path@ by {
                                if b == before.len() {
                                    assert(lists_path(before, before[a].relative_path@));
                                }
                            }
                        }
                    }
                },
            }
        }
        i = i + 1;
    }
    let only_right = only_right_of(&left, &right);
    proof {
        lemma_last_keys_all(left@);
        lemma_last_keys_all(right@);
        assert(same_seq.to_set() =~= same_paths(lm, rm));
        same_seq.unique_seq_to_set();
    }
    let ghost ol = only_left@;
    let ghost or_ = only_right@;
    let ghost df = different@;
    let sorted_left = sort_by_path(only_left);
    let sorted_right = sort_by_path(only_right);
    let sorted_diff = sort_by_path(different);
    proof {
        let p1 = choose|perm: Seq<usize>| is_permutation(perm, ol.len()) && sorted_left@ == perm.map_values(|p: usize| ol[p as int]);
        lemma_sorted_keeps(ol, sorted_left@, p1);
        let p2 = choose|perm: Seq<usize>| is_permutation(perm, or_.len()) && sorted_right@ == perm.map_values(|p: usize| or_[p as int]);
        lemma_sorted_keeps(or_, sorted_right@, p2);
        let p3 = choose|perm: Seq<usize>| is_permutation(perm, df.len()) && sorted_diff@ == perm.map_values(|p: usize| df[p as int]);
        lemma_sorted_keeps(df, sorted_diff@, p3);
        assert forall|q: int| 0 <= q < sorted_left@.len() implies {
            let e = #[trigger] sorted_left@[q];
            &&& e.left_size == Some(lm[e.relative_path@].0)
            &&& e.left_modified == Some(lm[e.relative_path@].1)
            &&& e.right_size is None
            &&& e.right_modified is None
        } by {
            assert(sorted_left@[q] == ol[p1[q] as int]);
        }
        assert forall|q: int| 0 <= q < sorted_right@.len() implies {
            let e = #[trigger] sorted_right@[q];
            &&& e.right_size == Some(rm[e.relative_path@].0)
            &&& e.right_modified == Some(rm[e.relative_path@].1)
            &&& e.left_size is None
            &&& e.left_modified is None
        } by {
            assert(sorted_right@[q] == or_[p2[q] as int]);
        }
        assert forall|q: int| 0 <= q < sorted_diff@.len() implies {
            let e = #[trigger] sorted_diff@[q];
            &&& e.left_size == Some(lm[e.relative_path@].0)
            &&& e.left_modified == Some(lm[e.relative_path@].1)
            &&& e.right_size == Some(rm[e.relative_path@].0)
            &&& e.right_modified == Some(rm[e.relative_path@].1)
        } by {
            assert(sorted_diff@[q] == df[p3[q] as int]);
        }
    }
    SyncReport {
        left_root,
        right_root,
        only_left: sorted_left,
        only_right: sorted_right,
        different: sorted_diff,
        same_count,
    }
}

/// Which sizes a line of the sync report shows.
#[derive(Clone, Copy, PartialEq, Eq, Structural)]
pub enum DiffSide {
    Left,
    Right,
    Both,
}

/// One line of the sync report for `e`.
pub open spec fn diff_line(e: DiffEntry, side: DiffSide) -> Seq<char> {
    match side {
        DiffSide::Left => "  "@ + e.relative_path@ + " ("@ + opt_size_text(e.left_size) + ")\n"@,
        DiffSide::Right => "  "@ + e.relative_path@ + " ("@ + opt_size_text(e.right_size) + ")\n"@,
        DiffSide::Both => "  "@ + e.relative_path@ + " (왼쪽: "@ + opt_size_text(e.left_size) + ", 오른쪽: "@
            + opt_size_text(e.right_size) + ")\n"@,
    }
}

/// The lines for the first 20 entries, and a count of the rest.
pub open spec fn diff_lines(d: Seq<DiffEntry>, side: DiffSide) -> Seq<char> {
    concat_all(d.take(if d.len() < 20 { d.len() as int } else { 20 }).map_values(|e: DiffEntry| diff_line(e, side)))
        + if d.len() > 20 { "  ... 외 "@ + count_text((d.len() - 20) as nat) + " 개\n"@ } else { Seq::empty() }
}

/// A titled section: nothing for no entries, else the title with the count, the lines,
/// and a blank line after it when `blank`.
pub open spec fn section_text(title: Seq<char>, d: Seq<DiffEntry>, side: DiffSide, blank: bool) -> Seq<char> {
    if d.len() == 0 {
        Seq::empty()
    } else {
        title + count_text(d.len()) + " 개)\n"@ + diff_lines(d, side) + if blank { "\n"@ } else { Seq::empty() }
    }
}

/// The text of a sync report.
pub open spec fn sync_report_text(r: SyncReport) -> Seq<char> {
    "폴더 동기화 분석\n\n왼쪽: "@ + r.left_root@ + "\n오른쪽: "@ + r.right_root@ + "\n\n"@
        + "일치하는 파일: "@ + count_text(r.same_count as nat) + " 개\n\n"@
        + section_text("■ 왼쪽에만 있는 파일 ("@, r.only_left@, DiffSide::Left, true)
        + section_text("■ 오른쪽에만 있는 파일 ("@, r.only_right@, DiffSide::Right, true)
        + section_text("■ 양쪽에 있지만 다른 파일 ("@, r.different@, DiffSide::Both, false)
}

fn push_section(out: &mut String, title: &str, d: &Vec<DiffEntry>, side: DiffSide, blank: bool)
    ensures
        final(out)@ == old(out)@ + section_text(title@, d@, side, blank),
{
    if d.len() == 0 {
        assert(old(out)@ + Seq::<char>::empty() =~= old(out)@);
        return;
    }
    proof {
        reveal_strlit(" 개)\n");
        reveal_strlit("\n");
    }
    push_str(out, title);
    push_count(out, d.len());
    push_str(out, " 개)\n");
    push_diff_lines(out, d, side);
    if blank {
        push_str(out, "\n");
    }
    proof {
        assert(out@ =~= old(out)@ + section_text(title@, d@, side, blank));
    }
}

fn push_diff_lines(out: &mut String, d: &Vec<DiffEntry>, side: DiffSide)
    ensures
        final(out)@ == old(out)@ + diff_lines(d@, side),
{
    proof {
        reveal_strlit("  ");
        reveal_strlit(" (");
        reveal_strlit(")\n");
        reveal_strlit(" (왼쪽: ");
        reveal_strlit(", 오른쪽: ");
        reveal_strlit("  ... 외 ");
        reveal_strlit(" 개\n");
    }
    let n = if d.len() < 20 { d.len() } else { 20 };
    let ghost lines = d@.take(n as int).map_values(|e: DiffEntry| diff_line(e, side));
    let mut i: usize = 0;
    proof {
        assert(lines.take(0) =~= Seq::<Seq<char>>::empty());
    }
    while i < n
        invariant
            n <= d.len(),
            i <= n,
            lines == d@.take(n as int).map_values(|e: DiffEntry| diff_line(e, side)),
            out@ == old(out)@ + concat_all(lines.take(i as int)),
        decreases n - i,
    {
        let e = &d[i];
        let ghost before = out@;
        push_str(out, "  ");
        push_str(out, e.relative_path.as_str());
        match side {
            DiffSide::Left => {
                push_str(out, " (");
                push_opt_size(out, e.left_size);
            },
            DiffSide::Right => {
                push_str(out, " (");
                push_opt_size(out, e.right_size);
            },
            DiffSide::Both => {
                push_str(out, " (왼쪽: ");
                push_opt_size(out, e.left_size);
                push_str(out, ", 오른쪽: ");
                push_opt_size(out, e.right_size);
            },
        }
        push_str(out, ")\n");
        proof {
            assert(out@ =~= before + diff_line(*e, side));
            assert(lines[i as int] == diff_line(*e, side));
            assert(lines.take(i + 1) =~= lines.take(i as int).push(lines[i as int]));
            lemma_concat_push(lines.take(i as int), lines[i as int]);
        }
        i = i + 1;
    }
    proof {
        assert(lines.take(n as int) =~= lines);
    }
    if d.len() > 20 {
        push_str(out, "  ... 외 ");
        push_count(out, d.len() - 20);
        push_str(out, " 개\n");
    }
    proof {
        assert(out@ =~= old(out)@ + diff_lines(d@, side));
    }
}

/// The text of a sync report: counts, then up to 20 entries of each kind.
pub fn format_report(report: &SyncReport) -> (s: String)
    ensures
        s@ == sync_report_text(*report),
{
    let mut s = String::new();
    push_str(&mut s, "폴더 동기화 분석\n\n왼쪽: ");
    push_str(&mut s, report.left_root.as_str());
    push_str(&mut s, "\n오른쪽: ");
    push_str(&mut s, report.right_root.as_str());
    push_str(&mut s, "\n\n");
    push_str(&mut s, "일치하는 파일: ");
    push_count(&mut s, report.same_count);
    push_str(&mut s, " 개\n\n");
    push_section(&mut s, "■ 왼쪽에만 있는 파일 (", &report.only_left, DiffSide::Left, true);
    push_section(&mut s, "■ 오른쪽에만 있는 파일 (", &report.only_right, DiffSide::Right, true);
    push_section(&mut s, "■ 양쪽에 있지만 다른 파일 (", &report.different, DiffSide::Both, false);
    proof {
        assert(s@ =~= sync_report_text(*report));
    }
    s
}

} // verus!
