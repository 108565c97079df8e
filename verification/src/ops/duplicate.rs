//! Finding files with the same contents: candidates share a size, duplicates share a
//! SHA-256 digest.

use vstd::prelude::*;
use sha2::Digest;
use crate::path::PathKey;
use crate::order::{is_stable_order, stable_order, key_index, lemma_key_index_none, lemma_key_index_at};

verus! {

/// The SHA-256 digest of some bytes.
pub uninterp spec fn sha256_of(data: Seq<u8>) -> Seq<u8>;

/// `sha2::Sha256::digest`: the 32-byte SHA-256 digest of `data`.
#[verifier::external_body]
fn sha256_digest(data: &[u8]) -> (d: Vec<u8>)
    ensures
        d@ == sha256_of(data@),
        d@.len() == 32,
{
    sha2::Sha256::digest(data).to_vec()
}

/// The digest by which a file's contents are compared.
pub fn compute_file_hash(content: &[u8]) -> (d: Vec<u8>)
    ensures
        d@ == sha256_of(content@),
{
    sha256_digest(content)
}

/// Some other file has the size of the file at index `i`.
pub open spec fn shares_size(files: Seq<(String, u64)>, i: int) -> bool {
    exists|j: int| 0 <= j < files.len() && j != i && files[j].1 == files[i].1
}

/// The files worth hashing: those whose size another file has, in the order given.
pub open spec fn candidates_of(files: Seq<(String, u64)>) -> Seq<String>
    decreases files.len(),
{
    candidates_upto(files, files.len() as int)
}

pub open spec fn candidates_upto(files: Seq<(String, u64)>, n: int) -> Seq<String>
    decreases n,
{
    if n <= 0 {
        Seq::empty()
    } else {
        let rest = candidates_upto(files, n - 1);
        if shares_size(files, n - 1) {
            rest.push(files[n - 1].0)
        } else {
            rest
        }
    }
}

fn shares_size_exec(files: &Vec<(String, u64)>, i: usize) -> (r: bool)
    requires
        i < files.len(),
    ensures
        r == shares_size(files@, i as int),
{
    let mut j: usize = 0;
    while j < files.len()
        invariant
            i < files.len(),
            j <= files.len(),
            forall|k: int| 0 <= k < j && k != i ==> files@[k].1 != files@[i as int].1,
        decreases files.len() - j,
    {
        if j != i && files[j].1 == files[i].1 {
            return true;
        }
        j = j + 1;
    }
    false
}

/// The paths of the files (path and size, as a walk found them) whose size some other
/// file shares; only these can have a duplicate.
pub fn duplicate_candidates(files: &Vec<(String, u64)>) -> (c: Vec<String>)
    ensures
        c@ == candidates_of(files@),
{
    let mut c: Vec<String> = Vec::new();
    let mut i: usize = 0;
    while i < files.len()
        invariant
            i <= files.len(),
            c@ == candidates_upto(files@, i as int),
        decreases files.len() - i,
    {
        if shares_size_exec(files, i) {
            c.push(files[i].0.clone());
        }
        i = i + 1;
    }
    c
}

/// The candidates whose contents could be read, with their digests, in the order given.
pub open spec fn known(hashed: Seq<(String, Option<Vec<u8>>)>) -> Seq<(String, Seq<u8>)>
    decreases hashed.len(),
{
    if hashed.len() == 0 {
        Seq::empty()
    } else {
        let rest = known(hashed.drop_last());
        match hashed.last().1 {
            Some(d) => rest.push((hashed.last().0, d@)),
            None => rest,
        }
    }
}

/// The items grouped by digest: groups in the order their digest first appears, each
/// group's paths in the order given.
pub open spec fn digest_groups(s: Seq<(String, Seq<u8>)>) -> Seq<(Seq<u8>, Seq<String>)>
    decreases s.len(),
{
    if s.len() == 0 {
        Seq::empty()
    } else {
        let g = digest_groups(s.drop_last());
        let (p, d) = s.last();
        match key_index(g, d) {
            Some(k) => g.update(k, (d, g[k].1.push(p))),
            None => g.push((d, seq![p])),
        }
    }
}

/// The paths of each group of at least two files.
pub open spec fn dup_groups(s: Seq<(String, Seq<u8>)>) -> Seq<Seq<String>> {
    digest_groups(s).filter(|g: (Seq<u8>, Seq<String>)| g.1.len() >= 2).map_values(|g: (Seq<u8>, Seq<String>)| g.1)
}

/// The path keys of some items.
pub open spec fn path_keys(s: Seq<(String, Seq<u8>)>) -> Seq<PathKey> {
    s.map_values(|x: (String, Seq<u8>)| PathKey { path: x.0 })
}

pub open spec fn groups_view(r: Seq<Vec<String>>) -> Seq<Seq<String>> {
    r.map_values(|g: Vec<String>| g@)
}

fn find_digest(ds: &Vec<Vec<u8>>, d: &Vec<u8>) -> (r: Option<usize>)
    ensures
        match r {
            Some(k) => k < ds@.len() && ds@[k as int]@ == d@ && forall|q: int| 0 <= q < k ==> (#[trigger] ds@[q])@ != d@,
            None => forall|q: int| 0 <= q < ds@.len() ==> (#[trigger] ds@[q])@ != d@,
        },
{
    let mut k: usize = 0;
    while k < ds.len()
        invariant
            k <= ds@.len(),
            forall|q: int| 0 <= q < k ==> (#[trigger] ds@[q])@ != d@,
        decreases ds@.len() - k,
    {
        if bytes_eq(&ds[k], d) {
            return Some(k);
        }
        k = k + 1;
    }
    None
}

fn copy_strings(v: &Vec<String>) -> (r: Vec<String>)
    ensures
        r@ == v@,
{
    let mut r: Vec<String> = Vec::new();
    let mut i: usize = 0;
    while i < v.len()
        invariant
            i <= v.len(),
            r@ == v@.take(i as int),
        decreases v.len() - i,
    {
        r.push(v[i].clone());
        i = i + 1;
        assert(r@ =~= v@.take(i as int));
    }
    assert(v@.take(v.len() as int) =~= v@);
    r
}

fn bytes_eq(a: &Vec<u8>, b: &Vec<u8>) -> (r: bool)
    ensures
        r == (a@ == b@),
{
    if a.len() != b.len() {
        return false;
    }
    let mut i: usize = 0;
    while i < a.len()
        invariant
            i <= a.len(),
            a.len() == b.len(),
            forall|j: int| 0 <= j < i ==> a@[j] == b@[j],
        decreases a.len() - i,
    {
        if a[i] != b[i] {
            return false;
        }
        i = i + 1;
    }
    assert(a@ =~= b@);
    true
}

fn copy_bytes(a: &Vec<u8>) -> (r: Vec<u8>)
    ensures
        r@ == a@,
{
    let mut r: Vec<u8> = Vec::new();
    let mut i: usize = 0;
    while i < a.len()
        invariant
            i <= a.len(),
            r@ == a@.take(i as int),
        decreases a.len() - i,
    {
        r.push(a[i]);
        i = i + 1;
        assert(r@ =~= a@.take(i as int));
    }
    assert(a@.take(a.len() as int) =~= a@);
    r
}

pub open spec fn items_view(items: Seq<(String, Vec<u8>)>) -> Seq<(String, Seq<u8>)> {
    items.map_values(|x: (String, Vec<u8>)| (x.0, x.1@))
}

pub open spec fn group_pairs(ds: Seq<Vec<u8>>, ms: Seq<Vec<String>>) -> Seq<(Seq<u8>, Seq<String>)> {
    Seq::new(ds.len(), |k: int| (ds[k]@, ms[k]@))
}

/// Groups items (path and digest) by digest, as `digest_groups` says.
fn group_by_digest(items: &Vec<(String, Vec<u8>)>) -> (r: (Vec<Vec<u8>>, Vec<Vec<String>>))
    ensures
        r.0@.len() == r.1@.len(),
        group_pairs(r.0@, r.1@) == digest_groups(items_view(items@)),
{
    let ghost s = items_view(items@);
    let mut digests: Vec<Vec<u8>> = Vec::new();
    let mut members: Vec<Vec<String>> = Vec::new();
    let mut i: usize = 0;
    while i < items.len()
        invariant
            i <= items.len(),
            s == items_view(items@),
            digests@.len() == members@.len(),
            digests@.len() == digest_groups(s.take(i as int)).len(),
            forall|k: int| 0 <= k < digests@.len() ==> (#[trigger] digests@[k])@ == digest_groups(s.take(i as int))[k].0
                && members@[k]@ == digest_groups(s.take(i as int))[k].1,
        decreases items.len() - i,
    {
        let ghost g = digest_groups(s.take(i as int));
        let ghost d = items@[i as int].1@;
        let ghost p = items@[i as int].0;
        proof {
            assert(s.take(i + 1).drop_last() =~= s.take(i as int));
            assert(s.take(i + 1).last() == (p, d));
        }
        let found = find_digest(&digests, &items[i].1);
        if let Some(k) = found {
            proof {
                assert forall|q: int| 0 <= q < k implies (#[trigger] g[q]).0 != d by {
                    assert(digests@[q]@ == g[q].0);
                }
                lemma_key_index_at(g, d, k as int);
            }
            let ghost before = members@;
            members[k].push(items[i].0.clone());
            proof {
                assert(digest_groups(s.take(i + 1)) == g.update(k as int, (d, g[k as int].1.push(p))));
                assert forall|q: int| 0 <= q < digests@.len() implies (#[trigger] digests@[q])@ == digest_groups(s.take(i + 1))[q].0
                    && members@[q]@ == digest_groups(s.take(i + 1))[q].1 by {
                    if q != k {
                        assert(members@[q] == before[q]);
                    }
                }
            }
        } else {
            proof {
                assert forall|q: int| 0 <= q < g.len() implies (#[trigger] g[q]).0 != d by {
                    assert(digests@[q]@ == g[q].0);
                }
                lemma_key_index_none(g, d);
                assert(digest_groups(s.take(i + 1)) == g.push((d, seq![p])));
            }
            let mut one: Vec<String> = Vec::new();
            one.push(items[i].0.clone());
            assert(one@ =~= seq![p]);
            digests.push(copy_bytes(&items[i].1));
            members.push(one);
        }
        i = i + 1;
    }
    assert(s.take(items.len() as int) =~= s);
    assert(digest_groups(s.take(items.len() as int)) == digest_groups(s));
    assert(group_pairs(digests@, members@) =~= digest_groups(s));
    (digests, members)
}

/// The groups of files with the same contents. Takes each candidate's path with its digest
/// (`None` when its contents could not be read; such a file is left out). The files are
/// ordered by path first, so each group lists its paths in path order and the groups come
/// in the order of their first paths; only groups of two or more are kept.
pub fn find_duplicates(hashed: Vec<(String, Option<Vec<u8>>)>) -> (r: Vec<Vec<String>>)
    ensures
        exists|perm: Seq<usize>|
            #[trigger] is_stable_order(path_keys(known(hashed@)), perm, false)
                && groups_view(r@) == dup_groups(perm.map_values(|q: usize| known(hashed@)[q as int])),
{
    let mut items: Vec<(String, Vec<u8>)> = Vec::new();
    let mut keys: Vec<PathKey> = Vec::new();
    let mut i: usize = 0;
    while i < hashed.len()
        invariant
            i <= hashed.len(),
            items_view(items@) == known(hashed@.take(i as int)),
            keys@ == path_keys(known(hashed@.take(i as int))),
        decreases hashed.len() - i,
    {
        proof {
            assert(hashed@.take(i + 1).drop_last() =~= hashed@.take(i as int));
        }
        let ghost before = items@;
        let ghost kbefore = keys@;
        match &hashed[i].1 {
            Some(d) => {
                items.push((hashed[i].0.clone(), copy_bytes(d)));
                keys.push(PathKey { path: hashed[i].0.clone() });
                proof {
                    assert(items_view(items@) =~= before.map_values(
                        |x: (String, Vec<u8>)| (x.0, x.1@),
                    ).push((hashed@[i as int].0, d@)));
                    assert(keys@ =~= path_keys(known(hashed@.take(i + 1))));
                }
            },
            None => {},
        }
        i = i + 1;
    }
    assert(hashed@.take(hashed.len() as int) =~= hashed@);
    let ghost kn = known(hashed@);
    let perm = stable_order(&keys, false);
    let mut sorted: Vec<(String, Vec<u8>)> = Vec::new();
    let mut j: usize = 0;
    while j < perm.len()
        invariant
            kn == known(hashed@),
            items_view(items@) == kn,
            is_stable_order(path_keys(kn), perm@, false),
            j <= perm.len(),
            items_view(sorted@) == perm@.take(j as int).map_values(|q: usize| kn[q as int]),
        decreases perm.len() - j,
    {
        let q = perm[j];
        proof {
            assert(perm@[j as int] < kn.len());
            assert(items_view(items@)[q as int] == kn[q as int]);
        }
        let ghost before = sorted@;
        sorted.push((items[q].0.clone(), copy_bytes(&items[q].1)));
        proof {
            assert(perm@.take(j + 1) =~= perm@.take(j as int).push(q));
            assert(items_view(sorted@) =~= before.map_values(
                |x: (String, Vec<u8>)| (x.0, x.1@),
            ).push(kn[q as int]));
        }
        j = j + 1;
    }
    assert(perm@.take(perm.len() as int) =~= perm@);
    let ghost ss = perm@.map_values(|q: usize| kn[q as int]);
    assert(items_view(sorted@) == ss);
    let (digests, members) = group_by_digest(&sorted);
    let ghost g = digest_groups(ss);
    assert forall|q: int| 0 <= q < g.len() implies (#[trigger] digests@[q])@ == g[q].0 && members@[q]@ == g[q].1 by {
        assert(group_pairs(digests@, members@)[q] == g[q]);
    }
    let ghost keep = |x: (Seq<u8>, Seq<String>)| x.1.len() >= 2;
    let mut r: Vec<Vec<String>> = Vec::new();
    let mut k: usize = 0;
    while k < members.len()
        invariant
            g == digest_groups(ss),
            keep == (|x: (Seq<u8>, Seq<String>)| x.1.len() >= 2),
            members@.len() == g.len(),
            digests@.len() == g.len(),
            forall|q: int| 0 <= q < g.len() ==> (#[trigger] digests@[q])@ == g[q].0 && members@[q]@ == g[q].1,
            k <= members@.len(),
            groups_view(r@) == g.take(k as int).filter(keep).map_values(|x: (Seq<u8>, Seq<String>)| x.1),
        decreases members@.len() - k,
    {
        proof {
            assert(g.take(k + 1) =~= g.take(k as int).push(g[k as int]));
            g.take(k as int).lemma_filter_push(g[k as int], keep);
        }
        let ghost before = r@;
        let big = members[k].len() >= 2;
        assert(digests@[k as int]@ == g[k as int].0);
        assert(big == keep(g[k as int]));
        if big {
            let c = copy_strings(&members[k]);
            assert(digests@[k as int]@ == g[k as int].0);
            assert(c@ == g[k as int].1);
            r.push(c);
            proof {
                assert(r@ == before.push(c));
                assert(groups_view(r@) =~= groups_view(before).push(g[k as int].1));
            }
        }
        proof {
            assert(g.take(k + 1).filter(keep).map_values(|x: (Seq<u8>, Seq<String>)| x.1) =~=
                if keep(g[k as int]) {
                    g.take(k as int).filter(keep).map_values(|x: (Seq<u8>, Seq<String>)| x.1).push(g[k as int].1)
                } else {
                    g.take(k as int).filter(keep).map_values(|x: (Seq<u8>, Seq<String>)| x.1)
                });
        }
        k = k + 1;
    }
    proof {
        assert(g.take(members@.len() as int) =~= g);
        assert(items_view(sorted@) =~= ss);
        assert(is_stable_order(path_keys(known(hashed@)), perm@, false));
    }
    r
}

} // verus!
