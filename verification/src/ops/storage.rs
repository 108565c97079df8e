//! Where the space under a directory goes: its largest subdirectories and files.

use vstd::prelude::*;
use crate::text::push_str;
use crate::report::{concat_all, lemma_concat_push, count_text, push_count};
use crate::fs::size_text;
use crate::path::{file_name, file_name_of};
use crate::order::{is_stable_order, stable_order};
use crate::ops::classify::sat_total;

verus! {

/// A subdirectory of the root and the total size of the files beneath it.
#[derive(Clone, Debug)]
pub struct DirSizeEntry {
    pub path: String,
    pub size: u64,
}

/// A file and its size.
#[derive(Clone, Debug)]
pub struct FileEntry {
    pub path: String,
    pub size: u64,
}

pub struct StorageReport {
    pub root: String,
    pub total_size: u64,
    pub total_files: usize,
    pub total_dirs: usize,
    pub top_dirs: Vec<DirSizeEntry>,
    pub large_files: Vec<FileEntry>,
}

/// The plain sum of some sizes.
pub open spec fn size_sum(s: Seq<u64>) -> nat
    decreases s.len(),
{
    if s.len() == 0 {
        0
    } else {
        size_sum(s.drop_last()) + s.last() as nat
    }
}

/// A sum of sizes, capped at `u64::MAX`.
pub open spec fn capped_sum(s: Seq<u64>) -> nat {
    if size_sum(s) > u64::MAX {
        u64::MAX as nat
    } else {
        size_sum(s)
    }
}

/// The smaller of a limit and a length.
pub open spec fn at_most(limit: nat, n: nat) -> nat {
    if limit < n {
        limit
    } else {
        n
    }
}

/// The sizes of some sized items, in order.
pub open spec fn sizes_of(items: Seq<(String, u64)>) -> Seq<u64> {
    items.map_values(|f: (String, u64)| f.1)
}

/// `out` holds the first `limit` of `items` after a stable sort by size, largest first:
/// among equal sizes the earlier item comes first.
pub open spec fn is_top_by_size(items: Seq<(String, u64)>, out: Seq<(String, u64)>, limit: nat) -> bool {
    exists|perm: Seq<usize>|
        #[trigger] is_stable_order(sizes_of(items), perm, true)
            && out.len() == at_most(limit, items.len())
            && forall|i: int| 0 <= i < out.len() ==> out[i] == items[perm[i] as int]
}

pub open spec fn dir_pairs(d: Seq<DirSizeEntry>) -> Seq<(String, u64)> {
    d.map_values(|e: DirSizeEntry| (e.path, e.size))
}

pub open spec fn file_pairs(d: Seq<FileEntry>) -> Seq<(String, u64)> {
    d.map_values(|e: FileEntry| (e.path, e.size))
}

/// Each subdirectory with the capped total of the sizes beneath it.
pub open spec fn dir_totals(subdirs: Seq<(String, Vec<u64>)>) -> Seq<(String, u64)> {
    subdirs.map_values(|d: (String, Vec<u64>)| (d.0, capped_sum(d.1@) as u64))
}

fn capped_total(sizes: &Vec<u64>) -> (t: u64)
    ensures
        t == capped_sum(sizes@),
{
    let mut t: u64 = 0;
    let mut i: usize = 0;
    while i < sizes.len()
        invariant
            i <= sizes.len(),
            t == capped_sum(sizes@.take(i as int)),
        decreases sizes.len() - i,
    {
        proof {
            assert(sizes@.take(i + 1).drop_last() =~= sizes@.take(i as int));
        }
        t = if t > u64::MAX - sizes[i] { u64::MAX } else { t + sizes[i] };
        i = i + 1;
    }
    assert(sizes@.take(sizes.len() as int) =~= sizes@);
    t
}

/// The first `limit` items after a stable sort by size, largest first.
fn top_by_size(items: &Vec<(String, u64)>, limit: usize) -> (out: Vec<(String, u64)>)
    ensures
        is_top_by_size(items@, out@, limit as nat),
{
    let mut keys: Vec<u64> = Vec::new();
    let mut i: usize = 0;
    while i < items.len()
        invariant
            i <= items.len(),
            keys@ == sizes_of(items@.take(i as int)),
        decreases items.len() - i,
    {
        keys.push(items[i].1);
        i = i + 1;
        assert(keys@ =~= sizes_of(items@.take(i as int)));
    }
    assert(items@.take(items.len() as int) =~= items@);
    let perm = stable_order(&keys, true);
    let n = if limit < items.len() { limit } else { items.len() };
    let mut out: Vec<(String, u64)> = Vec::new();
    let mut j: usize = 0;
    while j < n
        invariant
            n <= items.len(),
            perm@.len() == items.len(),
            forall|q: int| 0 <= q < perm@.len() ==> (#[trigger] perm@[q]) < items.len(),
            j <= n,
            out@.len() == j,
            forall|q: int| 0 <= q < j ==> out@[q] == items@[perm@[q] as int],
        decreases n - j,
    {
        let p = perm[j];
        out.push((items[p].0.clone(), items[p].1));
        j = j + 1;
    }
    assert(is_stable_order(sizes_of(items@), perm@, true));
    out
}

/// What a walk of `root` found, summed up: the files (with their sizes) and the number of
/// directories below the root; for each immediate subdirectory, the sizes of all files
/// beneath it. Lists the 10 largest subdirectories and the 20 largest files, largest first,
/// ties in the order given.
pub fn analyze_storage(root: String, files: Vec<(String, u64)>, dir_count: usize, subdirs: Vec<(String, Vec<u64>)>) -> (r: StorageReport)
    ensures
        r.root == root,
        r.total_size == sat_total(files@),
        r.total_files == files@.len(),
        r.total_dirs == dir_count,
        is_top_by_size(dir_totals(subdirs@), dir_pairs(r.top_dirs@), 10),
        is_top_by_size(files@, file_pairs(r.large_files@), 20),
{
    let mut total: u64 = 0;
    let mut i: usize = 0;
    while i < files.len()
        invariant
            i <= files.len(),
            total == sat_total(files@.take(i as int)),
        decreases files.len() - i,
    {
        proof {
            assert(files@.take(i + 1).drop_last() =~= files@.take(i as int));
        }
        total = if total > u64::MAX - files[i].1 { u64::MAX } else { total + files[i].1 };
        i = i + 1;
    }
    assert(files@.take(files.len() as int) =~= files@);
    let mut dirs: Vec<(String, u64)> = Vec::new();
    let mut d: usize = 0;
    while d < subdirs.len()
        invariant
            d <= subdirs.len(),
            dirs@ == dir_totals(subdirs@.take(d as int)),
        decreases subdirs.len() - d,
    {
        let t = capped_total(&subdirs[d].1);
        dirs.push((subdirs[d].0.clone(), t));
        d = d + 1;
        assert(dirs@ =~= dir_totals(subdirs@.take(d as int)));
    }
    assert(subdirs@.take(subdirs.len() as int) =~= subdirs@);
    let top_d = top_by_size(&dirs, 10);
    let top_f = top_by_size(&files, 20);
    let mut top_dirs: Vec<DirSizeEntry> = Vec::new();
    let mut a: usize = 0;
    while a < top_d.len()
        invariant
            a <= top_d.len(),
            top_dirs@.len() == a,
            forall|k: int| 0 <= k < a ==> (#[trigger] top_dirs@[k]).path == top_d@[k].0 && top_dirs@[k].size == top_d@[k].1,
        decreases top_d.len() - a,
    {
        top_dirs.push(DirSizeEntry { path: top_d[a].0.clone(), size: top_d[a].1 });
        a = a + 1;
    }
    assert(dir_pairs(top_dirs@) =~= top_d@);
    let mut large: Vec<FileEntry> = Vec::new();
    let mut b: usize = 0;
    while b < top_f.len()
        invariant
            b <= top_f.len(),
            large@.len() == b,
            forall|k: int| 0 <= k < b ==> (#[trigger] large@[k]).path == top_f@[k].0 && large@[k].size == top_f@[k].1,
        decreases top_f.len() - b,
    {
        large.push(FileEntry { path: top_f[b].0.clone(), size: top_f[b].1 });
        b = b + 1;
    }
    assert(file_pairs(large@) =~= top_f@);
    StorageReport {
        root,
        total_size: total,
        total_files: files.len(),
        total_dirs: dir_count,
        top_dirs,
        large_files: large,
    }
}

/// One listed entry: the last component of its path and its size.
pub open spec fn entry_line(path: Seq<char>, size: u64) -> Seq<char> {
    "  "@ + (match file_name_of(path) { Some(n) => n, None => Seq::empty() }) + " ("@ + size_text(size as nat) + ")\n"@
}

pub open spec fn dirs_block(d: Seq<DirSizeEntry>) -> Seq<char> {
    if d.len() == 0 {
        Seq::empty()
    } else {
        "■ 큰 폴더 Top 10 (하위 포함)\n"@ + concat_all(d.map_values(|e: DirSizeEntry| entry_line(e.path@, e.size))) + "\n"@
    }
}

pub open spec fn files_block(f: Seq<FileEntry>) -> Seq<char> {
    if f.len() == 0 {
        Seq::empty()
    } else {
        "■ 가장 큰 파일 Top 20\n"@ + concat_all(f.map_values(|e: FileEntry| entry_line(e.path@, e.size)))
    }
}

/// The text of a storage report.
pub open spec fn storage_report_text(r: StorageReport) -> Seq<char> {
    "경로: "@ + r.root@ + "\n총 크기: "@ + size_text(r.total_size as nat) + "\n파일: "@ + count_text(r.total_files as nat)
        + "\n폴더: "@ + count_text(r.total_dirs as nat) + "\n\n"@ + dirs_block(r.top_dirs@) + files_block(r.large_files@)
}

fn push_entry_line(out: &mut String, path: &String, size: u64)
    ensures
        final(out)@ == old(out)@ + entry_line(path@, size),
{
    push_str(out, "  ");
    match file_name(path.as_str()) {
        Some(name) => push_str(out, name.as_str()),
        None => {},
    }
    push_str(out, " (");
    push_str(out, crate::fs::FileEntry::format_size(size).as_str());
    push_str(out, ")\n");
    assert(out@ =~= old(out)@ + entry_line(path@, size));
}

fn push_dirs(out: &mut String, d: &Vec<DirSizeEntry>)
    ensures
        final(out)@ == old(out)@ + dirs_block(d@),
{
    if d.len() == 0 {
        assert(old(out)@ + Seq::<char>::empty() =~= old(out)@);
        return;
    }
    push_str(out, "■ 큰 폴더 Top 10 (하위 포함)\n");
    let ghost head = out@;
    let ghost parts = d@.map_values(|e: DirSizeEntry| entry_line(e.path@, e.size));
    let mut i: usize = 0;
    assert(parts.take(0) =~= Seq::<Seq<char>>::empty());
    while i < d.len()
        invariant
            i <= d.len(),
            parts == d@.map_values(|e: DirSizeEntry| entry_line(e.path@, e.size)),
            out@ == head + concat_all(parts.take(i as int)),
        decreases d.len() - i,
    {
        push_entry_line(out, &d[i].path, d[i].size);
        proof {
            assert(parts.take(i + 1) =~= parts.take(i as int).push(parts[i as int]));
            lemma_concat_push(parts.take(i as int), parts[i as int]);
        }
        i = i + 1;
    }
    assert(parts.take(d.len() as int) =~= parts);
    push_str(out, "\n");
    assert(out@ =~= old(out)@ + dirs_block(d@));
}

fn push_files(out: &mut String, f: &Vec<FileEntry>)
    ensures
        final(out)@ == old(out)@ + files_block(f@),
{
    if f.len() == 0 {
        assert(old(out)@ + Seq::<char>::empty() =~= old(out)@);
        return;
    }
    push_str(out, "■ 가장 큰 파일 Top 20\n");
    let ghost head = out@;
    let ghost parts = f@.map_values(|e: FileEntry| entry_line(e.path@, e.size));
    let mut i: usize = 0;
    assert(parts.take(0) =~= Seq::<Seq<char>>::empty());
    while i < f.len()
        invariant
            i <= f.len(),
            parts == f@.map_values(|e: FileEntry| entry_line(e.path@, e.size)),
            out@ == head + concat_all(parts.take(i as int)),
        decreases f.len() - i,
    {
        push_entry_line(out, &f[i].path, f[i].size);
        proof {
            assert(parts.take(i + 1) =~= parts.take(i as int).push(parts[i as int]));
            lemma_concat_push(parts.take(i as int), parts[i as int]);
        }
        i = i + 1;
    }
    assert(parts.take(f.len() as int) =~= parts);
    assert(out@ =~= old(out)@ + files_block(f@));
}

/// The text of a storage report: totals, the largest subdirectories, the largest files.
pub fn format_report(report: &StorageReport) -> (s: String)
    ensures
        s@ == storage_report_text(*report),
{
    let mut s = String::new();
    push_str(&mut s, "경로: ");
    push_str(&mut s, report.root.as_str());
    push_str(&mut s, "\n총 크기: ");
    push_str(&mut s, crate::fs::FileEntry::format_size(report.total_size).as_str());
    push_str(&mut s, "\n파일: ");
    push_count(&mut s, report.total_files);
    push_str(&mut s, "\n폴더: ");
    push_count(&mut s, report.total_dirs);
    push_str(&mut s, "\n\n");
    push_dirs(&mut s, &report.top_dirs);
    push_files(&mut s, &report.large_files);
    assert(s@ =~= storage_report_text(*report));
    s
}

} // verus!
