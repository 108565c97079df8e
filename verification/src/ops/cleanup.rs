//! Files grouped by how long ago they were last changed.

use vstd::prelude::*;
use crate::text::push_str;
use crate::report::{concat_all, lemma_concat_push, count_text, push_count};
use crate::fs::{size_text, FileEntry};
use crate::ops::classify::sat_total;

verus! {

/// The age group of a file last changed `secs` seconds ago: 0 under 30 days,
/// 1 under 90 days, 2 under 365 days, 3 otherwise.
pub open spec fn age_band(secs: u64) -> int {
    let days = secs / 86400;
    if days < 30 {
        0
    } else if days < 90 {
        1
    } else if days < 365 {
        2
    } else {
        3
    }
}

pub open spec fn band_label_text(k: int) -> Seq<char> {
    if k == 0 {
        "30일 이내"@
    } else if k == 1 {
        "30~90일"@
    } else if k == 2 {
        "90~365일"@
    } else {
        "365일 이상 (정리 대상)"@
    }
}

fn band_label(k: usize) -> (s: &'static str)
    requires
        k < 4,
    ensures
        s@ == band_label_text(k as int),
{
    if k == 0 {
        "30일 이내"
    } else if k == 1 {
        "30~90일"
    } else if k == 2 {
        "90~365일"
    } else {
        "365일 이상 (정리 대상)"
    }
}

fn band_of(secs: u64) -> (k: usize)
    ensures
        k == age_band(secs),
{
    let days = secs / 86400;
    if days < 30 {
        0
    } else if days < 90 {
        1
    } else if days < 365 {
        2
    } else {
        3
    }
}

/// Files of one age group.
pub struct AgeGroup {
    pub label: &'static str,
    pub files: Vec<(String, u64)>,
    pub total_size: u64,
    pub file_count: usize,
}

pub struct CleanupReport {
    pub root: String,
    pub groups: Vec<AgeGroup>,
    pub total_files: usize,
    pub total_size: u64,
}

/// `f` (path, size, seconds since its last change when known) falls in group `k`.
pub open spec fn in_band(f: (String, u64, Option<u64>), k: int) -> bool {
    f.2 is Some && age_band(f.2->0) == k
}

/// The files of group `k` with their sizes, in the order found.
pub open spec fn band_files(files: Seq<(String, u64, Option<u64>)>, k: int) -> Seq<(String, u64)>
    decreases files.len(),
{
    if files.len() == 0 {
        Seq::empty()
    } else {
        let rest = band_files(files.drop_last(), k);
        let f = files.last();
        if in_band(f, k) {
            rest.push((f.0, f.1))
        } else {
            rest
        }
    }
}

/// Sum of all sizes, saturating at `u64::MAX` at each step.
pub open spec fn sat_total_all(files: Seq<(String, u64, Option<u64>)>) -> nat
    decreases files.len(),
{
    if files.len() == 0 {
        0
    } else {
        let t = sat_total_all(files.drop_last()) + files.last().1;
        if t > u64::MAX {
            u64::MAX as nat
        } else {
            t as nat
        }
    }
}

/// `g` is age group `k` over `files`.
pub open spec fn is_age_group(g: AgeGroup, k: int, files: Seq<(String, u64, Option<u64>)>) -> bool {
    &&& g.label@ == band_label_text(k)
    &&& g.files@ == band_files(files, k)
    &&& g.total_size == sat_total(band_files(files, k))
    &&& g.file_count == band_files(files, k).len()
}

fn collect_band(files: &Vec<(String, u64, Option<u64>)>, k: usize) -> (g: AgeGroup)
    requires
        k < 4,
    ensures
        is_age_group(g, k as int, files@),
{
    let mut picked: Vec<(String, u64)> = Vec::new();
    let mut sum: u64 = 0;
    let mut j: usize = 0;
    while j < files.len()
        invariant
            k < 4,
            j <= files.len(),
            picked@ == band_files(files@.take(j as int), k as int),
            sum == sat_total(band_files(files@.take(j as int), k as int)),
        decreases files.len() - j,
    {
        proof {
            assert(files@.take(j + 1).drop_last() =~= files@.take(j as int));
        }
        let f = &files[j];
        let hit = match f.2 {
            Some(secs) => band_of(secs) == k,
            None => false,
        };
        if hit {
            let ghost before = picked@;
            picked.push((f.0.clone(), f.1));
            sum = if sum > u64::MAX - f.1 { u64::MAX } else { sum + f.1 };
            proof {
                assert(picked@.drop_last() =~= before);
            }
        }
        j = j + 1;
    }
    assert(files@.take(files.len() as int) =~= files@);
    let n = picked.len();
    AgeGroup { label: band_label(k), files: picked, total_size: sum, file_count: n }
}

/// Sorts the files found under `root` (path, size, and the seconds since the file was last
/// changed when that is known) into four age groups: under 30 days, under 90, under 365,
/// and older. A file whose age is unknown counts in the totals only.
pub fn analyze_old_files(root: String, files: Vec<(String, u64, Option<u64>)>) -> (r: CleanupReport)
    ensures
        r.root == root,
        r.total_files == files@.len(),
        r.total_size == sat_total_all(files@),
        r.groups@.len() == 4,
        forall|k: int| 0 <= k < 4 ==> is_age_group(#[trigger] r.groups@[k], k, files@),
{
    let mut total: u64 = 0;
    let mut i: usize = 0;
    while i < files.len()
        invariant
            i <= files.len(),
            total == sat_total_all(files@.take(i as int)),
        decreases files.len() - i,
    {
        proof {
            assert(files@.take(i + 1).drop_last() =~= files@.take(i as int));
        }
        total = if total > u64::MAX - files[i].1 { u64::MAX } else { total + files[i].1 };
        i = i + 1;
    }
    assert(files@.take(files.len() as int) =~= files@);
    let mut groups: Vec<AgeGroup> = Vec::new();
    let mut k: usize = 0;
    while k < 4
        invariant
            k <= 4,
            groups@.len() == k,
            forall|q: int| 0 <= q < k ==> is_age_group(#[trigger] groups@[q], q, files@),
        decreases 4 - k,
    {
        let g = collect_band(&files, k);
        groups.push(g);
        k = k + 1;
    }
    CleanupReport { root, groups, total_files: files.len(), total_size: total }
}

/// One listed file: its full path and size.
pub open spec fn aged_line(f: (String, u64)) -> Seq<char> {
    "  - "@ + f.0@ + " ("@ + size_text(f.1 as nat) + ")\n"@
}

pub open spec fn age_group_head(g: AgeGroup) -> Seq<char> {
    "■ "@ + g.label@ + " ("@ + count_text(g.file_count as nat) + " 파일, "@ + size_text(g.total_size as nat) + ")\n"@
}

/// The lines for the first ten files of a group.
pub open spec fn age_group_files(g: AgeGroup) -> Seq<char> {
    concat_all(g.files@.take(if g.files@.len() < 10 { g.files@.len() as int } else { 10 }).map_values(|f: (String, u64)| aged_line(f)))
}

pub open spec fn age_group_tail(g: AgeGroup) -> Seq<char> {
    (if g.file_count > 10 { "  ... 외 "@ + count_text((g.file_count - 10) as nat) + " 파일\n"@ } else { Seq::empty() }) + "\n"@
}

/// A group's block in the report; empty for a group without files.
pub open spec fn age_group_text(g: AgeGroup) -> Seq<char> {
    if g.file_count == 0 {
        Seq::empty()
    } else {
        age_group_head(g) + age_group_files(g) + age_group_tail(g)
    }
}

/// The text of a cleanup report.
pub open spec fn cleanup_report_text(r: CleanupReport) -> Seq<char> {
    "경로: "@ + r.root@ + "\n총 파일: "@ + count_text(r.total_files as nat) + "\n전체 크기: "@ + size_text(r.total_size as nat) + "\n\n"@
        + concat_all(r.groups@.map_values(|g: AgeGroup| age_group_text(g)))
}

fn push_age_head(out: &mut String, g: &AgeGroup)
    ensures
        final(out)@ == old(out)@ + age_group_head(*g),
{
    push_str(out, "■ ");
    push_str(out, g.label);
    push_str(out, " (");
    push_count(out, g.file_count);
    push_str(out, " 파일, ");
    push_str(out, FileEntry::format_size(g.total_size).as_str());
    push_str(out, ")\n");
    assert(out@ =~= old(out)@ + age_group_head(*g));
}

fn push_aged_line(out: &mut String, f: &(String, u64))
    ensures
        final(out)@ == old(out)@ + aged_line(*f),
{
    push_str(out, "  - ");
    push_str(out, f.0.as_str());
    push_str(out, " (");
    push_str(out, FileEntry::format_size(f.1).as_str());
    push_str(out, ")\n");
    assert(out@ =~= old(out)@ + aged_line(*f));
}

fn push_age_files(out: &mut String, g: &AgeGroup)
    ensures
        final(out)@ == old(out)@ + age_group_files(*g),
{
    let ghost head = out@;
    let n = if g.files.len() < 10 { g.files.len() } else { 10 };
    let ghost lines = g.files@.take(n as int).map_values(|f: (String, u64)| aged_line(f));
    let mut i: usize = 0;
    assert(lines.take(0) =~= Seq::<Seq<char>>::empty());
    while i < n
        invariant
            n <= g.files.len(),
            i <= n,
            lines == g.files@.take(n as int).map_values(|f: (String, u64)| aged_line(f)),
            out@ == head + concat_all(lines.take(i as int)),
        decreases n - i,
    {
        push_aged_line(out, &g.files[i]);
        proof {
            assert(lines.take(i + 1) =~= lines.take(i as int).push(lines[i as int]));
            lemma_concat_push(lines.take(i as int), lines[i as int]);
        }
        i = i + 1;
    }
    assert(lines.take(n as int) =~= lines);
}

fn push_age_group(out: &mut String, g: &AgeGroup)
    ensures
        final(out)@ == old(out)@ + age_group_text(*g),
{
    if g.file_count == 0 {
        assert(old(out)@ + Seq::<char>::empty() =~= old(out)@);
        return;
    }
    push_age_head(out, g);
    push_age_files(out, g);
    if g.file_count > 10 {
        push_str(out, "  ... 외 ");
        push_count(out, g.file_count - 10);
        push_str(out, " 파일\n");
    }
    push_str(out, "\n");
    assert(out@ =~= old(out)@ + age_group_text(*g));
}

/// The text of a cleanup report: totals, then each non-empty group with up to 10 of its files.
pub fn format_report(report: &CleanupReport) -> (s: String)
    ensures
        s@ == cleanup_report_text(*report),
{
    let mut s = String::new();
    push_str(&mut s, "경로: ");
    push_str(&mut s, report.root.as_str());
    push_str(&mut s, "\n총 파일: ");
    push_count(&mut s, report.total_files);
    push_str(&mut s, "\n전체 크기: ");
    push_str(&mut s, FileEntry::format_size(report.total_size).as_str());
    push_str(&mut s, "\n\n");
    let ghost head = s@;
    let ghost parts = report.groups@.map_values(|g: AgeGroup| age_group_text(g));
    let mut i: usize = 0;
    assert(parts.take(0) =~= Seq::<Seq<char>>::empty());
    while i < report.groups.len()
        invariant
            i <= report.groups.len(),
            parts == report.groups@.map_values(|g: AgeGroup| age_group_text(g)),
            s@ == head + concat_all(parts.take(i as int)),
        decreases report.groups.len() - i,
    {
        push_age_group(&mut s, &report.groups[i]);
        proof {
            assert(parts.take(i + 1) =~= parts.take(i as int).push(parts[i as int]));
            lemma_concat_push(parts.take(i as int), parts[i as int]);
        }
        i = i + 1;
    }
    assert(parts.take(report.groups.len() as int) =~= parts);
    s
}

} // verus!
