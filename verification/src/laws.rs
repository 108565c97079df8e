//! Properties that hold across the library's operations, each proved over the same spec
//! functions and views that the operations' contracts use.

use vstd::prelude::*;
use crate::order::lemma_stable_order_unique;
use crate::panel::{PanelState, SortBy, toggled, sorted_version, sort_keys};
use crate::fs::{FileEntry, LocalFs, listing_keys};
use crate::dialog::{insert_at, remove_before};
use crate::app::{App, filter_cleared};
use crate::config::{MacrosStore, NotesStore, FileNote, pairs_map, note_view};
use crate::commands::{PlannedOp, OpView, ops_of_fields, op_of_fields, planned_ops_of, json_part};
use crate::commands::json_op_fields;
use crate::text::{trim, contains_seq, occurs_at, starts_with};
use crate::report::concat_all;
use crate::sync::{DiffEntry, DiffSide, diff_line, diff_lines, section_text, sync_report_text};
use crate::ops::classify::{FileType, type_of_ext, image_exts, video_exts, audio_exts, document_exts, code_exts, archive_exts, data_exts};
use crate::ops::storage::{StorageReport, storage_report_text};
use crate::order::{is_stable_order, lex_le};
use crate::sync::{SyncReport, is_sync_report, lists_path, same_paths};
use crate::text::{join_sep, split_char, lemma_split_char_nonempty, decimal};
use crate::fs::{size_text, f64_value, f64_exponent, round_half_even};

verus! {

/// Pressing Insert twice on the same row leaves the selection as it was.
pub proof fn law_toggle_twice(sel: Set<usize>, row: usize, rows: nat)
    ensures
        toggled(toggled(sel, row, rows), row, rows) == sel,
{
    if row < rows {
        if sel.contains(row) {
            assert(sel.remove(row).insert(row) =~= sel);
        } else {
            assert(sel.insert(row).remove(row) =~= sel);
        }
    }
}

/// Switching panels twice (outside the viewer, where Tab does nothing) gives back the state
/// one started from.
pub proof fn law_switch_twice(a: App, b: App, c: App)
    requires
        App::switch_panel_step(a, b),
        App::switch_panel_step(b, c),
    ensures
        c == a,
{
}

/// Clearing a filter shows the panel's whole listing again.
pub proof fn law_clear_filter_shows_all(before: PanelState, after: PanelState)
    requires
        filter_cleared(before, after),
    ensures
        after.visible() == before.entries@,
        after.entries == before.entries,
{
}

/// Typing a character at the cursor and deleting it again gives back the input.
pub proof fn law_type_then_erase(input: Seq<char>, cursor: int, c: char)
    requires
        0 <= cursor <= input.len(),
    ensures
        remove_before(insert_at(input, cursor, c), cursor + 1) == input,
{
    let t = insert_at(input, cursor, c);
    assert(t.take(cursor) =~= input.take(cursor));
    assert(t.skip(cursor + 1) =~= input.skip(cursor));
    assert(input.take(cursor) + input.skip(cursor) =~= input);
}

/// A macro saved under a name is the one found under that name; the other names keep
/// their macros.
pub proof fn law_macro_saved(before: MacrosStore, after: MacrosStore, name: Seq<char>, ops: Seq<PlannedOp>, other: Seq<char>)
    requires
        after@ == before@.insert(name, ops),
    ensures
        after@.dom().contains(name),
        after@[name] == ops,
        other != name ==> (after@.dom().contains(other) == before@.dom().contains(other)),
        other != name && before@.dom().contains(other) ==> after@[other] == before@[other],
{
}

/// The macros rebuilt from a store's entries (what is saved, read back) are the store's macros.
pub proof fn law_macros_round_trip(store: MacrosStore, saved: Seq<(String, Vec<PlannedOp>)>, loaded: MacrosStore)
    requires
        pairs_map(saved).map_values(|v: Vec<PlannedOp>| v@) == store@,
        loaded@ == pairs_map(saved).map_values(|v: Vec<PlannedOp>| v@),
    ensures
        loaded@ == store@,
{
}

/// A note set on a path is the note found on it: its memo and its tags; the other paths
/// keep their notes.
pub proof fn law_note_saved(
    before: NotesStore,
    after: NotesStore,
    path: Seq<char>,
    memo: Seq<char>,
    tags: Seq<Seq<char>>,
    other: Seq<char>,
)
    requires
        after@ == before@.insert(path, (memo, tags, after@[path].2)),
    ensures
        after@.dom().contains(path),
        after@[path].0 == memo,
        after@[path].1 == tags,
        other != path ==> (after@.dom().contains(other) == before@.dom().contains(other)),
        other != path && before@.dom().contains(other) ==> after@[other] == before@[other],
{
}

/// The notes rebuilt from a store's entries (what is saved, read back) are the store's notes.
pub proof fn law_notes_round_trip(store: NotesStore, saved: Seq<(String, FileNote)>, loaded: NotesStore)
    requires
        pairs_map(saved).map_values(|n: FileNote| note_view(n)) == store@,
        loaded@ == pairs_map(saved).map_values(|n: FileNote| note_view(n)),
    ensures
        loaded@ == store@,
{
}

/// Sorting a listing is deterministic: two stable sorts of the same entries by the same
/// key and direction give the same order.
pub proof fn law_sort_deterministic(entries: Seq<FileEntry>, a: Seq<FileEntry>, b: Seq<FileEntry>, by: SortBy, rev: bool)
    requires
        sorted_version(a, entries, by, rev),
        sorted_version(b, entries, by, rev),
    ensures
        a == b,
{
    let keys = sort_keys(entries, by);
    let pa = choose|perm: Seq<usize>|
        crate::order::is_stable_order(keys, perm, rev) && a == perm.map_values(|p: usize| entries[p as int]);
    let pb = choose|perm: Seq<usize>|
        crate::order::is_stable_order(keys, perm, rev) && b == perm.map_values(|p: usize| entries[p as int]);
    lemma_stable_order_unique(keys, pa, pb, rev);
}

/// The order of a local listing is determined by the entries alone.
pub proof fn law_listing_order_deterministic(entries: Seq<FileEntry>, a: Seq<FileEntry>, b: Seq<FileEntry>)
    requires
        exists|perm: Seq<usize>|
            crate::order::is_stable_order(listing_keys(entries), perm, false) && a == perm.map_values(|p: usize| entries[p as int]),
        exists|perm: Seq<usize>|
            crate::order::is_stable_order(listing_keys(entries), perm, false) && b == perm.map_values(|p: usize| entries[p as int]),
    ensures
        a == b,
{
    let keys = listing_keys(entries);
    let pa = choose|perm: Seq<usize>|
        crate::order::is_stable_order(keys, perm, false) && a == perm.map_values(|p: usize| entries[p as int]);
    let pb = choose|perm: Seq<usize>|
        crate::order::is_stable_order(keys, perm, false) && b == perm.map_values(|p: usize| entries[p as int]);
    lemma_stable_order_unique(keys, pa, pb, false);
}

/// Exactly one of four conditions holds.
pub open spec fn exactly_one(a: bool, b: bool, c: bool, d: bool) -> bool {
    ||| a && !b && !c && !d
    ||| !a && b && !c && !d
    ||| !a && !b && c && !d
    ||| !a && !b && !c && d
}

/// Every path found on either side of a folder comparison is reported in exactly one way:
/// only on the left, only on the right, different, or the same.
pub proof fn law_sync_partition(
    report: SyncReport,
    left: Map<Seq<char>, (u64, u64)>,
    right: Map<Seq<char>, (u64, u64)>,
    path: Seq<char>,
)
    requires
        is_sync_report(report, left, right),
        left.contains_key(path) || right.contains_key(path),
    ensures
        exactly_one(
            lists_path(report.only_left@, path),
            lists_path(report.only_right@, path),
            lists_path(report.different@, path),
            same_paths(left, right).contains(path),
        ),
{
}

/// Comparing a folder with itself finds no difference: every file is the same.
pub proof fn law_sync_with_itself(report: SyncReport, files: Map<Seq<char>, (u64, u64)>)
    requires
        is_sync_report(report, files, files),
    ensures
        report.only_left@.len() == 0,
        report.only_right@.len() == 0,
        report.different@.len() == 0,
        report.same_count == files.dom().len(),
{
    if report.only_left@.len() > 0 {
        let k = report.only_left@[0].relative_path@;
        assert(lists_path(report.only_left@, k));
        assert(files.contains_key(k) && !files.contains_key(k));
    }
    if report.only_right@.len() > 0 {
        let k = report.only_right@[0].relative_path@;
        assert(lists_path(report.only_right@, k));
        assert(files.contains_key(k) && !files.contains_key(k));
    }
    if report.different@.len() > 0 {
        assert(lists_path(report.different@, report.different@[0].relative_path@));
    }
    assert(same_paths(files, files) =~= files.dom());
}

/// Sizes under 1 KiB are written in bytes: the number, then ` B`.
pub proof fn law_small_size_in_bytes(size: nat)
    requires
        size < 1024,
    ensures
        size_text(size) == decimal(size) + " B"@,
{
    assert(f64_exponent(size) == 0);
    assert(vstd::arithmetic::power2::pow2(0) == 1) by {
        vstd::arithmetic::power2::lemma2_to64();
    }
    assert(round_half_even(size, 1) == size);
    assert(f64_value(size) == size);
    reveal_strlit(" B");
    assert(" B"@ =~= seq![' ', 'B']);
}

/// Joining the pieces of a text split at a separator, with that separator, gives back the text.
pub proof fn law_split_then_join(s: Seq<char>, sep: char)
    ensures
        join_sep(split_char(s, sep), sep) == s,
    decreases s.len(),
{
    if s.len() > 0 {
        let r = split_char(s.drop_last(), sep);
        law_split_then_join(s.drop_last(), sep);
        lemma_split_char_nonempty(s.drop_last(), sep);
        if s.last() == sep {
            let t = r.push(Seq::<char>::empty());
            assert(t.drop_last() =~= r);
            assert(join_sep(t, sep) =~= join_sep(r, sep).push(sep));
        } else {
            let t = r.update(r.len() - 1, r.last().push(s.last()));
            if r.len() == 1 {
                assert(join_sep(t, sep) =~= r[0].push(s.last()));
            } else {
                assert(t.drop_last() =~= r.drop_last());
                assert(join_sep(t, sep) =~= join_sep(r.drop_last(), sep).push(sep) + r.last().push(s.last()));
            }
        }
        assert(s.drop_last().push(s.last()) =~= s);
    }
}

/// An element of a plan's array that names a known operation with the fields it needs.
pub open spec fn complete_element(f: (Option<Seq<char>>, Option<Seq<char>>, Option<Seq<char>>, Option<Seq<char>>)) -> bool {
    f.0 matches Some(op) && (((op == "delete"@ || op == "mkdir"@) && f.1 is Some)
        || ((op == "copy"@ || op == "move"@ || op == "rename"@) && f.2 is Some && f.3 is Some))
}

/// Element `f` of a plan became operation `o`: a `copy` a copy from `from` to `to`, a
/// `move` a move, a `rename` a rename, a `delete` or `mkdir` that on `path`.
pub open spec fn element_became(f: (Option<Seq<char>>, Option<Seq<char>>, Option<Seq<char>>, Option<Seq<char>>), o: OpView) -> bool {
    &&& f.0 == Some("copy"@) ==> o == OpView::Copy(f.2->0, f.3->0)
    &&& f.0 == Some("move"@) ==> o == OpView::Move(f.2->0, f.3->0)
    &&& f.0 == Some("rename"@) ==> o == OpView::Rename(f.2->0, f.3->0)
    &&& f.0 == Some("delete"@) ==> o == OpView::Delete(f.1->0)
    &&& f.0 == Some("mkdir"@) ==> o == OpView::Mkdir(f.1->0)
}

proof fn lemma_op_names_distinct()
    ensures
        "copy"@ != "move"@, "copy"@ != "rename"@, "copy"@ != "delete"@, "copy"@ != "mkdir"@,
        "move"@ != "rename"@, "move"@ != "delete"@, "move"@ != "mkdir"@,
        "rename"@ != "delete"@, "rename"@ != "mkdir"@, "delete"@ != "mkdir"@,
{
    reveal_strlit("copy");
    reveal_strlit("move");
    reveal_strlit("rename");
    reveal_strlit("delete");
    reveal_strlit("mkdir");
    assert("copy"@[0] != "move"@[0]);
    assert("copy"@.len() != "rename"@.len());
    assert("copy"@.len() != "delete"@.len());
    assert("copy"@.len() != "mkdir"@.len());
    assert("move"@.len() != "rename"@.len());
    assert("move"@.len() != "delete"@.len());
    assert("move"@.len() != "mkdir"@.len());
    assert("rename"@[0] != "delete"@[0]);
    assert("rename"@.len() != "mkdir"@.len());
    assert("delete"@.len() != "mkdir"@.len());
}

proof fn lemma_elements_become_ops(fs: Seq<(Option<Seq<char>>, Option<Seq<char>>, Option<Seq<char>>, Option<Seq<char>>)>)
    requires
        forall|i: int| 0 <= i < fs.len() ==> complete_element(#[trigger] fs[i]),
    ensures
        ops_of_fields(fs) matches Ok(ops) && ops.len() == fs.len()
            && forall|i: int| 0 <= i < fs.len() ==> element_became(#[trigger] fs[i], ops[i]),
    decreases fs.len(),
{
    lemma_op_names_distinct();
    if fs.len() > 0 {
        let init = fs.drop_last();
        assert forall|i: int| 0 <= i < init.len() implies complete_element(#[trigger] init[i]) by {
            assert(init[i] == fs[i]);
        }
        lemma_elements_become_ops(init);
        let f = fs.last();
        assert(complete_element(fs[fs.len() - 1]));
        let prev = match ops_of_fields(init) { Ok(p) => p, Err(_) => Seq::empty() };
        let o = match op_of_fields(f) { Ok(Some(o)) => o, _ => OpView::Mkdir(Seq::empty()) };
        assert(op_of_fields(f) == Ok::<Option<OpView>, crate::commands::PlanErrorView>(Some(o)));
        assert(element_became(f, o));
        let ops = prev.push(o);
        assert(ops_of_fields(fs) == Ok::<Seq<OpView>, crate::commands::PlanErrorView>(ops));
        assert forall|i: int| 0 <= i < fs.len() implies element_became(#[trigger] fs[i], ops[i]) by {
            if i < init.len() {
                assert(fs[i] == init[i]);
            }
        }
    }
}

/// A plan's operations are its array's elements, in order, each the operation its `op` names
/// with that element's own fields: a `copy` element is a copy from its `from` to its `to`
/// (never a move), a `move` a move, a `rename` a rename, a `delete` or `mkdir` one on its
/// `path`.
pub proof fn law_plan_follows_its_elements(
    text: Seq<char>,
    fs: Seq<(Option<Seq<char>>, Option<Seq<char>>, Option<Seq<char>>, Option<Seq<char>>)>,
)
    requires
        trim(text).len() > 0,
        json_op_fields(trim(json_part(trim(text)))) == Ok::<_, Seq<char>>(fs),
        forall|i: int| 0 <= i < fs.len() ==> complete_element(#[trigger] fs[i]),
    ensures
        planned_ops_of(text) matches Ok(ops) && ops.len() == fs.len()
            && forall|i: int| 0 <= i < fs.len() ==> element_became(#[trigger] fs[i], ops[i]),
{
    lemma_elements_become_ops(fs);
}

proof fn lemma_concat_holds(parts: Seq<Seq<char>>, i: int)
    requires
        0 <= i < parts.len(),
    ensures
        contains_seq(concat_all(parts), parts[i]),
    decreases parts.len(),
{
    let init = parts.drop_last();
    let c0 = concat_all(init);
    let last = parts.last();
    assert(concat_all(parts) == c0 + last);
    if i == parts.len() - 1 {
        assert((c0 + last).subrange(c0.len() as int, c0.len() + last.len() as int) =~= last);
        assert(occurs_at(concat_all(parts), parts[i], c0.len() as int));
    } else {
        lemma_concat_holds(init, i);
        assert(init[i] == parts[i]);
        let k = choose|k: int| occurs_at(c0, parts[i], k);
        assert((c0 + last).subrange(k, k + parts[i].len()) =~= c0.subrange(k, k + parts[i].len()));
        assert(occurs_at(concat_all(parts), parts[i], k));
    }
}

proof fn lemma_contains_within(p: Seq<char>, x: Seq<char>, q: Seq<char>, n: Seq<char>)
    requires
        contains_seq(x, n),
    ensures
        contains_seq(p + x + q, n),
{
    let k = choose|k: int| occurs_at(x, n, k);
    assert((p + x + q).subrange(p.len() + k, p.len() + k + n.len()) =~= x.subrange(k, k + n.len()));
    assert(occurs_at(p + x + q, n, p.len() + k));
}

proof fn lemma_section_holds(title: Seq<char>, d: Seq<DiffEntry>, side: DiffSide, blank: bool, i: int)
    requires
        0 <= i < d.len(),
        i < 20,
    ensures
        contains_seq(section_text(title, d, side, blank), diff_line(d[i], side)),
{
    let shown = d.take(if d.len() < 20 { d.len() as int } else { 20int });
    let parts = shown.map_values(|e: DiffEntry| diff_line(e, side));
    assert(parts[i] == diff_line(d[i], side));
    lemma_concat_holds(parts, i);
    let rest = if d.len() > 20 { "  ... 외 "@ + crate::report::count_text((d.len() - 20) as nat) + " 개\n"@ } else { Seq::<char>::empty() };
    lemma_contains_within(Seq::empty(), concat_all(parts), rest, parts[i]);
    assert(Seq::<char>::empty() + concat_all(parts) + rest =~= diff_lines(d, side));
    let head = title + crate::report::count_text(d.len()) + " 개)\n"@;
    let tail = if blank { "\n"@ } else { Seq::<char>::empty() };
    lemma_contains_within(head, diff_lines(d, side), tail, parts[i]);
    assert(section_text(title, d, side, blank) == head + diff_lines(d, side) + tail);
}

/// A size as a report shows it: its size notation, or nothing when unknown.
pub open spec fn shown_size(o: Option<u64>) -> Seq<char> {
    match o {
        Some(s) => size_text(s as nat),
        None => Seq::empty(),
    }
}

/// A sync report lists each of the first 20 entries of every kind on a line of its own: a
/// file only on the left with its left size, one only on the right with its right size,
/// and a file on both sides with its left size after `왼쪽: ` and its right size after
/// `오른쪽: `.
pub proof fn law_sync_report_lines(r: SyncReport, i: int)
    requires
        0 <= i < 20,
    ensures
        i < r.only_left@.len() ==> contains_seq(sync_report_text(r), "  "@ + r.only_left@[i].relative_path@ + " ("@
            + shown_size(r.only_left@[i].left_size) + ")\n"@),
        i < r.only_right@.len() ==> contains_seq(sync_report_text(r), "  "@ + r.only_right@[i].relative_path@ + " ("@
            + shown_size(r.only_right@[i].right_size) + ")\n"@),
        i < r.different@.len() ==> contains_seq(sync_report_text(r), "  "@ + r.different@[i].relative_path@
            + " (왼쪽: "@ + shown_size(r.different@[i].left_size) + ", 오른쪽: "@ + shown_size(r.different@[i].right_size)
            + ")\n"@),
{
    let head = "폴더 동기화 분석\n\n왼쪽: "@ + r.left_root@ + "\n오른쪽: "@ + r.right_root@ + "\n\n"@
        + "일치하는 파일: "@ + crate::report::count_text(r.same_count as nat) + " 개\n\n"@;
    let sl = section_text("■ 왼쪽에만 있는 파일 ("@, r.only_left@, DiffSide::Left, true);
    let sr = section_text("■ 오른쪽에만 있는 파일 ("@, r.only_right@, DiffSide::Right, true);
    let sb = section_text("■ 양쪽에 있지만 다른 파일 ("@, r.different@, DiffSide::Both, false);
    assert(sync_report_text(r) == head + sl + sr + sb);
    if i < r.only_left@.len() {
        lemma_section_holds("■ 왼쪽에만 있는 파일 ("@, r.only_left@, DiffSide::Left, true, i);
        lemma_contains_within(head, sl, sr + sb, diff_line(r.only_left@[i], DiffSide::Left));
        assert(head + sl + (sr + sb) =~= head + sl + sr + sb);
    }
    if i < r.only_right@.len() {
        lemma_section_holds("■ 오른쪽에만 있는 파일 ("@, r.only_right@, DiffSide::Right, true, i);
        lemma_contains_within(head + sl, sr, sb, diff_line(r.only_right@[i], DiffSide::Right));
    }
    if i < r.different@.len() {
        lemma_section_holds("■ 양쪽에 있지만 다른 파일 ("@, r.different@, DiffSide::Both, false, i);
        lemma_contains_within(head + sl + sr, sb, Seq::empty(), diff_line(r.different@[i], DiffSide::Both));
        assert(head + sl + sr + sb + Seq::<char>::empty() =~= head + sl + sr + sb);
    }
}

/// An extension's kind is that of the first list holding it, in the order image, video,
/// audio, document, code, archive, data; an extension in none of them is of another kind.
pub proof fn law_kind_of_extension(e: Seq<char>)
    ensures
        (type_of_ext(e) == FileType::Image) <==> image_exts().contains(e),
        (type_of_ext(e) == FileType::Video) <==> (video_exts().contains(e) && !image_exts().contains(e)),
        (type_of_ext(e) == FileType::Audio) <==> (audio_exts().contains(e) && !image_exts().contains(e)
            && !video_exts().contains(e)),
        (type_of_ext(e) == FileType::Document) <==> (document_exts().contains(e) && !image_exts().contains(e)
            && !video_exts().contains(e) && !audio_exts().contains(e)),
        (type_of_ext(e) == FileType::Code) <==> (code_exts().contains(e) && !image_exts().contains(e)
            && !video_exts().contains(e) && !audio_exts().contains(e) && !document_exts().contains(e)),
        (type_of_ext(e) == FileType::Archive) <==> (archive_exts().contains(e) && !image_exts().contains(e)
            && !video_exts().contains(e) && !audio_exts().contains(e) && !document_exts().contains(e)
            && !code_exts().contains(e)),
        (type_of_ext(e) == FileType::Data) <==> (data_exts().contains(e) && !image_exts().contains(e)
            && !video_exts().contains(e) && !audio_exts().contains(e) && !document_exts().contains(e)
            && !code_exts().contains(e) && !archive_exts().contains(e)),
        (type_of_ext(e) == FileType::Other) <==> (!image_exts().contains(e) && !video_exts().contains(e)
            && !audio_exts().contains(e) && !document_exts().contains(e) && !code_exts().contains(e)
            && !archive_exts().contains(e) && !data_exts().contains(e)),
{
}

/// A sorted listing holds as many entries as the listing, and runs by the chosen field: by
/// size, modification time or name (compared character by character), ascending, or
/// descending when reversed.
pub proof fn law_sorted_by_field(entries: Seq<FileEntry>, sorted: Seq<FileEntry>, by: SortBy, rev: bool)
    requires
        sorted_version(sorted, entries, by, rev),
    ensures
        sorted.len() == entries.len(),
        forall|i: int, j: int| 0 <= i < j < sorted.len() ==> {
            let (a, b) = (#[trigger] sorted[i], #[trigger] sorted[j]);
            &&& by == SortBy::Size ==> if rev { b.size <= a.size } else { a.size <= b.size }
            &&& by == SortBy::Modified ==> if rev { b.modified <= a.modified } else { a.modified <= b.modified }
            &&& by == SortBy::Name ==> if rev { lex_le(b.name@, a.name@) } else { lex_le(a.name@, b.name@) }
        },
{
    let keys = sort_keys(entries, by);
    let perm = choose|perm: Seq<usize>|
        is_stable_order(keys, perm, rev) && sorted == perm.map_values(|p: usize| entries[p as int]);
    assert forall|i: int, j: int| 0 <= i < j < sorted.len() implies {
        let (a, b) = (#[trigger] sorted[i], #[trigger] sorted[j]);
        &&& by == SortBy::Size ==> if rev { b.size <= a.size } else { a.size <= b.size }
        &&& by == SortBy::Modified ==> if rev { b.modified <= a.modified } else { a.modified <= b.modified }
        &&& by == SortBy::Name ==> if rev { lex_le(b.name@, a.name@) } else { lex_le(a.name@, b.name@) }
    } by {
        assert(crate::order::ord_le(keys[perm[i] as int], keys[perm[j] as int], rev));
        assert(keys[perm[i] as int].entry == sorted[i]);
        assert(keys[perm[j] as int].entry == sorted[j]);
    }
}

/// A storage report opens with its folder, its total size, then the number of files after
/// `파일: ` and the number of folders after `폴더: `.
pub proof fn law_storage_report_header(r: StorageReport)
    ensures
        starts_with(storage_report_text(r), "경로: "@ + r.root@ + "\n총 크기: "@ + size_text(r.total_size as nat)
            + "\n파일: "@ + decimal(r.total_files as nat) + "\n폴더: "@ + decimal(r.total_dirs as nat) + "\n\n"@),
{
    let h = "경로: "@ + r.root@ + "\n총 크기: "@ + size_text(r.total_size as nat)
        + "\n파일: "@ + decimal(r.total_files as nat) + "\n폴더: "@ + decimal(r.total_dirs as nat) + "\n\n"@;
    let t = storage_report_text(r);
    assert(t == h + (crate::ops::storage::dirs_block(r.top_dirs@) + crate::ops::storage::files_block(r.large_files@)));
    assert(t.subrange(0, h.len() as int) =~= h);
}

} // verus!
