//! The state of one file panel: its listing, cursor, selection, sort order and filters.

use vstd::prelude::*;
use std::collections::HashSet;
use crate::fs::FileEntry;
use crate::order::{OrdKey, lex_le, lex_le_exec, lemma_lex_total, lemma_lex_trans, is_stable_order, stable_order};
use crate::text::{chars_of, contains_exec, contains_seq, lowercase, to_lower};
use crate::wildcard::{compile_wildcard, glob_accepts, glob_matches};
use crate::path::{parent, parent_of};

verus! {

broadcast use vstd::std_specs::hash::group_hash_axioms;

#[derive(Clone, Copy, Debug, PartialEq, Eq, Structural)]
pub enum SortBy {
    Name,
    Size,
    Modified,
}

#[derive(Clone, Copy, Debug, PartialEq, Eq, Structural)]
pub enum SearchMode {
    Off,
    Quick,
    Wildcard,
    Find,
}

pub open spec fn sort_rank(by: SortBy) -> int {
    match by {
        SortBy::Name => 0,
        SortBy::Size => 1,
        SortBy::Modified => 2,
    }
}

/// An entry as a sort key under one of the three orders.
pub struct EntryKey {
    pub by: SortBy,
    pub entry: FileEntry,
}

impl OrdKey for EntryKey {
    open spec fn le(self, other: Self) -> bool {
        if self.by != other.by {
            sort_rank(self.by) < sort_rank(other.by)
        } else {
            match self.by {
                SortBy::Name => lex_le(self.entry.name@, other.entry.name@),
                SortBy::Size => self.entry.size <= other.entry.size,
                SortBy::Modified => self.entry.modified <= other.entry.modified,
            }
        }
    }

    fn le_exec(&self, other: &Self) -> (r: bool) {
        if self.by != other.by {
            let a: u8 = match self.by { SortBy::Name => 0, SortBy::Size => 1, SortBy::Modified => 2 };
            let b: u8 = match other.by { SortBy::Name => 0, SortBy::Size => 1, SortBy::Modified => 2 };
            return a < b;
        }
        match self.by {
            SortBy::Name => {
                let x = chars_of(self.entry.name.as_str());
                let y = chars_of(other.entry.name.as_str());
                lex_le_exec(&x, &y)
            },
            SortBy::Size => self.entry.size <= other.entry.size,
            SortBy::Modified => self.entry.modified <= other.entry.modified,
        }
    }

    proof fn lemma_total(a: Self, b: Self) {
        lemma_lex_total(a.entry.name@, b.entry.name@);
    }

    proof fn lemma_trans(a: Self, b: Self, c: Self) {
        if a.by == b.by && b.by == c.by && a.by == SortBy::Name {
            lemma_lex_trans(a.entry.name@, b.entry.name@, c.entry.name@);
        }
    }
}

/// The entries as sort keys under `by`.
pub open spec fn sort_keys(entries: Seq<FileEntry>, by: SortBy) -> Seq<EntryKey> {
    entries.map_values(|e: FileEntry| EntryKey { by, entry: e })
}

/// `new` is `old` stably sorted under `by`, descending when `rev`.
pub open spec fn sorted_version(new: Seq<FileEntry>, old: Seq<FileEntry>, by: SortBy, rev: bool) -> bool {
    exists|perm: Seq<usize>|
        is_stable_order(sort_keys(old, by), perm, rev) && new == perm.map_values(|p: usize| old[p as int])
}

/// A dot file, hidden unless hidden files are shown.
pub open spec fn is_hidden(e: FileEntry) -> bool {
    e.name@.len() > 0 && e.name@[0] == '.'
}

/// The entries of a listing that the panel keeps.
pub open spec fn shown(listing: Seq<FileEntry>, show_hidden: bool) -> Seq<FileEntry> {
    if show_hidden {
        listing
    } else {
        listing.filter(|e: FileEntry| !is_hidden(e))
    }
}

/// Total size of the entries that are not directories.
pub open spec fn file_total(s: Seq<FileEntry>) -> int
    decreases s.len(),
{
    if s.len() == 0 {
        0
    } else {
        file_total(s.drop_last()) + if s.last().is_dir { 0int } else { s.last().size as int }
    }
}

/// Quick search keeps the entries whose lowercased name contains the lowercased query.
pub open spec fn quick_match(query: Seq<char>, e: FileEntry) -> bool {
    contains_seq(lowercase(e.name@), lowercase(query))
}

/// The indices below `n` that are in `sel`, ascending.
pub open spec fn selected_indices(sel: Set<usize>, n: nat) -> Seq<usize>
    decreases n,
{
    if n == 0 {
        Seq::empty()
    } else {
        let r = selected_indices(sel, (n - 1) as nat);
        if sel.contains((n - 1) as usize) {
            r.push((n - 1) as usize)
        } else {
            r
        }
    }
}

/// The selection `sel` with row `row` of `n` rows switched: removed when selected, added
/// when not; unchanged when there is no such row.
pub open spec fn toggled(sel: Set<usize>, row: usize, n: nat) -> Set<usize> {
    if row < n {
        if sel.contains(row) { sel.remove(row) } else { sel.insert(row) }
    } else {
        sel
    }
}

/// The largest cursor position in a list of `n` rows (0 when empty).
pub open spec fn last_row(n: nat) -> nat {
    if n == 0 { 0 } else { (n - 1) as nat }
}

/// The step that `go_parent` takes.
#[derive(Debug)]
pub enum ParentStep {
    /// Nothing above: stay where the panel is.
    Stay,
    /// At the root of an opened archive: go back to the local directory holding it.
    LeaveArchive(String),
    /// Go to the parent directory, if the file system says it is a directory.
    Enter(String),
}

pub struct PanelState {
    pub path: String,
    pub entries: Vec<FileEntry>,
    pub cursor: usize,
    pub selected: HashSet<usize>,
    pub sort_by: SortBy,
    pub reverse: bool,
    pub filter_query: Option<String>,
    pub filtered_entries: Vec<FileEntry>,
    pub search_mode: SearchMode,
    pub archive_base: Option<String>,
    pub show_hidden: bool,
    pub list_total_size: u64,
    pub recursive_total_size: Option<u64>,
    pub is_calculating: bool,
}

impl PanelState {
    /// The rows the panel shows: the filter's result while a filter is on, else the listing.
    pub open spec fn visible(self) -> Seq<FileEntry> {
        if self.filter_query is Some {
            self.filtered_entries@
        } else {
            self.entries@
        }
    }

    /// `new` is `old` after `refresh(listing)`, apart from the path.
    pub open spec fn refreshed(old: PanelState, new: PanelState, listing: Seq<FileEntry>) -> bool {
        &&& sorted_version(new.entries@, shown(listing, old.show_hidden), old.sort_by, old.reverse)
        &&& new.cursor == if old.cursor < last_row(new.entries.len() as nat) {
            old.cursor as nat
        } else {
            last_row(new.entries.len() as nat)
        }
        &&& new.list_total_size == file_total(shown(listing, old.show_hidden))
        &&& new.recursive_total_size is None
        &&& new.sort_by == old.sort_by
        &&& new.reverse == old.reverse
        &&& new.filter_query == old.filter_query
        &&& new.search_mode == old.search_mode
        &&& new.archive_base == old.archive_base
        &&& new.show_hidden == old.show_hidden
        &&& new.is_calculating == old.is_calculating
    }

    /// `new` is `old` with no filter, cursor at the top and nothing selected, then refreshed.
    pub open spec fn reset_and_refreshed(old: PanelState, new: PanelState, listing: Seq<FileEntry>) -> bool {
        &&& Self::refreshed(
            (PanelState { cursor: 0, filter_query: None, search_mode: SearchMode::Off, ..old }),
            new,
            listing,
        )
        &&& new.selected@.is_empty()
        &&& new.filtered_entries@.len() == 0
    }

    /// A listing whose shown files' total size fits in `u64`.
    pub open spec fn listing_fits(show_hidden: bool, listing: Seq<FileEntry>) -> bool {
        file_total(shown(listing, show_hidden)) <= u64::MAX
    }

    /// Whether `listing` fits (see `listing_fits`): its shown files' sizes add up within `u64`.
    pub fn fits(show_hidden: bool, listing: &Vec<FileEntry>) -> (b: bool)
        ensures
            b == Self::listing_fits(show_hidden, listing@),
    {
        let mut total: u64 = 0;
        let mut i: usize = 0;
        while i < listing.len()
            invariant
                i <= listing.len(),
                total == file_total(shown(listing@.take(i as int), show_hidden)),
            decreases listing.len() - i,
        {
            let e = &listing[i];
            proof {
                lemma_file_total_prefix(listing@, i as nat, show_hidden);
            }
            if (show_hidden || !starts_with_dot(&e.name)) && !e.is_dir {
                match total.checked_add(e.size) {
                    Some(t) => {
                        total = t;
                    },
                    None => {
                        return false;
                    },
                }
            }
            i = i + 1;
        }
        proof {
            assert(listing@.take(listing.len() as int) =~= listing@);
        }
        true
    }

    /// A panel at `path` showing `listing` (hidden files off, sorted by name).
    pub fn new(path: String, listing: Vec<FileEntry>) -> (r: PanelState)
        requires
            Self::listing_fits(false, listing@),
        ensures
            r.path == path,
            r.selected@ == Set::<usize>::empty(),
            r.sort_by == SortBy::Name,
            !r.reverse,
            r.filter_query is None,
            r.filtered_entries@.len() == 0,
            r.search_mode == SearchMode::Off,
            r.archive_base is None,
            !r.show_hidden,
            !r.is_calculating,
            r.cursor == 0,
            sorted_version(r.entries@, shown(listing@, false), SortBy::Name, false),
            r.list_total_size == file_total(shown(listing@, false)),
            r.recursive_total_size is None,
    {
        let mut state = PanelState {
            path,
            entries: Vec::new(),
            cursor: 0,
            selected: HashSet::new(),
            sort_by: SortBy::Name,
            reverse: false,
            filter_query: None,
            filtered_entries: Vec::new(),
            search_mode: SearchMode::Off,
            archive_base: None,
            show_hidden: false,
            list_total_size: 0,
            recursive_total_size: None,
            is_calculating: false,
        };
        state.refresh(listing);
        state
    }

    /// Replaces the listing: drops dot files unless they are shown, sorts, keeps the cursor
    /// within the new listing and recomputes the total size of the listed files.
    pub fn refresh(&mut self, listing: Vec<FileEntry>)
        requires
            Self::listing_fits(old(self).show_hidden, listing@),
        ensures
            Self::refreshed(*old(self), *final(self), listing@),
            final(self).path == old(self).path,
            final(self).selected == old(self).selected,
            final(self).filtered_entries == old(self).filtered_entries,
    {
        let mut kept: Vec<FileEntry> = Vec::new();
        let mut total: u64 = 0;
        let mut i: usize = 0;
        let ghost keep = |e: FileEntry| !is_hidden(e);
        while i < listing.len()
            invariant
                i <= listing.len(),
                kept@ == shown(listing@.take(i as int), self.show_hidden),
                total == file_total(shown(listing@.take(i as int), self.show_hidden)),
                Self::listing_fits(self.show_hidden, listing@),
                keep == (|e: FileEntry| !is_hidden(e)),
            decreases listing.len() - i,
        {
            let e = &listing[i];
            let hidden = starts_with_dot(&e.name);
            proof {
                assert(listing@.take(i + 1).drop_last() =~= listing@.take(i as int));
                assert(listing@.take(i + 1) =~= listing@.take(i as int).push(*e));
                lemma_file_total_prefix(listing@, i as nat, self.show_hidden);
                if !self.show_hidden {
                    listing@.take(i as int).lemma_filter_push(*e, keep);
                }
            }
            if self.show_hidden || !hidden {
                if !e.is_dir {
                    total = total + e.size;
                }
                kept.push(e.copy());
            }
            i = i + 1;
        }
        proof {
            assert(listing@.take(listing.len() as int) =~= listing@);
        }
        self.entries = kept;
        self.apply_sort();
        let n = self.entries.len();
        let last = if n == 0 { 0 } else { n - 1 };
        self.cursor = if self.cursor < last { self.cursor } else { last };
        self.list_total_size = total;
        self.recursive_total_size = None;
    }

    /// Shows or hides dot files, then refreshes with `listing`.
    pub fn set_show_hidden(&mut self, show: bool, listing: Vec<FileEntry>)
        requires
            Self::listing_fits(show, listing@),
        ensures
            final(self).show_hidden == show,
            final(self).path == old(self).path,
            Self::refreshed((PanelState { show_hidden: show, ..*old(self) }), *final(self), listing@),
            final(self).selected == old(self).selected,
            final(self).filtered_entries == old(self).filtered_entries,
    {
        self.show_hidden = show;
        self.refresh(listing);
    }

    /// Goes to `path` when the file system reports a directory there: `listing` is its
    /// listing, or `None` when `path` is not a directory (the panel then stays as it is).
    /// Going there resets cursor, selection and filter.
    pub fn navigate_to(&mut self, path: String, listing: Option<Vec<FileEntry>>)
        requires
            listing matches Some(l) ==> Self::listing_fits(old(self).show_hidden, l@),
        ensures
            listing is None ==> *final(self) == *old(self),
            listing matches Some(l) ==> Self::reset_and_refreshed(*old(self), *final(self), l@)
                && final(self).path == path,
    {
        match listing {
            None => {},
            Some(l) => {
                self.path = path;
                self.cursor = 0;
                self.selected = HashSet::new();
                self.clear_filter();
                self.refresh(l);
            },
        }
    }

    /// Decides where going up leads: out of an archive at its root (to the directory holding
    /// the archive, or `/`), else to the parent path, else nowhere.
    pub fn go_parent(&self) -> (r: ParentStep)
        ensures
            self.at_archive_root() ==> (r matches ParentStep::LeaveArchive(p) && p@ == match parent_of(
                self.archive_base->0@,
            ) {
                Some(q) => q,
                None => seq!['/'],
            }),
            !self.at_archive_root() ==> match parent_of(self.path@) {
                None => r is Stay,
                Some(q) => (r matches ParentStep::Enter(p) && p@ == q),
            },
    {
        let here = chars_of(self.path.as_str());
        let at_root = here.len() == 0 || (here.len() == 1 && here[0] == '/');
        proof {
            reveal_strlit("/");
            if here@.len() == 1 && here@[0] == '/' {
                assert(here@ =~= seq!['/']);
            }
            if here@.len() == 0 {
                assert(here@ =~= Seq::<char>::empty());
            }
            assert(at_root == (self.path@ == Seq::<char>::empty() || self.path@ == seq!['/']));
        }
        match &self.archive_base {
            Some(base) => {
                if at_root {
                    return match parent(base.as_str()) {
                        Some(p) => ParentStep::LeaveArchive(p),
                        None => ParentStep::LeaveArchive(String::from_str("/")),
                    };
                }
            },
            None => {},
        }
        match parent(self.path.as_str()) {
            Some(p) => ParentStep::Enter(p),
            None => ParentStep::Stay,
        }
    }

    /// The panel is at the root of an opened archive.
    pub open spec fn at_archive_root(self) -> bool {
        self.archive_base is Some && (self.path@ == Seq::<char>::empty() || self.path@ == seq!['/'])
    }

    /// Leaves the archive the panel is in, showing `parent` (a local directory) with
    /// `listing`; cursor, selection and filter are reset.
    pub fn leave_archive(&mut self, parent: String, listing: Vec<FileEntry>)
        requires
            Self::listing_fits(old(self).show_hidden, listing@),
        ensures
            Self::reset_and_refreshed((PanelState { archive_base: None, ..*old(self) }), *final(self), listing@),
            final(self).path == parent,
    {
        self.archive_base = None;
        self.path = parent;
        self.cursor = 0;
        self.selected = HashSet::new();
        self.clear_filter();
        self.refresh(listing);
    }

    /// Switches the panel to another file system at `path`. For an archive, `path` is the
    /// archive file, which becomes `archive_base`, and the panel shows the archive's root `""`.
    pub fn set_fs(&mut self, path: String, is_archive: bool, listing: Vec<FileEntry>)
        requires
            Self::listing_fits(old(self).show_hidden, listing@),
        ensures
            Self::reset_and_refreshed(
                (PanelState { archive_base: if is_archive { Some(path) } else { None }, ..*old(self) }),
                *final(self),
                listing@,
            ),
            final(self).path@ == if is_archive { Seq::<char>::empty() } else { path@ },
    {
        if is_archive {
            self.archive_base = Some(path);
            self.path = String::new();
        } else {
            self.archive_base = None;
            self.path = path;
        }
        self.cursor = 0;
        self.selected = HashSet::new();
        self.clear_filter();
        self.refresh(listing);
    }

    /// Starts a size computation of the panel's folder, unless one is running or the panel
    /// shows an archive; says whether it started.
    pub fn start_size_calc(&mut self) -> (started: bool)
        ensures
            started == (!old(self).is_calculating && old(self).archive_base is None),
            *final(self) == if started { PanelState { is_calculating: true, ..*old(self) } } else { *old(self) },
    {
        if self.is_calculating || self.archive_base.is_some() {
            return false;
        }
        self.is_calculating = true;
        true
    }

    /// The rows shown.
    pub fn visible_entries(&self) -> (r: &Vec<FileEntry>)
        ensures
            r@ == self.visible(),
    {
        if self.filter_query.is_some() {
            &self.filtered_entries
        } else {
            &self.entries
        }
    }

    pub fn cursor_up(&mut self)
        ensures
            *final(self) == (PanelState {
                cursor: if old(self).cursor > 0 { (old(self).cursor - 1) as usize } else { 0 },
                ..*old(self)
            }),
    {
        if self.cursor > 0 {
            self.cursor = self.cursor - 1;
        }
    }

    pub fn cursor_down(&mut self)
        ensures
            *final(self) == (PanelState {
                cursor: if old(self).cursor < last_row(old(self).visible().len()) {
                    (old(self).cursor + 1) as usize
                } else {
                    old(self).cursor
                },
                ..*old(self)
            }),
    {
        let n = self.visible_entries().len();
        let max = if n == 0 { 0 } else { n - 1 };
        if self.cursor < max {
            self.cursor = self.cursor + 1;
        }
    }

    pub fn page_up(&mut self, page_size: usize)
        ensures
            *final(self) == (PanelState {
                cursor: if old(self).cursor > page_size { (old(self).cursor - page_size) as usize } else { 0 },
                ..*old(self)
            }),
    {
        self.cursor = if self.cursor > page_size { self.cursor - page_size } else { 0 };
    }

    pub fn page_down(&mut self, page_size: usize)
        requires
            old(self).cursor + page_size <= usize::MAX,
        ensures
            *final(self) == (PanelState {
                cursor: if old(self).cursor + page_size < last_row(old(self).visible().len()) {
                    (old(self).cursor + page_size) as usize
                } else {
                    last_row(old(self).visible().len()) as usize
                },
                ..*old(self)
            }),
    {
        let n = self.visible_entries().len();
        let max = if n == 0 { 0 } else { n - 1 };
        let target = self.cursor + page_size;
        self.cursor = if target < max { target } else { max };
    }

    /// Selects or unselects the row under the cursor, when there is one.
    pub fn toggle_select(&mut self)
        ensures
            final(self).selected@ == toggled(old(self).selected@, old(self).cursor, old(self).visible().len()),
            *final(self) == (PanelState { selected: final(self).selected, ..*old(self) }),
    {
        if self.cursor < self.visible_entries().len() {
            if self.selected.contains(&self.cursor) {
                let c = self.cursor;
                self.selected.remove(&c);
            } else {
                let c = self.cursor;
                self.selected.insert(c);
            }
        }
    }

    /// Selects every row shown.
    pub fn select_all(&mut self)
        ensures
            final(self).selected@ == Set::new(|i: usize| i < old(self).visible().len()),
            *final(self) == (PanelState { selected: final(self).selected, ..*old(self) }),
    {
        let n = self.visible_entries().len();
        let mut sel: HashSet<usize> = HashSet::new();
        let mut i: usize = 0;
        while i < n
            invariant
                i <= n,
                sel@ == Set::new(|j: usize| j < i),
            decreases n - i,
        {
            sel.insert(i);
            i = i + 1;
            assert(sel@ =~= Set::new(|j: usize| j < i));
        }
        self.selected = sel;
    }

    pub fn clear_selection(&mut self)
        ensures
            final(self).selected@.is_empty(),
            *final(self) == (PanelState { selected: final(self).selected, ..*old(self) }),
    {
        self.selected = HashSet::new();
    }

    /// The selected entries: the rows shown (the filtered ones while a filter is on) whose
    /// indices are selected, in row order (selected indices beyond the rows are skipped).
    pub fn get_selected_entries(&self) -> (r: Vec<&FileEntry>)
        ensures
            r@.map_values(|e: &FileEntry| *e) == selected_indices(self.selected@, self.visible().len()).map_values(
                |i: usize| self.visible()[i as int],
            ),
    {
        let v = self.visible_entries();
        let mut r: Vec<&FileEntry> = Vec::new();
        let mut i: usize = 0;
        while i < v.len()
            invariant
                i <= v.len(),
                v@ == self.visible(),
                r@.map_values(|e: &FileEntry| *e) == selected_indices(self.selected@, i as nat).map_values(
                    |k: usize| v@[k as int],
                ),
            decreases v.len() - i,
        {
            let ghost old_r = r@;
            if self.selected.contains(&i) {
                r.push(&v[i]);
            }
            proof {
                let old_ix = selected_indices(self.selected@, i as nat);
                if self.selected@.contains(i) {
                    assert(r@ == old_r.push(&v@[i as int]));
                    assert(r@.map_values(|e: &FileEntry| *e) =~= old_r.map_values(|e: &FileEntry| *e).push(v@[i as int]));
                    assert(old_ix.push(i).map_values(|k: usize| v@[k as int]) =~= old_ix.map_values(|k: usize| v@[k as int]).push(v@[i as int]));
                }
                assert(selected_indices(self.selected@, (i + 1) as nat) == if self.selected@.contains(i) {
                    old_ix.push(i)
                } else {
                    old_ix
                });
                assert(r@.map_values(|e: &FileEntry| *e) =~= selected_indices(self.selected@, (i + 1) as nat).map_values(
                    |k: usize| v@[k as int],
                ));
            }
            i = i + 1;
        }
        r
    }

    /// The row under the cursor, if any.
    pub fn get_current_entry(&self) -> (r: Option<&FileEntry>)
        ensures
            self.cursor < self.visible().len() ==> r == Some(&self.visible()[self.cursor as int]),
            self.cursor >= self.visible().len() ==> r is None,
    {
        let v = self.visible_entries();
        if self.cursor < v.len() {
            Some(&v[self.cursor])
        } else {
            None
        }
    }

    /// Sorts the listing stably by the panel's key, descending when `reverse`.
    pub fn apply_sort(&mut self)
        ensures
            sorted_version(final(self).entries@, old(self).entries@, old(self).sort_by, old(self).reverse),
            *final(self) == (PanelState { entries: final(self).entries, ..*old(self) }),
    {
        let mut keys: Vec<EntryKey> = Vec::new();
        let mut i: usize = 0;
        while i < self.entries.len()
            invariant
                i <= self.entries.len(),
                keys@ == sort_keys(self.entries@.take(i as int), self.sort_by),
            decreases self.entries.len() - i,
        {
            keys.push(EntryKey { by: self.sort_by, entry: self.entries[i].copy() });
            i = i + 1;
            assert(keys@ =~= sort_keys(self.entries@.take(i as int), self.sort_by));
        }
        proof {
            assert(self.entries@.take(self.entries.len() as int) =~= self.entries@);
        }
        let perm = stable_order(&keys, self.reverse);
        let mut sorted: Vec<FileEntry> = Vec::new();
        let mut j: usize = 0;
        while j < perm.len()
            invariant
                j <= perm.len(),
                is_stable_order(keys@, perm@, self.reverse),
                keys@ == sort_keys(self.entries@, self.sort_by),
                sorted@ == perm@.take(j as int).map_values(|p: usize| self.entries@[p as int]),
            decreases perm.len() - j,
        {
            let p = perm[j];
            sorted.push(self.entries[p].copy());
            j = j + 1;
            assert(sorted@ =~= perm@.take(j as int).map_values(|p: usize| self.entries@[p as int]));
        }
        proof {
            assert(perm@.take(perm.len() as int) =~= perm@);
            assert(sorted_version(sorted@, self.entries@, self.sort_by, self.reverse));
        }
        self.entries = sorted;
    }

    /// Shows only the entries whose name contains `query`, ignoring case; cursor to the top.
    pub fn apply_quick_filter(&mut self, query: &str)
        ensures
            final(self).filter_query matches Some(q) && q@ == query@,
            final(self).search_mode == SearchMode::Quick,
            *final(self) == (PanelState {
                filter_query: final(self).filter_query,
                search_mode: final(self).search_mode,
                filtered_entries: final(self).filtered_entries,
                cursor: final(self).cursor,
                ..*old(self)
            }),
            final(self).filtered_entries@ == old(self).entries@.filter(|e: FileEntry| quick_match(query@, e)),
            final(self).cursor == 0,
            final(self).entries == old(self).entries,
            final(self).selected == old(self).selected,
            final(self).path == old(self).path,
    {
        let lq = to_lower(query);
        let qc = chars_of(lq.as_str());
        let ghost pred = |e: FileEntry| quick_match(query@, e);
        let mut out: Vec<FileEntry> = Vec::new();
        let mut i: usize = 0;
        while i < self.entries.len()
            invariant
                i <= self.entries.len(),
                qc@ == lowercase(query@),
                pred == (|e: FileEntry| quick_match(query@, e)),
                out@ == self.entries@.take(i as int).filter(pred),
            decreases self.entries.len() - i,
        {
            let e = &self.entries[i];
            let ln = to_lower(e.name.as_str());
            let nc = chars_of(ln.as_str());
            let hit = contains_exec(&nc, &qc);
            if hit {
                out.push(e.copy());
            }
            proof {
                self.entries@.take(i as int).lemma_filter_push(*e, pred);
                assert(self.entries@.take(i + 1) =~= self.entries@.take(i as int).push(*e));
            }
            i = i + 1;
        }
        proof {
            assert(self.entries@.take(self.entries.len() as int) =~= self.entries@);
        }
        self.filter_query = Some(String::from_str(query));
        self.search_mode = SearchMode::Quick;
        self.filtered_entries = out;
        self.cursor = 0;
    }

    /// Shows only the entries whose name matches the wildcard `pattern`; a pattern that does
    /// not compile leaves the previous filter result in place. Cursor to the top.
    pub fn apply_wildcard_filter(&mut self, pattern: &str)
        ensures
            final(self).filter_query matches Some(q) && q@ == pattern@,
            final(self).search_mode == SearchMode::Wildcard,
            *final(self) == (PanelState {
                filter_query: final(self).filter_query,
                search_mode: final(self).search_mode,
                filtered_entries: final(self).filtered_entries,
                cursor: final(self).cursor,
                ..*old(self)
            }),
            glob_accepts(pattern@) ==> final(self).filtered_entries@ == old(self).entries@.filter(
                |e: FileEntry| glob_matches(pattern@, e.name@),
            ),
            !glob_accepts(pattern@) ==> final(self).filtered_entries == old(self).filtered_entries,
            final(self).cursor == 0,
            final(self).entries == old(self).entries,
            final(self).selected == old(self).selected,
            final(self).path == old(self).path,
    {
        self.filter_query = Some(String::from_str(pattern));
        self.search_mode = SearchMode::Wildcard;
        match compile_wildcard(pattern) {
            Some(w) => {
                let ghost pred = |e: FileEntry| glob_matches(pattern@, e.name@);
                let mut out: Vec<FileEntry> = Vec::new();
                let mut i: usize = 0;
                while i < self.entries.len()
                    invariant
                        i <= self.entries.len(),
                        w.source() == pattern@,
                        pred == (|e: FileEntry| glob_matches(pattern@, e.name@)),
                        out@ == self.entries@.take(i as int).filter(pred),
                    decreases self.entries.len() - i,
                {
                    let e = &self.entries[i];
                    if w.matches(e.name.as_str()) {
                        out.push(e.copy());
                    }
                    proof {
                        self.entries@.take(i as int).lemma_filter_push(*e, pred);
                        assert(self.entries@.take(i + 1) =~= self.entries@.take(i as int).push(*e));
                    }
                    i = i + 1;
                }
                proof {
                    assert(self.entries@.take(self.entries.len() as int) =~= self.entries@);
                }
                self.filtered_entries = out;
            },
            None => {},
        }
        self.cursor = 0;
    }

    /// Shows the results of a find, labelled `[Find Results]`; cursor to the top.
    pub fn set_find_results(&mut self, results: Vec<FileEntry>)
        ensures
            final(self).filter_query matches Some(q) && q@ == "[Find Results]"@,
            final(self).search_mode == SearchMode::Find,
            *final(self) == (PanelState {
                filter_query: final(self).filter_query,
                search_mode: final(self).search_mode,
                filtered_entries: final(self).filtered_entries,
                cursor: final(self).cursor,
                ..*old(self)
            }),
            final(self).filtered_entries == results,
            final(self).cursor == 0,
            final(self).entries == old(self).entries,
            final(self).selected == old(self).selected,
            final(self).path == old(self).path,
    {
        self.filter_query = Some(String::from_str("[Find Results]"));
        self.search_mode = SearchMode::Find;
        self.filtered_entries = results;
        self.cursor = 0;
    }

    /// Turns the filter off; cursor to the top.
    pub fn clear_filter(&mut self)
        ensures
            *final(self) == (PanelState {
                filter_query: None,
                filtered_entries: final(self).filtered_entries,
                search_mode: SearchMode::Off,
                cursor: 0,
                ..*old(self)
            }),
            final(self).filtered_entries@.len() == 0,
    {
        self.filter_query = None;
        self.filtered_entries = Vec::new();
        self.search_mode = SearchMode::Off;
        self.cursor = 0;
    }
}

/// The name starts with `.`.
fn starts_with_dot(name: &String) -> (r: bool)
    ensures
        r == (name@.len() > 0 && name@[0] == '.'),
{
    let cs = chars_of(name.as_str());
    cs.len() > 0 && cs[0] == '.'
}

proof fn lemma_file_total_prefix(listing: Seq<FileEntry>, i: nat, show_hidden: bool)
    requires
        i < listing.len(),
    ensures
        file_total(shown(listing.take(i + 1int), show_hidden)) <= file_total(shown(listing, show_hidden)),
        file_total(shown(listing.take(i + 1int), show_hidden)) == file_total(shown(listing.take(i as int), show_hidden))
            + if (show_hidden || !is_hidden(listing[i as int])) && !listing[i as int].is_dir {
                listing[i as int].size as int
            } else {
                0int
            },
{
    let keep = |e: FileEntry| !is_hidden(e);
    let x = listing[i as int];
    assert(listing.take(i + 1int) =~= listing.take(i as int).push(x));
    if !show_hidden {
        listing.take(i as int).lemma_filter_push(x, keep);
    }
    let a = shown(listing.take(i as int), show_hidden);
    assert(a.push(x).drop_last() =~= a);
    lemma_file_total_monotone(listing, (i + 1) as nat, show_hidden);
}

proof fn lemma_file_total_monotone(listing: Seq<FileEntry>, k: nat, show_hidden: bool)
    requires
        k <= listing.len(),
    ensures
        file_total(shown(listing.take(k as int), show_hidden)) <= file_total(shown(listing, show_hidden)),
    decreases listing.len() - k,
{
    if k < listing.len() {
        let keep = |e: FileEntry| !is_hidden(e);
        lemma_file_total_monotone(listing, k + 1, show_hidden);
        let x = listing[k as int];
        assert(listing.take(k + 1int) =~= listing.take(k as int).push(x));
        if !show_hidden {
            listing.take(k as int).lemma_filter_push(x, keep);
        }
        let a = shown(listing.take(k as int), show_hidden);
        assert(a.push(x).drop_last() =~= a);
    } else {
        assert(listing.take(k as int) =~= listing);
    }
}

} // verus!
