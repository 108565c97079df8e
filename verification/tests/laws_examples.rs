use std::collections::HashSet;

use hermes_tail::app::App;
use hermes_tail::commands::{Command, PlannedOp};
use hermes_tail::config::{Config, MacrosStore, NotesStore};
use hermes_tail::dialog::DialogState;
use hermes_tail::fs::{FileEntry, LocalFs};
use hermes_tail::panel::{PanelState, SearchMode, SortBy};
use hermes_tail::sync::{analyze_sync, FileStamp};
use hermes_tail::text::{join_range, split_exec};

fn entry(name: &str, is_dir: bool, size: u64, modified: i64) -> FileEntry {
    FileEntry { name: name.to_string(), path: format!("/d/{}", name), is_dir, size, modified, permissions: 0 }
}

fn panel(entries: Vec<FileEntry>) -> PanelState {
    PanelState {
        path: "/d".to_string(),
        entries,
        cursor: 0,
        selected: HashSet::new(),
        sort_by: SortBy::Name,
        reverse: false,
        filter_query: None,
        filtered_entries: Vec::new(),
        search_mode: SearchMode::Off,
        archive_base: None,
        show_hidden: false,
        list_total_size: 0,
        recursive_total_size: None,
        is_calculating: false,
    }
}

fn three() -> Vec<FileEntry> {
    vec![entry("b.txt", false, 20, 2), entry("a.txt", false, 20, 1), entry("c", true, 0, 3)]
}

fn app() -> App {
    App::new(panel(three()), panel(vec![]), Config::default(), NotesStore::default(), MacrosStore::default())
}

#[test]
fn toggle_twice_restores_selection() {
    let mut p = panel(three());
    p.cursor = 2;
    p.toggle_select();
    assert!(p.selected.contains(&2));
    p.toggle_select();
    assert!(p.selected.is_empty());
}

#[test]
fn switch_twice_restores_active_panel() {
    let mut a = app();
    assert!(a.active_panel);
    a.handle_command(Command::SwitchPanel);
    assert!(!a.active_panel);
    a.handle_command(Command::SwitchPanel);
    assert!(a.active_panel);
}

#[test]
fn clearing_a_filter_shows_the_listing() {
    let mut p = panel(three());
    p.apply_quick_filter("A.");
    assert_eq!(p.visible_entries().len(), 1);
    assert_eq!(p.visible_entries()[0].name, "a.txt");
    p.clear_filter();
    assert_eq!(p.visible_entries().len(), 3);
    assert!(p.filter_query.is_none());
}

#[test]
fn typing_then_erasing_restores_input() {
    let mut d = DialogState::new_rename("name".to_string());
    d.cursor = 2;
    d.insert_char('x');
    assert_eq!(d.input, "naxme");
    assert_eq!(d.cursor, 3);
    d.backspace();
    assert_eq!(d.input, "name");
    assert_eq!(d.cursor, 2);
}

#[test]
fn saved_macro_is_found_and_others_kept() {
    let mut store = MacrosStore::default();
    store.add("one".to_string(), vec![PlannedOp::Mkdir { path: "/x".to_string() }]);
    store.add("two".to_string(), vec![]);
    store.add("one".to_string(), vec![PlannedOp::Delete { path: "/y".to_string() }]);
    let got = store.get("one").unwrap();
    assert_eq!(got.len(), 1);
    assert!(matches!(&got[0], PlannedOp::Delete { path } if path == "/y"));
    assert_eq!(store.get("two").unwrap().len(), 0);
    assert!(store.get("three").is_none());
    assert_eq!(store.list(), vec!["one".to_string(), "two".to_string()]);
}

#[test]
fn macros_round_trip_through_entries() {
    let mut store = MacrosStore::default();
    store.add("b".to_string(), vec![PlannedOp::Mkdir { path: "/m".to_string() }]);
    store.add("a".to_string(), vec![]);
    let back = MacrosStore::from_entries(store.entries());
    assert_eq!(back.list(), store.list());
    assert_eq!(back.get("b").unwrap().len(), 1);
}

#[test]
fn saved_note_is_found_and_others_kept() {
    let mut store = NotesStore::default();
    store.set_note("/a".to_string(), "first".to_string(), vec![]);
    store.set_note("/b".to_string(), "memo #x".to_string(), vec!["x".to_string()]);
    store.set_note("/a".to_string(), "second".to_string(), vec!["t".to_string()]);
    assert_eq!(store.get_note("/a").unwrap().memo, "second");
    assert_eq!(store.get_note("/a").unwrap().tags, vec!["t".to_string()]);
    assert_eq!(store.get_note("/b").unwrap().memo, "memo #x");
    assert!(store.get_note("/c").is_none());
}

#[test]
fn notes_round_trip_through_entries() {
    let mut store = NotesStore::default();
    store.set_note("/a".to_string(), "m".to_string(), vec!["t".to_string()]);
    let back = NotesStore::from_entries(store.entries());
    assert_eq!(back.get_note("/a").unwrap().memo, "m");
    assert_eq!(back.get_note("/a").unwrap().tags, vec!["t".to_string()]);
}

#[test]
fn sorting_twice_gives_the_same_order() {
    let mut p = panel(three());
    p.sort_by = SortBy::Size;
    p.apply_sort();
    let first: Vec<String> = p.entries.iter().map(|e| e.name.clone()).collect();
    // equal sizes keep their listing order
    assert_eq!(first, vec!["c", "b.txt", "a.txt"]);
    p.apply_sort();
    let second: Vec<String> = p.entries.iter().map(|e| e.name.clone()).collect();
    assert_eq!(first, second);
}

#[test]
fn local_listing_puts_folders_first_then_names() {
    let listed = LocalFs::order_listing(vec![
        entry("b", false, 1, 0),
        entry("z", true, 0, 0),
        entry("a", false, 1, 0),
        entry("m", true, 0, 0),
    ]);
    let names: Vec<&str> = listed.iter().map(|e| e.name.as_str()).collect();
    assert_eq!(names, vec!["m", "z", "a", "b"]);
}

fn stamp(p: &str, size: u64, modified: u64) -> FileStamp {
    FileStamp { relative_path: p.to_string(), size, modified }
}

#[test]
fn sync_reports_each_path_once() {
    let left = vec![stamp("a", 1, 1), stamp("b", 2, 2), stamp("c", 3, 3)];
    let right = vec![stamp("b", 2, 2), stamp("c", 4, 3), stamp("d", 5, 5)];
    let r = analyze_sync("/l".to_string(), "/r".to_string(), left, right);
    let names = |v: &Vec<hermes_tail::sync::DiffEntry>| v.iter().map(|d| d.relative_path.clone()).collect::<Vec<_>>();
    assert_eq!(names(&r.only_left), vec!["a"]);
    assert_eq!(names(&r.only_right), vec!["d"]);
    assert_eq!(names(&r.different), vec!["c"]);
    assert_eq!(r.same_count, 1);
}

#[test]
fn sync_with_itself_finds_no_difference() {
    let files = || vec![stamp("x/y", 1, 1), stamp("z", 2, 2)];
    let r = analyze_sync("/l".to_string(), "/l".to_string(), files(), files());
    assert!(r.only_left.is_empty() && r.only_right.is_empty() && r.different.is_empty());
    assert_eq!(r.same_count, 2);
}

#[test]
fn splitting_then_joining_gives_the_text() {
    for text in ["", "a", "a,b", ",,", "x,,y,"] {
        let cs: Vec<char> = text.chars().collect();
        let parts = split_exec(&cs, ',');
        let joined = join_range(&parts, 0, parts.len(), ',');
        assert_eq!(joined.iter().collect::<String>(), text);
    }
}

#[test]
fn small_sizes_are_in_bytes() {
    assert_eq!(FileEntry::format_size(0), "0 B");
    assert_eq!(FileEntry::format_size(512), "512 B");
    assert_eq!(FileEntry::format_size(1023), "1023 B");
}
