use std::collections::HashSet;

use hermes_tail::config::{MacrosStore, NotesStore};
use hermes_tail::fs::FileEntry;
use hermes_tail::fs::archive::ArchiveFs;
use hermes_tail::ops::search::{find_files_with_criteria, FoundEntry, SearchCriteria};
use hermes_tail::panel::{PanelState, SearchMode, SortBy};

const NOW: i64 = 1_778_932_800;
const DAY: i64 = 86_400;

fn entry(name: &str, is_dir: bool, size: u64, modified: i64) -> FileEntry {
    FileEntry {
        name: name.to_string(),
        path: name.to_string(),
        is_dir,
        size,
        modified,
        permissions: 0,
    }
}

fn setup_panel() -> PanelState {
    PanelState {
        path: "/".to_string(),
        entries: vec![
            entry("file3.txt", false, 300, NOW - DAY),
            entry("file1.txt", false, 100, NOW - 3 * DAY),
            entry("file2.txt", false, 200, NOW - 2 * DAY),
            entry("dir1", true, 0, NOW),
        ],
        cursor: 0,
        selected: HashSet::new(),
        sort_by: SortBy::Name,
        reverse: false,
        filter_query: None,
        filtered_entries: Vec::new(),
        search_mode: SearchMode::Off,
        archive_base: None,
        show_hidden: true,
        list_total_size: 0,
        recursive_total_size: None,
        is_calculating: false,
    }
}

#[test]
fn test_notes_store_logic() {
    let mut store = NotesStore::default();
    store.set_note("test.txt".to_string(), "hello".to_string(), vec!["tag1".to_string()]);

    let note = store.get_note("test.txt").unwrap();
    assert_eq!(note.memo, "hello");
    assert_eq!(note.tags[0], "tag1");
}

#[test]
fn test_macros_store_logic() {
    let mut store = MacrosStore::default();
    store.add("my_macro".to_string(), vec![]);

    assert_eq!(store.list(), vec!["my_macro".to_string()]);
    assert!(store.get("my_macro").is_some());
}

/// The entries a reader of the archive built as `file1.txt`, `dir1/`, `dir1/file2.txt` yields.
fn zip_entries() -> Vec<FileEntry> {
    vec![
        FileEntry { name: "file1.txt".to_string(), path: "file1.txt".to_string(), is_dir: false, size: 8, modified: 0, permissions: 0 },
        FileEntry { name: "dir1".to_string(), path: "dir1/".to_string(), is_dir: true, size: 0, modified: 0, permissions: 0 },
        FileEntry { name: "file2.txt".to_string(), path: "dir1/file2.txt".to_string(), is_dir: false, size: 8, modified: 0, permissions: 0 },
    ]
}

#[test]
fn test_zip_listing() {
    let fs = ArchiveFs::new("test.zip".to_string(), zip_entries()).ok().unwrap();

    // Root listing
    let entries = fs.list("");
    assert_eq!(entries.len(), 2);
    assert!(entries.iter().any(|e| e.name == "file1.txt"));
    assert!(entries.iter().any(|e| e.name == "dir1"));

    // Dir1 listing
    let entries = fs.list("dir1");
    assert_eq!(entries.len(), 1);
    assert_eq!(entries[0].name, "file2.txt");
}

#[test]
fn test_find_files_with_criteria() {
    let found = vec![FoundEntry {
        path: "/tmp/search/test_file.rs".to_string(),
        meta: Some((false, 14, NOW)),
    }];

    let criteria = SearchCriteria {
        pattern: Some("test".to_string()),
        extension: Some("rs".to_string()),
        ..Default::default()
    };

    let results = find_files_with_criteria(&found, &criteria);
    assert_eq!(results.len(), 1);
    assert_eq!(results[0].name, "test_file.rs");
}

#[test]
fn test_find_files_size_filter() {
    let found = vec![
        FoundEntry { path: "/tmp/search/small.txt".to_string(), meta: Some((false, 10, NOW)) },
        FoundEntry { path: "/tmp/search/large.txt".to_string(), meta: Some((false, 1000, NOW)) },
    ];

    let criteria = SearchCriteria {
        min_size: Some(500),
        ..Default::default()
    };

    let results = find_files_with_criteria(&found, &criteria);
    assert_eq!(results.len(), 1);
    assert_eq!(results[0].name, "large.txt");
}

#[test]
fn test_sorting() {
    let mut panel = setup_panel();

    // Sort by Name
    panel.sort_by = SortBy::Name;
    panel.apply_sort();
    assert_eq!(panel.entries[0].name, "dir1");
    assert_eq!(panel.entries[1].name, "file1.txt");
    assert_eq!(panel.entries[2].name, "file2.txt");
    assert_eq!(panel.entries[3].name, "file3.txt");

    // Sort by Size
    panel.sort_by = SortBy::Size;
    panel.apply_sort();
    assert_eq!(panel.entries[0].name, "dir1"); // size 0
    assert_eq!(panel.entries[1].name, "file1.txt"); // size 100
    assert_eq!(panel.entries[2].name, "file2.txt"); // size 200
    assert_eq!(panel.entries[3].name, "file3.txt"); // size 300

    // Reverse Sort
    panel.reverse = true;
    panel.apply_sort();
    assert_eq!(panel.entries[0].name, "file3.txt");
}

#[test]
fn test_quick_filter() {
    let mut panel = setup_panel();
    panel.apply_quick_filter("file");
    assert_eq!(panel.visible_entries().len(), 3);
    assert!(panel.visible_entries().iter().all(|e| e.name.contains("file")));

    panel.apply_quick_filter("file1");
    assert_eq!(panel.visible_entries().len(), 1);
    assert_eq!(panel.visible_entries()[0].name, "file1.txt");

    panel.clear_filter();
    assert_eq!(panel.visible_entries().len(), 4);
}

#[test]
fn test_wildcard_filter() {
    let mut panel = setup_panel();
    panel.apply_wildcard_filter("*.txt");
    assert_eq!(panel.visible_entries().len(), 3);

    panel.apply_wildcard_filter("dir*");
    assert_eq!(panel.visible_entries().len(), 1);
    assert_eq!(panel.visible_entries()[0].name, "dir1");
}

#[test]
fn test_selection() {
    let mut panel = setup_panel();
    panel.cursor = 1;
    panel.toggle_select();
    assert!(panel.selected.contains(&1));
    assert_eq!(panel.get_selected_entries().len(), 1);

    panel.select_all();
    assert_eq!(panel.selected.len(), 4);

    panel.clear_selection();
    assert_eq!(panel.selected.len(), 0);
}

#[test]
fn config_defaults_hide_dot_files_and_confirm_deletes() {
    let config = hermes_tail::config::Config::default();
    assert_eq!(config.ui.show_hidden, false);
    assert_eq!(config.behavior.confirm_delete, true);
}

#[test]
fn a_selection_under_a_filter_names_the_rows_shown() {
    let mut panel = setup_panel();
    panel.apply_quick_filter("file2");
    assert_eq!(panel.visible_entries().len(), 1);
    panel.cursor = 0;
    panel.toggle_select();
    let selected = panel.get_selected_entries();
    assert_eq!(selected.len(), 1);
    assert_eq!(selected[0].name, "file2.txt");
    panel.clear_filter();
    panel.select_all();
    assert_eq!(panel.get_selected_entries().len(), 4);
}
