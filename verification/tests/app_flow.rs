use std::collections::HashSet;

use hermes_tail::app::{AiTask, App, AppMode, DialogWork, Effect};
use hermes_tail::commands::{Command, PlannedOp};
use hermes_tail::config::{Config, MacrosStore, NotesStore};
use hermes_tail::dialog::DialogKind;
use hermes_tail::events::{handle_dialog_event, handle_key_event, InputEvent, KeyCode, KeyInput};
use hermes_tail::fs::FileEntry;
use hermes_tail::panel::{PanelState, SearchMode, SortBy};

fn entry(dir: &str, name: &str, is_dir: bool, size: u64) -> FileEntry {
    FileEntry { name: name.to_string(), path: format!("{}/{}", dir, name), is_dir, size, modified: 0, permissions: 0 }
}

fn panel(path: &str, entries: Vec<FileEntry>) -> PanelState {
    PanelState {
        path: path.to_string(),
        entries,
        cursor: 0,
        selected: HashSet::new(),
        sort_by: SortBy::Name,
        reverse: false,
        filter_query: None,
        filtered_entries: Vec::new(),
        search_mode: SearchMode::Off,
        archive_base: None,
        show_hidden: false,
        list_total_size: 0,
        recursive_total_size: None,
        is_calculating: false,
    }
}

fn app() -> App {
    let left = panel("/l", vec![entry("/l", "docs", true, 0), entry("/l", "a.txt", false, 3), entry("/l", "b.rs", false, 4)]);
    let right = panel("/r", vec![]);
    App::new(left, right, Config::default(), NotesStore::default(), MacrosStore::default())
}

fn key(c: KeyCode) -> KeyInput {
    KeyInput { code: c, ctrl: false, alt: false, shift: false }
}

fn type_text(a: &mut App, text: &str) {
    for c in text.chars() {
        let cmd = handle_dialog_event(InputEvent::Key(key(KeyCode::Char(c))), &mut a.dialog);
        a.handle_command(cmd);
    }
}

#[test]
fn keys_map_to_commands() {
    assert!(matches!(handle_key_event(key(KeyCode::F(5))), Command::Copy));
    assert!(matches!(handle_key_event(KeyInput { code: KeyCode::F(5), ctrl: false, alt: true, shift: false }), Command::Pack));
    assert!(matches!(handle_key_event(KeyInput { code: KeyCode::F(6), ctrl: false, alt: false, shift: true }), Command::Rename));
    assert!(matches!(handle_key_event(KeyInput { code: KeyCode::Char('q'), ctrl: true, alt: false, shift: false }), Command::Quit));
    assert!(matches!(handle_key_event(key(KeyCode::Esc)), Command::Quit));
    assert!(matches!(handle_key_event(KeyInput { code: KeyCode::Char('g'), ctrl: false, alt: true, shift: false }), Command::AiSummarize));
    assert!(matches!(handle_key_event(key(KeyCode::Char('='))), Command::Filter));
    assert!(matches!(handle_key_event(key(KeyCode::Char('k'))), Command::QuickSearch('k')));
    assert!(matches!(handle_key_event(KeyInput { code: KeyCode::Char('k'), ctrl: true, alt: false, shift: false }), Command::Noop));
    assert!(matches!(handle_key_event(key(KeyCode::Tab)), Command::SwitchPanel));
}

#[test]
fn copy_dialog_offers_the_other_panel() {
    let mut a = app();
    a.handle_command(Command::Copy);
    assert_eq!(a.mode, AppMode::Dialog);
    let d = a.dialog.as_ref().unwrap();
    assert_eq!(d.kind, DialogKind::Copy);
    assert_eq!(d.input, "/r");
    assert_eq!(d.cursor, 2);
    assert_eq!(d.message, "📋 1 개 항목을 복사합니다");
}

#[test]
fn confirming_a_copy_plans_copies_into_the_folder() {
    let mut a = app();
    a.left_panel.selected.insert(1);
    a.left_panel.selected.insert(2);
    a.recording = Some(vec![]);
    a.handle_command(Command::Copy);
    assert_eq!(a.dialog.as_ref().unwrap().message, "📋 2 개 항목을 복사합니다");
    let e = a.handle_command(Command::ConfirmDialog);
    let work = match e {
        Effect::Confirmed { work, refresh: true } => work,
        other => panic!("unexpected {:?}", other),
    };
    match &work {
        DialogWork::Files { ops, clears_selection: true } => {
            assert_eq!(ops.len(), 2);
            assert!(matches!(&ops[0], PlannedOp::Copy { from, to } if from == "/l/a.txt" && to == "/r/a.txt"));
            assert!(matches!(&ops[1], PlannedOp::Copy { from, to } if from == "/l/b.rs" && to == "/r/b.rs"));
        },
        other => panic!("unexpected {:?}", other),
    }
    assert!(a.dialog.is_none());
    assert_eq!(a.mode, AppMode::Normal);
    // Nothing is recorded or unselected before the copies have been made.
    assert_eq!(a.left_panel.selected.len(), 2);
    assert_eq!(a.recording.as_ref().unwrap().len(), 0);
    a.work_done(&work);
    assert!(a.left_panel.selected.is_empty());
    assert_eq!(a.recording.as_ref().unwrap().len(), 2);
}

#[test]
fn a_failed_delete_keeps_the_selection_and_records_nothing() {
    let mut a = app();
    a.left_panel.selected.insert(1);
    a.recording = Some(vec![]);
    a.handle_command(Command::Delete);
    match a.handle_command(Command::ConfirmDialog) {
        Effect::Confirmed { work: DialogWork::Files { ops, clears_selection: true }, refresh: true } => {
            assert!(matches!(&ops[0], PlannedOp::Delete { path } if path == "/l/a.txt"));
        },
        other => panic!("unexpected {:?}", other),
    }
    // The deletion failed, so `work_done` is never called.
    assert_eq!(a.left_panel.selected.len(), 1);
    assert_eq!(a.recording.as_ref().unwrap().len(), 0);
}

#[test]
fn a_made_folder_is_recorded_without_touching_the_selection() {
    let mut a = app();
    a.left_panel.selected.insert(1);
    a.recording = Some(vec![]);
    a.handle_command(Command::Mkdir);
    for c in "new".chars() {
        a.command_for_event(InputEvent::Key(key(KeyCode::Char(c))));
    }
    let work = match a.handle_command(Command::ConfirmDialog) {
        Effect::Confirmed { work, refresh: true } => work,
        other => panic!("unexpected {:?}", other),
    };
    assert!(matches!(&work, DialogWork::Files { ops, clears_selection: false } if matches!(&ops[0], PlannedOp::Mkdir { path } if path == "/l/new")));
    a.work_done(&work);
    assert_eq!(a.left_panel.selected.len(), 1);
    assert_eq!(a.recording.as_ref().unwrap().len(), 1);
}

#[test]
fn refresh_lists_the_active_panel_again_and_starts_its_size() {
    let mut a = app();
    match a.handle_command(Command::Refresh) {
        Effect::Relist { is_left: true, size: true } => {},
        other => panic!("unexpected {:?}", other),
    }
    assert!(a.left_panel.is_calculating);
    match a.handle_command(Command::Refresh) {
        Effect::Relist { is_left: true, size: false } => {},
        other => panic!("unexpected {:?}", other),
    }
}

#[test]
fn toggling_hidden_files_carries_the_new_setting() {
    let mut a = app();
    let before = a.config.ui.show_hidden;
    match a.handle_command(Command::ToggleHidden) {
        Effect::RelistBoth { show_hidden } => assert_eq!(show_hidden, !before),
        other => panic!("unexpected {:?}", other),
    }
    assert_eq!(a.config.ui.show_hidden, !before);
}

#[test]
fn confirming_a_delete_of_the_cursor_entry() {
    let mut a = app();
    a.left_panel.cursor = 2;
    a.handle_command(Command::Delete);
    let e = a.handle_command(Command::ConfirmDialog);
    match e {
        Effect::Confirmed { work: DialogWork::Files { ops, .. }, .. } => {
            assert_eq!(ops.len(), 1);
            assert!(matches!(&ops[0], PlannedOp::Delete { path } if path == "/l/b.rs"));
        },
        other => panic!("unexpected {:?}", other),
    }
}

#[test]
fn mkdir_joins_the_panel_folder() {
    let mut a = app();
    a.handle_command(Command::Mkdir);
    type_text(&mut a, "new");
    let e = a.handle_command(Command::ConfirmDialog);
    match e {
        Effect::Confirmed { work: DialogWork::Files { ops, .. }, .. } => {
            assert!(matches!(&ops[0], PlannedOp::Mkdir { path } if path == "/l/new"));
        },
        other => panic!("unexpected {:?}", other),
    }
}

#[test]
fn recording_then_saving_a_macro() {
    let mut a = app();
    a.handle_command(Command::MacroRecord);
    assert!(a.recording.is_some());
    a.handle_command(Command::Mkdir);
    type_text(&mut a, "m");
    match a.handle_command(Command::ConfirmDialog) {
        Effect::Confirmed { work, .. } => a.work_done(&work),
        other => panic!("unexpected {:?}", other),
    }
    a.handle_command(Command::MacroRecord);
    assert_eq!(a.dialog.as_ref().unwrap().kind, DialogKind::SaveMacro);
    type_text(&mut a, "mk");
    let e = a.handle_command(Command::ConfirmDialog);
    assert!(matches!(e, Effect::SaveMacros));
    assert_eq!(a.macros.list(), vec!["mk".to_string()]);
    assert_eq!(a.mode, AppMode::Normal);

    a.handle_command(Command::MacroRun);
    type_text(&mut a, "mk");
    a.handle_command(Command::ConfirmDialog);
    assert_eq!(a.mode, AppMode::AiCommandConfirm);
    assert_eq!(a.ai_command_state.as_ref().unwrap().ops.len(), 1);
    let e = a.handle_command(Command::AiCommandConfirm);
    assert!(matches!(e, Effect::RunOps(ref ops) if ops.len() == 1));
    assert_eq!(a.mode, AppMode::Normal);
}

#[test]
fn stopping_an_empty_recording_asks_nothing() {
    let mut a = app();
    a.handle_command(Command::MacroRecord);
    a.handle_command(Command::MacroRecord);
    assert!(a.recording.is_none());
    assert!(a.dialog.is_none());
}

#[test]
fn macro_list_text() {
    let mut a = app();
    a.handle_command(Command::MacroList);
    assert_eq!(a.mode, AppMode::AiChat);
    let lines: Vec<String> = a.ai_state.as_ref().unwrap().lines.iter().map(|l| l.raw.clone()).collect();
    assert_eq!(lines, vec!["저장된 매크로가 없습니다.", "", "Ctrl+R로 새 매크로를 녹화해주세요."]);
}

#[test]
fn a_note_keeps_its_tags() {
    let mut a = app();
    a.left_panel.cursor = 1;
    a.handle_command(Command::AiAddNote);
    assert_eq!(a.dialog.as_ref().unwrap().message, "📝 파일 메모/태그: /l/a.txt");
    type_text(&mut a, "check #todo later #x");
    let e = a.handle_command(Command::ConfirmDialog);
    assert!(matches!(e, Effect::Confirmed { work: DialogWork::SaveNotes, refresh: true }));
    let n = a.notes.get_note("/l/a.txt").unwrap();
    assert_eq!(n.memo, "check #todo later #x");
    assert_eq!(n.tags, vec!["todo".to_string(), "x".to_string()]);
}

#[test]
fn natural_search_goes_to_the_assistant() {
    let mut a = app();
    a.handle_command(Command::Find);
    type_text(&mut a, "일주일 전 파일");
    let e = a.handle_command(Command::ConfirmDialog);
    match e {
        Effect::Confirmed { work: DialogWork::Ai(AiTask::SmartSearch { query, root }), refresh: true } => {
            assert_eq!(query, "일주일 전 파일");
            assert_eq!(root, "/l");
        },
        other => panic!("unexpected {:?}", other),
    }
    assert_eq!(a.mode, AppMode::Normal);
    assert!(a.ai_state.as_ref().unwrap().is_loading);
    assert_eq!(a.ai_state.as_ref().unwrap().query, "🔍 스마트 검색 해석 중: \"일주일 전 파일\"");
}

#[test]
fn name_search_is_done_by_name() {
    let mut a = app();
    a.handle_command(Command::Find);
    type_text(&mut a, "main");
    let e = a.handle_command(Command::ConfirmDialog);
    assert!(matches!(e, Effect::Confirmed { work: DialogWork::FindFiles { ref root, ref query }, refresh: true } if root == "/l" && query == "main"));
}

#[test]
fn a_command_goes_to_the_assistant_with_the_listing() {
    let mut a = app();
    a.handle_command(Command::AiNaturalCommand);
    type_text(&mut a, "tidy");
    let e = a.handle_command(Command::ConfirmDialog);
    match e {
        Effect::Confirmed { work: DialogWork::Ai(AiTask::InterpretCommand { command, current_dir, listing }), refresh: false } => {
            assert_eq!(command, "tidy");
            assert_eq!(current_dir, "/l");
            assert_eq!(listing, "docs (DIR)\na.txt (FILE)\nb.rs (FILE)");
        },
        other => panic!("unexpected {:?}", other),
    }
    assert_eq!(a.mode, AppMode::AiChat);
}

#[test]
fn ai_summary_needs_a_file() {
    let mut a = app();
    let e = a.handle_command(Command::AiSummarize);
    assert!(matches!(e, Effect::Done));
    assert!(a.ai_state.is_none());
    a.left_panel.cursor = 1;
    let e = a.handle_command(Command::AiSummarize);
    assert!(matches!(e, Effect::StartAi(AiTask::Summarize { ref path }) if path == "/l/a.txt"));
    assert_eq!(a.mode, AppMode::AiChat);
}

#[test]
fn image_info_rejects_other_files() {
    let mut a = app();
    a.left_panel.cursor = 1;
    let e = a.handle_command(Command::AiImageInfo);
    assert!(matches!(e, Effect::Done));
    let lines: Vec<String> = a.ai_state.as_ref().unwrap().lines.iter().map(|l| l.raw.clone()).collect();
    assert_eq!(lines, vec!["❌ 오류: 이미지 파일을 선택해주세요"]);
}

#[test]
fn file_diff_needs_two_selected_files() {
    let mut a = app();
    a.handle_command(Command::AiFileDiff);
    let lines: Vec<String> = a.ai_state.as_ref().unwrap().lines.iter().map(|l| l.raw.clone()).collect();
    assert_eq!(lines, vec!["❌ 오류: 비교할 파일 2개를 선택하세요 (Insert)"]);
    a.left_panel.selected.insert(1);
    a.left_panel.selected.insert(2);
    let e = a.handle_command(Command::AiFileDiff);
    assert!(matches!(e, Effect::StartAi(AiTask::FileDiff { ref path1, ref path2 }) if path1 == "/l/a.txt" && path2 == "/l/b.rs"));
}

#[test]
fn quick_search_filters_the_active_panel() {
    let mut a = app();
    a.handle_command(Command::QuickSearch('b'));
    assert_eq!(a.mode, AppMode::Search);
    assert_eq!(a.left_panel.visible_entries().len(), 1);
    a.handle_command(Command::SearchBackspace);
    assert_eq!(a.left_panel.visible_entries().len(), 3);
    a.handle_command(Command::SearchCancel);
    assert_eq!(a.mode, AppMode::Normal);
}

#[test]
fn parsed_commands_wait_for_confirmation() {
    let mut a = app();
    a.handle_command(Command::AiCommandParsed(vec![]));
    let lines: Vec<String> = a.ai_state.as_ref().unwrap().lines.iter().map(|l| l.raw.clone()).collect();
    assert_eq!(lines, vec!["❌ 오류: 파싱된 작업이 없습니다"]);
    a.handle_command(Command::AiCommandParsed(vec![PlannedOp::Delete { path: "/x".to_string() }]));
    assert_eq!(a.mode, AppMode::AiCommandConfirm);
    a.handle_command(Command::AiCommandCancel);
    assert!(a.ai_command_state.is_none());
    assert_eq!(a.mode, AppMode::Normal);
}

#[test]
fn quitting_remembers_both_folders() {
    let mut a = app();
    let e = a.handle_command(Command::Quit);
    assert!(matches!(e, Effect::SaveConfig));
    assert!(a.should_quit);
    assert_eq!(a.config.history.last_left_path.as_deref(), Some("/l"));
    assert_eq!(a.config.history.last_right_path.as_deref(), Some("/r"));
}

#[test]
fn entering_a_folder_or_an_archive() {
    let mut a = app();
    assert!(matches!(a.handle_command(Command::Navigate), Effect::EnterDir(ref p) if p == "/l/docs"));
    a.left_panel.entries.push(entry("/l", "z.tar.gz", false, 1));
    a.left_panel.cursor = 3;
    assert!(matches!(a.handle_command(Command::Navigate), Effect::OpenArchive(ref p) if p == "/l/z.tar.gz"));
    a.left_panel.cursor = 1;
    assert!(matches!(a.handle_command(Command::Navigate), Effect::Done));
}

#[test]
fn events_are_read_by_the_mode_in_force() {
    let mut a = app();
    assert!(matches!(a.command_for_event(InputEvent::Key(key(KeyCode::Char('x')))), Command::QuickSearch('x')));
    assert!(matches!(a.command_for_event(InputEvent::Other), Command::Noop));
    a.mode = AppMode::Help;
    assert!(matches!(a.command_for_event(InputEvent::Other), Command::CancelDialog));
    a.mode = AppMode::Search;
    assert!(matches!(a.command_for_event(InputEvent::Key(key(KeyCode::Char('x')))), Command::SearchInput('x')));
    a.mode = AppMode::Viewer;
    assert!(matches!(a.command_for_event(InputEvent::Key(key(KeyCode::Char('q')))), Command::CancelDialog));
    a.mode = AppMode::Normal;
    a.handle_command(Command::Mkdir);
    assert_eq!(a.mode, AppMode::Dialog);
    assert!(matches!(a.command_for_event(InputEvent::Key(key(KeyCode::Char('n')))), Command::Noop));
    assert_eq!(a.dialog.as_ref().unwrap().input, "n");
    assert!(matches!(a.command_for_event(InputEvent::Key(key(KeyCode::Enter))), Command::ConfirmDialog));
}

#[test]
fn a_copy_under_a_filter_takes_the_marked_row() {
    let mut a = app();
    a.left_panel.apply_quick_filter("b.rs");
    a.left_panel.selected.insert(0);
    a.handle_command(Command::Copy);
    match a.handle_command(Command::ConfirmDialog) {
        Effect::Confirmed { work: DialogWork::Files { ops, .. }, .. } => {
            assert_eq!(ops.len(), 1);
            assert!(matches!(&ops[0], PlannedOp::Copy { from, .. } if from == "/l/b.rs"));
        },
        other => panic!("unexpected {:?}", other),
    }
}
