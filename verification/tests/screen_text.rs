use hermes_tail::ai::{AiCommandState, AiState};
use hermes_tail::commands::PlannedOp;
use hermes_tail::dialog::DialogKind;
use hermes_tail::fs::FileEntry;
use hermes_tail::panel::PanelState;
use hermes_tail::view;

fn entry(name: &str, is_dir: bool, size: u64) -> FileEntry {
    FileEntry {
        name: name.to_string(),
        path: format!("/data/{}", name),
        is_dir,
        size,
        modified: 0,
        permissions: 0o644,
    }
}

#[test]
fn panel_rows_are_laid_out_in_columns() {
    let e = entry("notes.txt", false, 2048);
    let row = view::panel_row(&e, false, true, 12, "2024-01-02 03:04");
    assert_eq!(row, "[>] 📄 notes.txt        2.0 K  2024-01-02 03:04");
    let d = entry("src", true, 0);
    let row = view::panel_row(&d, true, false, 5, "T");
    assert_eq!(row, "[✓] 📁 src       <DIR>  T");
    let plain = view::panel_row(&e, false, false, 9, "");
    assert!(plain.starts_with("    📄 notes.txt  "));
}

#[test]
fn long_names_end_in_an_ellipsis() {
    let e = entry("a_very_long_file_name.rs", false, 10);
    let row = view::panel_row(&e, false, false, 6, "t");
    assert_eq!(row, "    📄 a_ver…      10 B  t");
    let row = view::panel_row(&e, false, false, 0, "t");
    assert_eq!(row, "    📄 …      10 B  t");
}

#[test]
fn name_width_leaves_room_for_the_fixed_columns() {
    assert_eq!(view::name_width(80), 41);
    assert_eq!(view::name_width(39), 0);
    assert_eq!(view::name_width(10), 0);
}

#[test]
fn status_halves_count_items_and_selection() {
    let mut p = PanelState::new("/data".to_string(), vec![entry("a", false, 100), entry("b", false, 200)]);
    assert_eq!(view::left_status(&p), "📁 /data | 2 items | 0 selected | Total: 300 B");
    assert_eq!(view::right_status(&p), "Total: 300 B | 0 selected | 2 items | 📁 /data");
    p.recursive_total_size = Some(4096);
    assert_eq!(view::left_status(&p), "📁 /data | 2 items | 0 selected | Total: 4.0 K");
    p.recursive_total_size = None;
    p.is_calculating = true;
    assert_eq!(view::right_status(&p), "Total: ... (300 B) | 0 selected | 2 items | 📁 /data");
    assert_eq!(view::panel_title(&p, true), " ▶ /data ◀ ");
    assert_eq!(view::panel_title(&p, false), " /data ");
}

#[test]
fn waiting_operations_are_listed_with_the_current_one_marked() {
    let ops = vec![
        PlannedOp::Delete { path: "/tmp/a.log".to_string() },
        PlannedOp::Move { from: "/tmp/b.png".to_string(), to: "/tmp/images".to_string() },
    ];
    assert_eq!(view::op_line(&ops[0], true), "→ 🗑️  삭제: /tmp/a.log");
    assert_eq!(view::op_line(&ops[1], false), "  📦 이동: /tmp/b.png → /tmp/images");
    let state = AiCommandState::new(ops);
    assert_eq!(view::confirm_status(&state), "[Y] 실행  [N] 취소  [↑↓] 스크롤  총 2 개 작업  선택: 1 / 2");
}

#[test]
fn assistant_status_reflects_its_state() {
    let loading = AiState::loading("q".to_string());
    assert_eq!(view::ai_status(&loading), "⏳ 처리 중... (ESC/q로 취소)");
    let shown = AiState::new("one\ntwo\nthree".to_string());
    assert_eq!(view::ai_status(&shown), "✓ 스크롤: ↑↓ | 페이지: PgUp/PgDn | 닫기: ESC/q (1/3)");
    let failed = AiState::new("❌ 연결 실패".to_string());
    assert_eq!(view::ai_status(&failed), "❌ 오류 발생 (↑↓ 스크롤, PgUp/PgDn 페이지, ESC/q 닫기)");
}

#[test]
fn dialogs_have_titles_and_labels() {
    assert_eq!(view::dialog_title(DialogKind::Copy), "  📋 파일 복사  ");
    assert_eq!(view::dialog_title(DialogKind::RunMacro), "  ▶️  매크로 실행  ");
    assert_eq!(view::dialog_label(DialogKind::Move), "대상 경로:");
    assert_eq!(view::dialog_label(DialogKind::Delete), "");
}

#[test]
fn viewer_title_and_position() {
    let v = hermes_tail::viewer::ViewerState::new("/tmp/a.txt".to_string(), "x\ny\nz", 5, 80, 20).ok().unwrap();
    assert_eq!(view::viewer_title(&v), " - /tmp/a.txt [WRAP]");
    assert_eq!(view::viewer_position(&v), " Line: 1/3 ");
}

#[test]
fn listings_fit_while_their_shown_sizes_add_up_in_u64() {
    let big = vec![entry("a", false, u64::MAX), entry("b", false, 1)];
    assert!(!PanelState::fits(false, &big));
    let hidden = vec![entry("a", false, u64::MAX), entry(".b", false, 1)];
    assert!(PanelState::fits(false, &hidden));
    assert!(!PanelState::fits(true, &hidden));
    let dirs = vec![entry("a", false, u64::MAX), entry("d", true, 7)];
    assert!(PanelState::fits(true, &dirs));
}

#[test]
fn input_box_marks_the_cursor_cell() {
    let mut d = hermes_tail::dialog::DialogState::new_rename("ab".to_string());
    assert_eq!(view::input_cells(&d), vec![('a', false), ('b', false), (' ', true)]);
    d.cursor_left();
    assert_eq!(view::input_cells(&d), vec![('a', false), ('b', true)]);
    assert_eq!(view::dialog_error_line(&d), None);
    d.error = Some("이미 존재합니다".to_string());
    assert_eq!(view::dialog_error_line(&d), Some("❌ 이미 존재합니다".to_string()));
}
