//! The text the screen shows: panel rows, status lines, the list of waiting operations,
//! the assistant's status line, dialog titles. Drawing it is the caller's part.

use vstd::prelude::*;
use crate::commands::{PlannedOp, OpView, op_view};
use crate::dialog::{DialogKind, DialogState};
use crate::fs::{FileEntry, size_text, size_string};
use crate::panel::PanelState;
use crate::ai::{AiState, AiCommandState};
use crate::viewer::ViewerState;
use crate::text::{decimal, push_str, push_char, push_decimal, chars_of, string_of, starts_with};

verus! {

/// A line of the list of waiting operations.
pub open spec fn op_line_text(op: OpView) -> Seq<char> {
    match op {
        OpView::Delete(p) => "🗑️  삭제: "@ + p,
        OpView::Move(a, b) => "📦 이동: "@ + a + " → "@ + b,
        OpView::Copy(a, b) => "📄 복사: "@ + a + " → "@ + b,
        OpView::Mkdir(p) => "📁 폴더 생성: "@ + p,
        OpView::Rename(a, b) => "✏️  이름 변경: "@ + a + " → "@ + b,
    }
}

/// How a waiting operation is listed (see `op_line_text`), marked with an arrow when it is
/// the one scrolled to.
pub fn op_line(op: &PlannedOp, current: bool) -> (s: String)
    ensures
        s@ == (if current { "→ "@ } else { "  "@ }) + op_line_text(op_view(*op)),
{
    let mut s = if current { String::from_str("→ ") } else { String::from_str("  ") };
    match op {
        PlannedOp::Delete { path } => {
            push_str(&mut s, "🗑️  삭제: ");
            push_str(&mut s, path.as_str());
        },
        PlannedOp::Move { from, to } => {
            push_str(&mut s, "📦 이동: ");
            push_str(&mut s, from.as_str());
            push_str(&mut s, " → ");
            push_str(&mut s, to.as_str());
        },
        PlannedOp::Copy { from, to } => {
            push_str(&mut s, "📄 복사: ");
            push_str(&mut s, from.as_str());
            push_str(&mut s, " → ");
            push_str(&mut s, to.as_str());
        },
        PlannedOp::Mkdir { path } => {
            push_str(&mut s, "📁 폴더 생성: ");
            push_str(&mut s, path.as_str());
        },
        PlannedOp::Rename { from, to } => {
            push_str(&mut s, "✏️  이름 변경: ");
            push_str(&mut s, from.as_str());
            push_str(&mut s, " → ");
            push_str(&mut s, to.as_str());
        },
    }
    s
}

/// The status line under the waiting operations: how many there are and which is shown.
pub fn confirm_status(state: &AiCommandState) -> (s: String)
    ensures
        s@ == "[Y] 실행  [N] 취소  [↑↓] 스크롤  총 "@ + decimal(state.ops@.len()) + " 개 작업  선택: "@
            + decimal((state.scroll + 1) as nat) + " / "@ + decimal(state.ops@.len()),
{
    let n = state.ops.len();
    let mut s = String::from_str("[Y] 실행  [N] 취소  [↑↓] 스크롤  총 ");
    push_decimal(&mut s, n as u64);
    push_str(&mut s, " 개 작업  선택: ");
    push_decimal(&mut s, state.scroll as u64 + 1);
    push_str(&mut s, " / ");
    push_decimal(&mut s, n as u64);
    s
}

/// The assistant's status line: waiting, an error shown, or where the view is.
pub open spec fn ai_status_text(state: AiState) -> Seq<char> {
    if state.is_loading {
        "⏳ 처리 중... (ESC/q로 취소)"@
    } else if state.lines@.len() > 0 && starts_with(state.lines@[0].raw@, "❌"@) {
        "❌ 오류 발생 (↑↓ 스크롤, PgUp/PgDn 페이지, ESC/q 닫기)"@
    } else {
        let n = state.lines@.len() as u16;
        "✓ 스크롤: ↑↓ | 페이지: PgUp/PgDn | 닫기: ESC/q ("@ + decimal((state.scroll + 1) as nat) + "/"@
            + decimal(if n > 1 { n as nat } else { 1 }) + ")"@
    }
}

/// The assistant's status line (see `ai_status_text`).
pub fn ai_status(state: &AiState) -> (s: String)
    ensures
        s@ == ai_status_text(*state),
{
    if state.is_loading {
        return String::from_str("⏳ 처리 중... (ESC/q로 취소)");
    }
    if state.lines.len() > 0 {
        let first = chars_of(state.lines[0].raw.as_str());
        let mark = chars_of("❌");
        if crate::text::starts_with_exec(&first, &mark) {
            return String::from_str("❌ 오류 발생 (↑↓ 스크롤, PgUp/PgDn 페이지, ESC/q 닫기)");
        }
    }
    let n = state.lines.len() as u16;
    let total: u16 = if n > 1 { n } else { 1 };
    let mut s = String::from_str("✓ 스크롤: ↑↓ | 페이지: PgUp/PgDn | 닫기: ESC/q (");
    push_decimal(&mut s, state.scroll as u64 + 1);
    push_str(&mut s, "/");
    push_decimal(&mut s, total as u64);
    push_str(&mut s, ")");
    s
}

/// A panel's total: the folder's computed size, or the listed files' total (noted as
/// provisional while the folder's size is being computed).
pub open spec fn total_text(p: PanelState) -> Seq<char> {
    match p.recursive_total_size {
        Some(s) => "Total: "@ + size_text(s as nat),
        None => if p.is_calculating {
            "Total: ... ("@ + size_text(p.list_total_size as nat) + ")"@
        } else {
            "Total: "@ + size_text(p.list_total_size as nat)
        },
    }
}

fn total_string(p: &PanelState) -> (s: String)
    ensures
        s@ == total_text(*p),
{
    match p.recursive_total_size {
        Some(n) => {
            let mut s = String::from_str("Total: ");
            push_str(&mut s, size_string(n).as_str());
            s
        },
        None => {
            if p.is_calculating {
                let mut s = String::from_str("Total: ... (");
                push_str(&mut s, size_string(p.list_total_size).as_str());
                push_str(&mut s, ")");
                s
            } else {
                let mut s = String::from_str("Total: ");
                push_str(&mut s, size_string(p.list_total_size).as_str());
                s
            }
        },
    }
}

/// The left panel's half of the status line: folder, counts, total.
pub fn left_status(p: &PanelState) -> (s: String)
    ensures
        s@ == "📁 "@ + p.path@ + " | "@ + decimal(p.entries@.len()) + " items | "@ + decimal(p.selected@.len())
            + " selected | "@ + total_text(*p),
{
    proof {
        vstd::std_specs::hash::axiom_spec_hash_set_len(&p.selected);
    }
    let mut s = String::from_str("📁 ");
    push_str(&mut s, p.path.as_str());
    push_str(&mut s, " | ");
    push_decimal(&mut s, p.entries.len() as u64);
    push_str(&mut s, " items | ");
    push_decimal(&mut s, p.selected.len() as u64);
    push_str(&mut s, " selected | ");
    push_str(&mut s, total_string(p).as_str());
    s
}

/// The right panel's half of the status line: total, counts, folder.
pub fn right_status(p: &PanelState) -> (s: String)
    ensures
        s@ == total_text(*p) + " | "@ + decimal(p.selected@.len()) + " selected | "@ + decimal(p.entries@.len())
            + " items | 📁 "@ + p.path@,
{
    proof {
        vstd::std_specs::hash::axiom_spec_hash_set_len(&p.selected);
    }
    let mut s = total_string(p);
    push_str(&mut s, " | ");
    push_decimal(&mut s, p.selected.len() as u64);
    push_str(&mut s, " selected | ");
    push_decimal(&mut s, p.entries.len() as u64);
    push_str(&mut s, " items | 📁 ");
    push_str(&mut s, p.path.as_str());
    s
}

/// A panel's title: its folder, between arrows when it is the active panel.
pub fn panel_title(p: &PanelState, is_active: bool) -> (s: String)
    ensures
        s@ == if is_active { " ▶ "@ + p.path@ + " ◀ "@ } else { " "@ + p.path@ + " "@ },
{
    let mut s = String::from_str(if is_active { " ▶ " } else { " " });
    push_str(&mut s, p.path.as_str());
    push_str(&mut s, if is_active { " ◀ " } else { " " });
    s
}

/// `n` spaces.
pub open spec fn spaces(n: nat) -> Seq<char> {
    Seq::new(n, |i: int| ' ')
}

/// `s` followed by spaces up to `w` characters.
pub open spec fn pad_right(s: Seq<char>, w: nat) -> Seq<char> {
    if s.len() >= w { s } else { s + spaces((w - s.len()) as nat) }
}

/// `s` after spaces up to `w` characters.
pub open spec fn pad_left(s: Seq<char>, w: nat) -> Seq<char> {
    if s.len() >= w { s } else { spaces((w - s.len()) as nat) + s }
}

/// A name cut to `w` characters, the last of them an ellipsis, when it is longer.
pub open spec fn fitted_name(name: Seq<char>, w: nat) -> Seq<char> {
    if name.len() > w {
        name.take(if w >= 1 { w - 1 } else { 0 }) + "…"@
    } else {
        name
    }
}

/// The width left for names in a panel whose inside is `panel_width` columns wide.
pub open spec fn name_width_of(panel_width: nat) -> nat {
    if panel_width > 39 { (panel_width - 39) as nat } else { 0 }
}

/// A panel row: selection or cursor mark, kind icon, the name fitted and padded to
/// `name_width`, the size column right-aligned to 8, and the modification time `time`.
pub open spec fn row_text(e: FileEntry, selected: bool, current: bool, name_width: nat, time: Seq<char>) -> Seq<char> {
    (if selected { "[✓]"@ } else if current { "[>]"@ } else { "   "@ }) + " "@
        + (if e.is_dir { "📁"@ } else { "📄"@ }) + " "@
        + pad_right(fitted_name(e.name@, name_width), name_width) + "  "@
        + pad_left(if e.is_dir { "<DIR>"@ } else { size_text(e.size as nat) }, 8) + "  "@ + time
}

/// The width left for names in a panel (see `name_width_of`).
pub fn name_width(panel_width: usize) -> (w: usize)
    ensures
        w == name_width_of(panel_width as nat),
{
    if panel_width > 39 { panel_width - 39 } else { 0 }
}

fn push_spaces(s: &mut String, n: usize)
    ensures
        final(s)@ == old(s)@ + spaces(n as nat),
{
    let ghost start = s@;
    let mut i: usize = 0;
    while i < n
        invariant
            i <= n,
            s@ == start + spaces(i as nat),
        decreases n - i,
    {
        push_char(s, ' ');
        i = i + 1;
        assert(s@ =~= start + spaces(i as nat));
    }
}

fn fitted_string(name: &str, w: usize) -> (s: Vec<char>)
    ensures
        s@ == fitted_name(name@, w as nat),
{
    let cs = chars_of(name);
    if cs.len() > w {
        let keep: usize = if w >= 1 { w - 1 } else { 0 };
        let mut v = crate::text::sub_vec(&cs, 0, keep);
        v.push('…');
        proof {
            reveal_strlit("…");
            assert(v@ =~= name@.take(keep as int) + "…"@);
        }
        v
    } else {
        cs
    }
}

fn push_padded_right(s: &mut String, t: &Vec<char>, w: usize)
    ensures
        final(s)@ == old(s)@ + pad_right(t@, w as nat),
{
    push_str(s, string_of(t).as_str());
    if t.len() < w {
        push_spaces(s, w - t.len());
    }
}

fn push_padded_left(s: &mut String, t: &str, w: usize)
    ensures
        final(s)@ == old(s)@ + pad_left(t@, w as nat),
{
    let cs = chars_of(t);
    let ghost before = s@;
    if cs.len() < w {
        push_spaces(s, w - cs.len());
    }
    push_str(s, t);
    assert(s@ =~= before + pad_left(t@, w as nat));
}

/// A panel row (see `row_text`), with the modification time as `time` gives it.
pub fn panel_row(e: &FileEntry, selected: bool, current: bool, name_width: usize, time: &str) -> (s: String)
    ensures
        s@ == row_text(*e, selected, current, name_width as nat, time@),
{
    let mut s = if selected {
        String::from_str("[✓]")
    } else if current {
        String::from_str("[>]")
    } else {
        String::from_str("   ")
    };
    push_str(&mut s, " ");
    push_str(&mut s, if e.is_dir { "📁" } else { "📄" });
    push_str(&mut s, " ");
    let fitted = fitted_string(e.name.as_str(), name_width);
    push_padded_right(&mut s, &fitted, name_width);
    push_str(&mut s, "  ");
    let size = e.display_size();
    push_padded_left(&mut s, size.as_str(), 8);
    push_str(&mut s, "  ");
    push_str(&mut s, time);
    s
}

/// The viewer's title: its path and whether lines are wrapped.
pub fn viewer_title(v: &ViewerState) -> (s: String)
    ensures
        s@ == " - "@ + v.path@ + if v.wrap { " [WRAP]"@ } else { " [NO-WRAP]"@ },
{
    let mut s = String::from_str(" - ");
    push_str(&mut s, v.path.as_str());
    push_str(&mut s, if v.wrap { " [WRAP]" } else { " [NO-WRAP]" });
    s
}

/// The viewer's position: the first line shown (counting from 1) of how many.
pub fn viewer_position(v: &ViewerState) -> (s: String)
    requires
        v.scroll < usize::MAX,
    ensures
        s@ == " Line: "@ + decimal((v.scroll + 1) as nat) + "/"@ + decimal(v.lines@.len()) + " "@,
{
    let mut s = String::from_str(" Line: ");
    push_decimal(&mut s, v.scroll as u64 + 1);
    push_str(&mut s, "/");
    push_decimal(&mut s, v.lines.len() as u64);
    push_str(&mut s, " ");
    s
}

/// The characters a dialog's input box shows: the input, and a blank after it where the
/// cursor stands at its end.
pub open spec fn input_shown(d: DialogState) -> Seq<char> {
    if d.cursor >= d.input@.len() { d.input@.push(' ') } else { d.input@ }
}

/// A dialog's input box, cell by cell: each character shown, and whether the cursor is on it.
pub fn input_cells(d: &DialogState) -> (cells: Vec<(char, bool)>)
    ensures
        cells@.len() == input_shown(*d).len(),
        forall|i: int| 0 <= i < cells@.len() ==> #[trigger] cells@[i] == (input_shown(*d)[i], i == d.cursor),
{
    let mut shown = chars_of(d.input.as_str());
    if d.cursor >= shown.len() {
        shown.push(' ');
    }
    let mut cells: Vec<(char, bool)> = Vec::new();
    let mut i: usize = 0;
    while i < shown.len()
        invariant
            i <= shown.len(),
            shown@ == input_shown(*d),
            cells@.len() == i,
            forall|j: int| 0 <= j < i ==> #[trigger] cells@[j] == (shown@[j], j == d.cursor),
        decreases shown.len() - i,
    {
        cells.push((shown[i], i == d.cursor));
        i = i + 1;
    }
    cells
}

/// The line under a dialog's input that shows its error, if it has one.
pub fn dialog_error_line(d: &DialogState) -> (line: Option<String>)
    ensures
        match d.error {
            Some(e) => line matches Some(l) && l@ == "❌ "@ + e@,
            None => line is None,
        },
{
    match &d.error {
        Some(e) => {
            let mut l = String::from_str("❌ ");
            push_str(&mut l, e.as_str());
            Some(l)
        },
        None => None,
    }
}

/// The title of a dialog.
pub open spec fn dialog_title_text(kind: DialogKind) -> Seq<char> {
    match kind {
        DialogKind::Copy => "  📋 파일 복사  "@,
        DialogKind::Move => "  ➡️  파일 이동  "@,
        DialogKind::Mkdir => "  📁 폴더 생성  "@,
        DialogKind::Delete => "  🗑️  파일 삭제  "@,
        DialogKind::Rename => "  ✏️  파일명 변경  "@,
        DialogKind::Find => "  🔍 파일 찾기  "@,
        DialogKind::Pack => "  📦 압축 파일 생성  "@,
        DialogKind::AiCommand => "  🤖 AI 명령 실행  "@,
        DialogKind::BatchRename => "  ✏️  배치 리네이밍  "@,
        DialogKind::AddNote => "  📝 파일 메모/태그  "@,
        DialogKind::GenerateScript => "  📜 배치 스크립트 생성  "@,
        DialogKind::SaveMacro => "  💾 매크로 저장  "@,
        DialogKind::RunMacro => "  ▶️  매크로 실행  "@,
    }
}

/// The title of a dialog (see `dialog_title_text`).
pub fn dialog_title(kind: DialogKind) -> (s: &'static str)
    ensures
        s@ == dialog_title_text(kind),
{
    match kind {
        DialogKind::Copy => "  📋 파일 복사  ",
        DialogKind::Move => "  ➡️  파일 이동  ",
        DialogKind::Mkdir => "  📁 폴더 생성  ",
        DialogKind::Delete => "  🗑️  파일 삭제  ",
        DialogKind::Rename => "  ✏️  파일명 변경  ",
        DialogKind::Find => "  🔍 파일 찾기  ",
        DialogKind::Pack => "  📦 압축 파일 생성  ",
        DialogKind::AiCommand => "  🤖 AI 명령 실행  ",
        DialogKind::BatchRename => "  ✏️  배치 리네이밍  ",
        DialogKind::AddNote => "  📝 파일 메모/태그  ",
        DialogKind::GenerateScript => "  📜 배치 스크립트 생성  ",
        DialogKind::SaveMacro => "  💾 매크로 저장  ",
        DialogKind::RunMacro => "  ▶️  매크로 실행  ",
    }
}

/// The label over a dialog's input.
pub open spec fn dialog_label_text(kind: DialogKind) -> Seq<char> {
    match kind {
        DialogKind::Copy | DialogKind::Move => "대상 경로:"@,
        DialogKind::Mkdir => "디렉토리 이름:"@,
        DialogKind::Rename => "새 이름:"@,
        DialogKind::AiCommand => "작업 지시 (예: log 파일 삭제, 사진 images 폴더로 이동):"@,
        DialogKind::BatchRename => "이름 변경 패턴 (예: 날짜순 정렬, 접두사 추가):"@,
        DialogKind::AddNote => "메모 및 태그 (#태그 형식 권장):"@,
        DialogKind::GenerateScript => "스크립트 지시사항 (예: 모두 WebP로 변환, PDF 합치기):"@,
        _ => ""@,
    }
}

/// The label over a dialog's input (see `dialog_label_text`).
pub fn dialog_label(kind: DialogKind) -> (s: &'static str)
    ensures
        s@ == dialog_label_text(kind),
{
    match kind {
        DialogKind::Copy | DialogKind::Move => "대상 경로:",
        DialogKind::Mkdir => "디렉토리 이름:",
        DialogKind::Rename => "새 이름:",
        DialogKind::AiCommand => "작업 지시 (예: log 파일 삭제, 사진 images 폴더로 이동):",
        DialogKind::BatchRename => "이름 변경 패턴 (예: 날짜순 정렬, 접두사 추가):",
        DialogKind::AddNote => "메모 및 태그 (#태그 형식 권장):",
        DialogKind::GenerateScript => "스크립트 지시사항 (예: 모두 WebP로 변환, PDF 합치기):",
        _ => "",
    }
}

} // verus!
