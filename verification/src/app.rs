//! The application's state and what each command does to it. Work outside the program
//! (listing directories, file operations, the assistant, saving settings) is handed back
//! as an `Effect` for the caller to carry out.

use vstd::prelude::*;
use crate::commands::{Command, PlannedOp, OpView, copy_ops, op_view, ops_view};
use crate::config::{Config, NotesStore, MacrosStore, note_tags, note_view, tags_of};
use crate::dialog::{DialogState, DialogKind, count_prompt};
use crate::panel::{PanelState, ParentStep, SearchMode, selected_indices, last_row, quick_match, toggled};
use crate::wildcard::{glob_accepts, glob_matches};
use crate::viewer::{lines_view, plain_line};
use crate::ai::response_lines;
use crate::text::{lines_of, join_sep, join_strings};
use crate::viewer::ViewerState;
use crate::ai::{AiState, AiCommandState, AiResponse};
use crate::theme::Theme;
use crate::fs::FileEntry;
use crate::text::{chars_of, string_of, push_str, push_char, lowercase, to_lower, words, contains_seq, contains_exec};
use crate::path::{join, join_of, file_name, file_name_of, extension, extension_of};
use crate::report::push_count;
use crate::events::{InputEvent, KeyInput, dialog_event_step, key_command, search_command, viewer_command, ai_command, confirm_command, handle_dialog_event, handle_search_event, handle_viewer_event, handle_ai_event, handle_ai_command_confirm_event, handle_event};

verus! {

#[derive(Debug, Clone, Copy, PartialEq, Eq, Structural)]
pub enum AppMode {
    Normal,
    Dialog,
    Search,
    Filter,
    Viewer,
    AiChat,
    AiCommandConfirm,
    Help,
}

/// Work for the assistant, with what it needs.
#[derive(Debug)]
pub enum AiTask {
    Summarize { path: String },
    SecurityScan { path: String },
    ImageInfo { path: String },
    CodeStructure { path: String },
    FileDiff { path1: String, path2: String },
    FolderAnalysis { path: String },
    FindDuplicates { path: String },
    OldFiles { path: String },
    FileClassify { path: String },
    StorageOptimize { path: String },
    GitHistory { path: String },
    FolderSync { left: String, right: String },
    GenerateReadme { root: String },
    InterpretCommand { command: String, current_dir: String, listing: String },
    BatchRename { pattern: String, current_dir: String, listing: String },
    SmartSearch { query: String, root: String },
    GenerateScript { listing: String, instruction: String },
}

/// What a confirmed dialog leaves to be done outside.
#[derive(Debug)]
pub enum DialogWork {
    Nothing,
    Ai(AiTask),
    /// Carry out these operations in order, stopping at the first failure; once all are
    /// done they are recorded and, when `clears_selection`, the selection is cleared (see
    /// `App::work_done`).
    Files { ops: Vec<PlannedOp>, clears_selection: bool },
    /// Pack `srcs` into the archive `dst`; once packed, the selection is cleared.
    Pack { srcs: Vec<String>, dst: String },
    /// Search below `root` for names containing `query`, and show the results in the
    /// active panel.
    FindFiles { root: String, query: String },
    SaveNotes,
}

/// What is left for the caller to do after a command.
#[derive(Debug)]
pub enum Effect {
    Done,
    /// Save the settings.
    SaveConfig,
    /// Compute the recursive size of the left (`true`) or right panel's folder.
    ComputeSize(bool),
    /// Show the directory at this path in the active panel, if it is one, then compute its size.
    EnterDir(String),
    /// Open the archive at this path in the active panel.
    OpenArchive(String),
    /// Leave the active panel's archive for this directory.
    LeaveArchive(String),
    /// Show dot files in both panels or not, as this says, listing them again; then save
    /// the settings.
    RelistBoth { show_hidden: bool },
    /// List the left (`true`) or right panel's folder again; when `size`, compute its
    /// recursive size too, whose computation the panel shows as started.
    Relist { is_left: bool, size: bool },
    /// Open the file at this path in the viewer.
    OpenViewer(String),
    /// Read the viewed file again with wrapping switched.
    ToggleWrap,
    /// Stop following the viewed file.
    StopWatcher,
    /// Read what was added to the followed file.
    ReadTail,
    StartAi(AiTask),
    SaveMacros,
    /// Do the dialog's work, then (when `refresh`) list both panels again.
    Confirmed { work: DialogWork, refresh: bool },
    /// Carry out these operations (ignoring failures), then list both panels again.
    RunOps(Vec<PlannedOp>),
}

pub struct App {
    pub left_panel: PanelState,
    pub right_panel: PanelState,
    /// `true` when the left panel is active.
    pub active_panel: bool,
    pub mode: AppMode,
    pub dialog: Option<DialogState>,
    pub viewer: Option<ViewerState>,
    pub ai_state: Option<AiState>,
    pub ai_command_state: Option<AiCommandState>,
    pub search_query: String,
    pub config: Config,
    pub notes: NotesStore,
    pub macros: MacrosStore,
    pub recording: Option<Vec<PlannedOp>>,
    pub pending_macro_ops: Option<Vec<PlannedOp>>,
    pub theme: Theme,
    pub should_quit: bool,
}

/// The number of entries an operation acts on, as the dialogs state it: the selection's
/// size, at least one.
pub open spec fn op_count(p: PanelState) -> nat {
    if p.selected@.len() >= 1 { p.selected@.len() } else { 1 }
}

/// The paths an operation acts on: the selected rows (of those shown), else the entry
/// under the cursor.
pub open spec fn target_paths(p: PanelState) -> Seq<Seq<char>> {
    let sel = selected_indices(p.selected@, p.visible().len());
    if sel.len() > 0 {
        sel.map_values(|i: usize| p.visible()[i as int].path@)
    } else if p.cursor < p.visible().len() {
        seq![p.visible()[p.cursor as int].path@]
    } else {
        Seq::empty()
    }
}

/// The entry under the cursor.
pub open spec fn current(p: PanelState) -> Option<FileEntry> {
    if p.cursor < p.visible().len() {
        Some(p.visible()[p.cursor as int])
    } else {
        None
    }
}

/// A path whose extension names an archive (in any case).
pub open spec fn is_archive_path(path: Seq<char>) -> bool {
    crate::ops::archive::format_of_ext(crate::ops::archive::archive_ext(path)) is Some
}

pub open spec fn image_exts() -> Seq<Seq<char>> {
    seq!["jpg"@, "jpeg"@, "png"@, "gif"@, "webp"@, "bmp"@, "tiff"@]
}

pub open spec fn source_exts() -> Seq<Seq<char>> {
    seq!["rs"@, "py"@, "js"@, "ts"@, "go"@, "c"@, "cpp"@, "java"@, "rb"@, "php"@]
}

/// The extension of a path exactly as written (empty when none), for the kind checks.
pub open spec fn raw_ext(path: Seq<char>) -> Seq<char> {
    match extension_of(path) {
        Some(e) => e,
        None => Seq::empty(),
    }
}

/// A question for the assistant is natural language rather than a name: longer than 10
/// bytes, or naming time or size words.
pub open spec fn is_natural_query(q: Seq<char>) -> bool {
    vstd::utf8::encode_utf8(q).len() > 10 || contains_seq(q, "전"@) || contains_seq(q, "후"@)
        || contains_seq(q, "주"@) || contains_seq(q, "달"@) || contains_seq(q, "크기"@)
        || contains_seq(q, "보다"@)
}

impl App {
    pub open spec fn active(self) -> PanelState {
        if self.active_panel { self.left_panel } else { self.right_panel }
    }

    pub open spec fn inactive(self) -> PanelState {
        if self.active_panel { self.right_panel } else { self.left_panel }
    }

    /// `self` with `p` as the active panel.
    pub open spec fn with_active(self, p: PanelState) -> App {
        if self.active_panel {
            App { left_panel: p, ..self }
        } else {
            App { right_panel: p, ..self }
        }
    }

    /// The open dialog's cursor lies within its input, and the assistant's output can be
    /// scrolled by a page without leaving `u16`.
    pub open spec fn wf(self) -> bool {
        &&& (self.dialog matches Some(d) ==> d.wf())
        &&& (self.ai_state matches Some(a) ==> a.scroll + 20 <= u16::MAX)
    }

    /// `new` is `old` with dialog `d` open.
    pub open spec fn dialog_opened(old: App, new: App, kind: DialogKind, input: Seq<char>, message: Seq<char>) -> bool {
        &&& new == (App { dialog: new.dialog, mode: AppMode::Dialog, ..old })
        &&& new.dialog matches Some(d) && d.kind == kind && d.input@ == input && d.cursor == input.len()
            && d.message@ == message && d.error is None
    }
}

impl App {
    /// An application showing the two panels, with the left one active, the settings, notes
    /// and macros given, and the colour scheme the settings name; nothing else is open.
    pub fn new(left_panel: PanelState, right_panel: PanelState, config: Config, notes: NotesStore, macros: MacrosStore) -> (a: App)
        ensures
            a.left_panel == left_panel,
            a.right_panel == right_panel,
            a.active_panel,
            a.mode == AppMode::Normal,
            a.dialog is None,
            a.viewer is None,
            a.ai_state is None,
            a.ai_command_state is None,
            a.search_query@ == Seq::<char>::empty(),
            a.config == config,
            a.notes == notes,
            a.macros == macros,
            a.recording is None,
            a.pending_macro_ops is None,
            a.theme == (if lowercase(config.ui.color_scheme@) == "dark"@ {
                crate::theme::dark_theme()
            } else {
                crate::theme::classic_theme()
            }),
            !a.should_quit,
            a.wf(),
    {
        let theme = Theme::from_name(config.ui.color_scheme.as_str());
        App {
            left_panel,
            right_panel,
            active_panel: true,
            mode: AppMode::Normal,
            dialog: None,
            viewer: None,
            ai_state: None,
            ai_command_state: None,
            search_query: String::new(),
            config,
            notes,
            macros,
            recording: None,
            pending_macro_ops: None,
            theme,
            should_quit: false,
        }
    }
}

impl App {
    /// What `quit` makes of `o`.
    pub open spec fn quit_step(o: App, n: App, e: Effect) -> bool {
        &&& n == (App {
            config: Config {
                history: crate::config::HistoryConfig {
                    last_left_path: Some(o.left_panel.path),
                    last_right_path: Some(o.right_panel.path),
                },
                ..o.config
            },
            should_quit: true,
            ..o
        })
        &&& e is SaveConfig
    }

    fn quit(&mut self) -> (e: Effect)
        ensures
            Self::quit_step(*old(self), *final(self), e),
    {
        self.config.history.last_left_path = Some(self.left_panel.path.clone());
        self.config.history.last_right_path = Some(self.right_panel.path.clone());
        self.should_quit = true;
        Effect::SaveConfig
    }

    /// What `switch_panel` makes of `o`.
    pub open spec fn switch_panel_step(o: App, n: App) -> bool {
        &&& n == if o.mode != AppMode::Viewer {
            App { active_panel: !o.active_panel, ..o }
        } else {
            o
        }
    }

    fn switch_panel(&mut self)
        ensures
            Self::switch_panel_step(*old(self), *final(self)),
    {
        if self.mode != AppMode::Viewer {
            self.active_panel = !self.active_panel;
        }
    }

    /// What `cursor_up` makes of `o`.
    pub open spec fn cursor_up_step(o: App, n: App) -> bool {
        &&& n == match o.viewer {
            Some(v) => App {
                viewer: Some(ViewerState { scroll: if v.scroll > 0 { (v.scroll - 1) as usize } else { 0 }, ..v }),
                ..o
            },
            None => o.with_active(PanelState {
                cursor: if o.active().cursor > 0 { (o.active().cursor - 1) as usize } else { 0 },
                ..o.active()
            }),
        }
    }

    fn cursor_up(&mut self)
        ensures
            Self::cursor_up_step(*old(self), *final(self)),
    {
        match &mut self.viewer {
            Some(v) => v.scroll_up(),
            None => {
                if self.active_panel {
                    self.left_panel.cursor_up();
                } else {
                    self.right_panel.cursor_up();
                }
            },
        }
    }

    /// What `cursor_down` makes of `o`.
    pub open spec fn cursor_down_step(o: App, n: App) -> bool {
        &&& n == match o.viewer {
            Some(v) => App {
                viewer: Some(ViewerState {
                    scroll: if v.scroll < crate::viewer::bottom_scroll(v.lines@.len(), v.viewport_height as nat) {
                        (v.scroll + 1) as usize
                    } else {
                        crate::viewer::bottom_scroll(v.lines@.len(), v.viewport_height as nat) as usize
                    },
                    ..v
                }),
                ..o
            },
            None => o.with_active(PanelState {
                cursor: if o.active().cursor < last_row(o.active().visible().len()) {
                    (o.active().cursor + 1) as usize
                } else {
                    o.active().cursor
                },
                ..o.active()
            }),
        }
    }

    fn cursor_down(&mut self)
        ensures
            Self::cursor_down_step(*old(self), *final(self)),
    {
        match &mut self.viewer {
            Some(v) => v.scroll_down(),
            None => {
                if self.active_panel {
                    self.left_panel.cursor_down();
                } else {
                    self.right_panel.cursor_down();
                }
            },
        }
    }

    /// What `page_up` makes of `o`.
    pub open spec fn page_up_step(o: App, n: App) -> bool {
        &&& n == match o.viewer {
            Some(v) => App {
                viewer: Some(ViewerState { scroll: if v.scroll > 20 { (v.scroll - 20) as usize } else { 0 }, ..v }),
                ..o
            },
            None => o.with_active(PanelState {
                cursor: if o.active().cursor > 10 { (o.active().cursor - 10) as usize } else { 0 },
                ..o.active()
            }),
        }
    }

    fn page_up(&mut self)
        ensures
            Self::page_up_step(*old(self), *final(self)),
    {
        match &mut self.viewer {
            Some(v) => v.page_up(20),
            None => {
                if self.active_panel {
                    self.left_panel.page_up(10);
                } else {
                    self.right_panel.page_up(10);
                }
            },
        }
    }

    /// What `page_down` makes of `o`.
    pub open spec fn page_down_step(o: App, n: App) -> bool {
        &&& n == match o.viewer {
            Some(v) => if v.scroll + 20 <= usize::MAX {
                App {
                    viewer: Some(ViewerState {
                        scroll: if v.scroll + 20 < crate::viewer::bottom_scroll(v.lines@.len(), v.viewport_height as nat) {
                            (v.scroll + 20) as usize
                        } else {
                            crate::viewer::bottom_scroll(v.lines@.len(), v.viewport_height as nat) as usize
                        },
                        ..v
                    }),
                    ..o
                }
            } else {
                o
            },
            None => if o.active().cursor + 10 <= usize::MAX {
                o.with_active(PanelState {
                    cursor: if o.active().cursor + 10 < last_row(o.active().visible().len()) {
                        (o.active().cursor + 10) as usize
                    } else {
                        last_row(o.active().visible().len()) as usize
                    },
                    ..o.active()
                })
            } else {
                o
            },
        }
    }

    /// A page down in the viewer (20 lines) or the active panel (10 rows); positions that
    /// a page would carry past `usize::MAX` stay.
    fn page_down(&mut self)
        ensures
            Self::page_down_step(*old(self), *final(self)),
    {
        match &mut self.viewer {
            Some(v) => {
                if v.scroll <= usize::MAX - 20 {
                    v.page_down(20);
                }
            },
            None => {
                if self.active_panel {
                    if self.left_panel.cursor <= usize::MAX - 10 {
                        self.left_panel.page_down(10);
                    }
                } else {
                    if self.right_panel.cursor <= usize::MAX - 10 {
                        self.right_panel.page_down(10);
                    }
                }
            },
        }
    }
}

/// The paths an operation acts on (see `target_paths`).
pub fn target_paths_exec(p: &PanelState) -> (r: Vec<String>)
    ensures
        r@.map_values(|s: String| s@) == target_paths(*p),
{
    let sel = p.get_selected_entries();
    let ghost ix = selected_indices(p.selected@, p.visible().len());
    let mut r: Vec<String> = Vec::new();
    let mut i: usize = 0;
    assert(sel@.map_values(|e: &FileEntry| *e).len() == sel@.len());
    assert(ix.map_values(|k: usize| p.visible()[k as int]).len() == ix.len());
    assert(ix.len() == sel@.len());
    while i < sel.len()
        invariant
            i <= sel.len(),
            ix.len() == sel@.len(),
            ix == selected_indices(p.selected@, p.visible().len()),
            sel@.map_values(|e: &FileEntry| *e) == ix.map_values(|k: usize| p.visible()[k as int]),
            r@.map_values(|s: String| s@) == ix.take(i as int).map_values(|k: usize| p.visible()[k as int].path@),
        decreases sel.len() - i,
    {
        let ghost before = r@;
        r.push(sel[i].path.clone());
        proof {
            assert(sel@.map_values(|e: &FileEntry| *e)[i as int] == *sel@[i as int]);
            assert(ix.take(i + 1) =~= ix.take(i as int).push(ix[i as int]));
            assert(r@.map_values(|s: String| s@) =~= before.map_values(|s: String| s@).push(p.visible()[ix[i as int] as int].path@));
        }
        i = i + 1;
    }
    assert(ix.take(sel.len() as int) =~= ix);
    if r.len() > 0 {
        return r;
    }
    match p.get_current_entry() {
        Some(e) => {
            r.push(e.path.clone());
            assert(r@.map_values(|s: String| s@) =~= seq![e.path@]);
        },
        None => {},
    }
    r
}

fn selection_count(p: &PanelState) -> (n: usize)
    ensures
        n == op_count(*p),
{
    proof {
        vstd::std_specs::hash::axiom_spec_hash_set_len(&p.selected);
    }
    let k = p.selected.len();
    if k >= 1 { k } else { 1 }
}

impl App {
    /// The active panel.
    pub fn active_panel(&self) -> (p: &PanelState)
        ensures
            *p == self.active(),
    {
        if self.active_panel { &self.left_panel } else { &self.right_panel }
    }

    /// The active panel, to change in place; the rest of the state stays.
    pub fn active_panel_mut(&mut self) -> (p: &mut PanelState)
        ensures
            *p == old(self).active(),
            *final(self) == old(self).with_active(*final(p)),
    {
        if self.active_panel { &mut self.left_panel } else { &mut self.right_panel }
    }

    fn inactive_panel(&self) -> (p: &PanelState)
        ensures
            *p == self.inactive(),
    {
        if self.active_panel { &self.right_panel } else { &self.left_panel }
    }

    /// What `navigate` makes of `o`.
    pub open spec fn navigate_step(o: App, e: Effect) -> bool {
        &&& match current(o.active()) {
            Some(c) => if c.is_dir {
                e matches Effect::EnterDir(p) && p == c.path
            } else if is_archive_path(c.path@) {
                e matches Effect::OpenArchive(p) && p == c.path
            } else {
                e is Done
            },
            None => e is Done,
        }
    }

    /// Enter: a directory is entered, an archive opened, anything else left alone.
    fn navigate(&self) -> (e: Effect)
        ensures
            Self::navigate_step(*self, e),
    {
        match self.active_panel().get_current_entry() {
            Some(c) => {
                if c.is_dir {
                    Effect::EnterDir(c.path.clone())
                } else {
                    let (_e, f) = crate::ops::archive::archive_format(c.path.as_str());
                    if f.is_some() {
                        Effect::OpenArchive(c.path.clone())
                    } else {
                        Effect::Done
                    }
                }
            },
            None => Effect::Done,
        }
    }

    /// What `go_parent` makes of `o`.
    pub open spec fn go_parent_step(o: App, e: Effect) -> bool {
        &&& o.active().at_archive_root() ==> (e matches Effect::LeaveArchive(p) && p@ == match crate::path::parent_of(
            o.active().archive_base->0@,
        ) {
            Some(q) => q,
            None => seq!['/'],
        })
        &&& !o.active().at_archive_root() ==> match crate::path::parent_of(o.active().path@) {
            None => e == Effect::ComputeSize(o.active_panel),
            Some(q) => (e matches Effect::EnterDir(p) && p@ == q),
        }
    }

    /// Backspace: out of an archive at its root, else to the parent folder; the folder's
    /// size is computed again either way.
    fn go_parent(&self) -> (e: Effect)
        ensures
            Self::go_parent_step(*self, e),
    {
        match self.active_panel().go_parent() {
            ParentStep::LeaveArchive(p) => Effect::LeaveArchive(p),
            ParentStep::Enter(p) => Effect::EnterDir(p),
            ParentStep::Stay => Effect::ComputeSize(self.active_panel),
        }
    }

    /// What `toggle_select` makes of `o`.
    pub open spec fn toggle_select_step(o: App, n: App) -> bool {
        &&& n == o.with_active(n.active())
        &&& n.active() == (PanelState { selected: n.active().selected, ..o.active() })
        &&& n.active().selected@ == toggled(o.active().selected@, o.active().cursor, o.active().visible().len())
    }

    fn toggle_select(&mut self)
        ensures
            Self::toggle_select_step(*old(self), *final(self)),
    {
        if self.active_panel {
            self.left_panel.toggle_select();
        } else {
            self.right_panel.toggle_select();
        }
    }

    /// What `select_all` makes of `o`.
    pub open spec fn select_all_step(o: App, n: App) -> bool {
        &&& n == o.with_active(n.active())
        &&& n.active() == (PanelState { selected: n.active().selected, ..o.active() })
        &&& n.active().selected@ == Set::new(|i: usize| i < o.active().visible().len())
    }

    fn select_all(&mut self)
        ensures
            Self::select_all_step(*old(self), *final(self)),
    {
        if self.active_panel {
            self.left_panel.select_all();
        } else {
            self.right_panel.select_all();
        }
    }

    /// What `clear_selection` makes of `o`.
    pub open spec fn clear_selection_step(o: App, n: App) -> bool {
        &&& n == o.with_active(n.active())
        &&& n.active() == (PanelState { selected: n.active().selected, ..o.active() })
        &&& n.active().selected@.is_empty()
    }

    fn clear_selection(&mut self)
        ensures
            Self::clear_selection_step(*old(self), *final(self)),
    {
        if self.active_panel {
            self.left_panel.clear_selection();
        } else {
            self.right_panel.clear_selection();
        }
    }

    /// What `open_copy` makes of `o`.
    pub open spec fn open_copy_step(o: App, n: App) -> bool {
        &&& Self::dialog_opened(o, n, DialogKind::Copy, o.inactive().path@,
            count_prompt("📋 "@, op_count(o.active()), " 개 항목을 복사합니다"@))
        &&& n.wf()
    }

    fn open_copy(&mut self)
        requires
            old(self).wf(),
        ensures
            Self::open_copy_step(*old(self), *final(self)),
    {
        let n = selection_count(self.active_panel());
        let dst = self.inactive_panel().path.clone();
        self.dialog = Some(DialogState::new_copy(n, dst));
        self.mode = AppMode::Dialog;
    }

    /// What `open_move` makes of `o`.
    pub open spec fn open_move_step(o: App, n: App) -> bool {
        &&& Self::dialog_opened(o, n, DialogKind::Move, o.inactive().path@,
            count_prompt("➡️  "@, op_count(o.active()), " 개 항목을 이동합니다"@))
        &&& n.wf()
    }

    fn open_move(&mut self)
        requires
            old(self).wf(),
        ensures
            Self::open_move_step(*old(self), *final(self)),
    {
        let n = selection_count(self.active_panel());
        let dst = self.inactive_panel().path.clone();
        self.dialog = Some(DialogState::new_move(n, dst));
        self.mode = AppMode::Dialog;
    }

    /// What `open_pack` makes of `o`.
    pub open spec fn open_pack_step(o: App, n: App) -> bool {
        &&& Self::dialog_opened(o, n, DialogKind::Pack, "archive.zip"@,
            count_prompt("📦 "@, op_count(o.active()), " 개 항목을 압축합니다"@))
        &&& n.wf()
    }

    fn open_pack(&mut self)
        requires
            old(self).wf(),
        ensures
            Self::open_pack_step(*old(self), *final(self)),
    {
        let n = selection_count(self.active_panel());
        self.dialog = Some(DialogState::new_pack(n, String::from_str("archive.zip")));
        self.mode = AppMode::Dialog;
    }

    /// What `open_delete` makes of `o`.
    pub open spec fn open_delete_step(o: App, n: App) -> bool {
        &&& Self::dialog_opened(o, n, DialogKind::Delete, Seq::empty(),
            count_prompt("🗑️  "@, op_count(o.active()), " 개 항목을 삭제하시겠습니까?"@))
        &&& n.wf()
    }

    fn open_delete(&mut self)
        requires
            old(self).wf(),
        ensures
            Self::open_delete_step(*old(self), *final(self)),
    {
        let n = selection_count(self.active_panel());
        self.dialog = Some(DialogState::new_delete(n));
        self.mode = AppMode::Dialog;
    }

    /// What `open_rename` makes of `o`.
    pub open spec fn open_rename_step(o: App, n: App) -> bool {
        &&& Self::dialog_opened(o, n, DialogKind::Rename, match current(o.active()) {
            Some(c) => c.name@,
            None => Seq::empty(),
        }, "✏️  파일명 변경"@)
        &&& n.wf()
    }

    fn open_rename(&mut self)
        requires
            old(self).wf(),
        ensures
            Self::open_rename_step(*old(self), *final(self)),
    {
        let name = match self.active_panel().get_current_entry() {
            Some(c) => c.name.clone(),
            None => String::new(),
        };
        self.dialog = Some(DialogState::new_rename(name));
        self.mode = AppMode::Dialog;
    }

    /// What `open_simple` makes of `o`.
    pub open spec fn open_simple_step(o: App, n: App, kind: DialogKind) -> bool {
        &&& Self::dialog_opened(o, n, kind, Seq::empty(), if kind == DialogKind::Mkdir {
            "📁 새 디렉토리 생성"@
        } else if kind == DialogKind::Find {
            "🔍 파일 찾기 (현재 폴더 이하)"@
        } else {
            "🤖 AI Commander - 파일 작업 명령 입력"@
        })
        &&& n.wf()
    }

    fn open_simple(&mut self, kind: DialogKind)
        requires
            old(self).wf(),
            kind == DialogKind::Mkdir || kind == DialogKind::Find || kind == DialogKind::AiCommand,
        ensures
            Self::open_simple_step(*old(self), *final(self), kind),
    {
        let d = if kind == DialogKind::Mkdir {
            DialogState::new_mkdir()
        } else if kind == DialogKind::Find {
            DialogState::new_find()
        } else {
            DialogState::new_ai_command()
        };
        self.dialog = Some(d);
        self.mode = AppMode::Dialog;
    }

    /// What `open_for_targets` makes of `o`.
    pub open spec fn open_for_targets_step(o: App, n: App, script: bool) -> bool {
        &&& target_paths(o.active()).len() == 0 ==> n == o
        &&& target_paths(o.active()).len() > 0 ==> if script {
            Self::dialog_opened(o, n, DialogKind::GenerateScript, Seq::empty(),
                count_prompt("📜 "@, target_paths(o.active()).len(), " 개 파일 배치 작업 스크립트 생성"@))
        } else {
            Self::dialog_opened(o, n, DialogKind::BatchRename, Seq::empty(),
                count_prompt("✏️  "@, target_paths(o.active()).len(), " 개 파일 배치 리네이밍"@))
        }
        &&& n.wf()
    }

    /// A dialog over the operation's targets (batch rename or script); nothing without targets.
    fn open_for_targets(&mut self, script: bool)
        requires
            old(self).wf(),
        ensures
            Self::open_for_targets_step(*old(self), *final(self), script),
    {
        let files = target_paths_exec(self.active_panel());
        assert(files@.map_values(|s: String| s@).len() == files@.len());
        if files.len() == 0 {
            return;
        }
        let d = if script {
            DialogState::new_generate_script(files.len())
        } else {
            DialogState::new_batch_rename(files.len())
        };
        self.dialog = Some(d);
        self.mode = AppMode::Dialog;
    }

    /// What `open_note` makes of `o`.
    pub open spec fn open_note_step(o: App, n: App) -> bool {
        &&& match current(o.active()) {
            Some(c) => Self::dialog_opened(o, n, DialogKind::AddNote,
                if o.notes@.dom().contains(c.path@) { o.notes@[c.path@].0 } else { Seq::empty() },
                "📝 파일 메모/태그: "@ + c.path@),
            None => n == o,
        }
        &&& n.wf()
    }

    /// The note dialog for the entry under the cursor, starting from its note.
    fn open_note(&mut self)
        requires
            old(self).wf(),
        ensures
            Self::open_note_step(*old(self), *final(self)),
    {
        let (path, existing) = match self.active_panel().get_current_entry() {
            Some(c) => {
                let existing = match self.notes.get_note(c.path.as_str()) {
                    Some(n) => Some(n.memo.clone()),
                    None => None,
                };
                (c.path.clone(), existing)
            },
            None => return,
        };
        self.dialog = Some(DialogState::new_add_note(path.as_str(), existing));
        self.mode = AppMode::Dialog;
    }
}

/// `n` is `o` after `apply_quick_filter(q)`.
pub open spec fn quick_filtered(o: PanelState, n: PanelState, q: Seq<char>) -> bool {
    &&& n.filter_query matches Some(x) && x@ == q
    &&& n.search_mode == SearchMode::Quick
    &&& n.filtered_entries@ == o.entries@.filter(|e: FileEntry| quick_match(q, e))
    &&& n.cursor == 0
    &&& n == (PanelState {
        filter_query: n.filter_query,
        search_mode: n.search_mode,
        filtered_entries: n.filtered_entries,
        cursor: n.cursor,
        ..o
    })
}

/// `n` is `o` after `clear_filter()`.
pub open spec fn filter_cleared(o: PanelState, n: PanelState) -> bool {
    &&& n == (PanelState { filter_query: None, filtered_entries: n.filtered_entries, search_mode: SearchMode::Off, cursor: 0, ..o })
    &&& n.filtered_entries@.len() == 0
}

/// `n` is `o` after `apply_wildcard_filter(q)`.
pub open spec fn wildcard_filtered(o: PanelState, n: PanelState, q: Seq<char>) -> bool {
    &&& n.filter_query matches Some(x) && x@ == q
    &&& n.search_mode == SearchMode::Wildcard
    &&& (glob_accepts(q) ==> n.filtered_entries@ == o.entries@.filter(|e: FileEntry| glob_matches(q, e.name@)))
    &&& (!glob_accepts(q) ==> n.filtered_entries == o.filtered_entries)
    &&& n.cursor == 0
    &&& n == (PanelState {
        filter_query: n.filter_query,
        search_mode: n.search_mode,
        filtered_entries: n.filtered_entries,
        cursor: n.cursor,
        ..o
    })
}

/// `a` shows that an answer to `q` is awaited.
pub open spec fn is_loading_for(a: AiState, q: Seq<char>) -> bool {
    &&& lines_view(a.lines@) == seq![plain_line("⏳ AI 처리 중..."@)]
    &&& a.scroll == 0
    &&& a.is_loading
    &&& a.query@ == q
}

/// `a` shows the error `m`.
pub open spec fn is_error_for(a: AiState, m: Seq<char>) -> bool {
    &&& lines_view(a.lines@) == seq![plain_line("❌ 오류: "@ + m)]
    &&& a.scroll == 0
    &&& !a.is_loading
    &&& a.query@ == Seq::<char>::empty()
}

/// `a` shows the text `t`.
pub open spec fn is_showing(a: AiState, t: Seq<char>) -> bool {
    &&& lines_view(a.lines@) == response_lines(lines_of(t)).map_values(|x: Seq<char>| plain_line(x))
    &&& a.scroll == 0
    &&& !a.is_loading
    &&& a.query@ == Seq::<char>::empty()
}

pub open spec fn shows_loading(o: Option<AiState>, q: Seq<char>) -> bool {
    o matches Some(a) && is_loading_for(a, q)
}

pub open spec fn shows_error(o: Option<AiState>, m: Seq<char>) -> bool {
    o matches Some(a) && is_error_for(a, m)
}

pub open spec fn shows_text(o: Option<AiState>, t: Seq<char>) -> bool {
    o matches Some(a) && is_showing(a, t)
}

impl App {
    /// Shows that the assistant works on `query`, and hands it the task.
    fn start_ai(&mut self, query: String, task: AiTask) -> (e: Effect)
        requires
            old(self).wf(),
        ensures
            *final(self) == (App { ai_state: final(self).ai_state, mode: AppMode::AiChat, ..*old(self) }),
            final(self).ai_state matches Some(a) && is_loading_for(a, query@),
            e == Effect::StartAi(task),
            final(self).wf(),
    {
        self.ai_state = Some(AiState::loading(query));
        self.mode = AppMode::AiChat;
        Effect::StartAi(task)
    }

    /// Shows the error `m` in the assistant's view.
    fn ai_error(&mut self, m: String)
        requires
            old(self).wf(),
        ensures
            *final(self) == (App { ai_state: final(self).ai_state, mode: AppMode::AiChat, ..*old(self) }),
            final(self).ai_state matches Some(a) && is_error_for(a, m@),
            final(self).wf(),
    {
        self.ai_state = Some(AiState::error(m));
        self.mode = AppMode::AiChat;
    }

    /// What `ai_show` makes of `o`.
    pub open spec fn ai_show_step(o: App, n: App, text: String) -> bool {
        &&& n == (App { ai_state: n.ai_state, ..o })
        &&& n.ai_state matches Some(a) && is_showing(a, text@)
        &&& n.wf()
    }

    /// Shows `text` in the assistant's view (the mode is left as it is).
    fn ai_show(&mut self, text: String)
        requires
            old(self).wf(),
        ensures
            Self::ai_show_step(*old(self), *final(self), text),
    {
        self.ai_state = Some(AiState::new(text));
    }

    /// What `quick_search` makes of `o`.
    pub open spec fn quick_search_step(o: App, n: App, c: char) -> bool {
        &&& n == (App { mode: AppMode::Search, search_query: n.search_query, ..o }).with_active(n.active())
        &&& c == '/' ==> n.search_query@ == Seq::<char>::empty() && filter_cleared(o.active(), n.active())
        &&& c != '/' ==> n.search_query@ == seq![c] && quick_filtered(o.active(), n.active(), seq![c])
    }

    fn quick_search(&mut self, c: char)
        ensures
            Self::quick_search_step(*old(self), *final(self), c),
    {
        self.mode = AppMode::Search;
        self.search_query = String::new();
        if c == '/' {
            if self.active_panel {
                self.left_panel.clear_filter();
            } else {
                self.right_panel.clear_filter();
            }
        } else {
            push_char(&mut self.search_query, c);
            let q = self.search_query.clone();
            if self.active_panel {
                self.left_panel.apply_quick_filter(q.as_str());
            } else {
                self.right_panel.apply_quick_filter(q.as_str());
            }
        }
    }

    /// What `search_input` makes of `o`.
    pub open spec fn search_input_step(o: App, n: App, c: char) -> bool {
        &&& n.search_query@ == o.search_query@.push(c)
        &&& n == (App { search_query: n.search_query, ..o }).with_active(n.active())
        &&& o.mode == AppMode::Search ==> quick_filtered(o.active(), n.active(), n.search_query@)
        &&& o.mode != AppMode::Search ==> n.active() == o.active()
    }

    fn search_input(&mut self, c: char)
        ensures
            Self::search_input_step(*old(self), *final(self), c),
    {
        push_char(&mut self.search_query, c);
        if self.mode == AppMode::Search {
            let q = self.search_query.clone();
            if self.active_panel {
                self.left_panel.apply_quick_filter(q.as_str());
            } else {
                self.right_panel.apply_quick_filter(q.as_str());
            }
        }
    }

    /// What `search_backspace` makes of `o`.
    pub open spec fn search_backspace_step(o: App, n: App) -> bool {
        &&& n.search_query@ == if o.search_query@.len() > 0 { o.search_query@.drop_last() } else { Seq::empty() }
        &&& n == (App { search_query: n.search_query, ..o }).with_active(n.active())
        &&& o.mode == AppMode::Search && n.search_query@.len() == 0 ==> filter_cleared(o.active(), n.active())
        &&& o.mode == AppMode::Search && n.search_query@.len() > 0 ==> quick_filtered(o.active(), n.active(), n.search_query@)
        &&& o.mode != AppMode::Search ==> n.active() == o.active()
    }

    fn search_backspace(&mut self)
        ensures
            Self::search_backspace_step(*old(self), *final(self)),
    {
        let mut cs = chars_of(self.search_query.as_str());
        if cs.len() > 0 {
            cs.pop();
        }
        self.search_query = string_of(&cs);
        assert(self.search_query@ =~= if old(self).search_query@.len() > 0 {
            old(self).search_query@.drop_last()
        } else {
            Seq::empty()
        });
        if self.mode == AppMode::Search {
            if cs.len() == 0 {
                if self.active_panel {
                    self.left_panel.clear_filter();
                } else {
                    self.right_panel.clear_filter();
                }
            } else {
                let q = self.search_query.clone();
                if self.active_panel {
                    self.left_panel.apply_quick_filter(q.as_str());
                } else {
                    self.right_panel.apply_quick_filter(q.as_str());
                }
            }
        }
    }

    /// What `search_confirm` makes of `o`.
    pub open spec fn search_confirm_step(o: App, n: App) -> bool {
        &&& n == (App { mode: AppMode::Normal, ..o }).with_active(n.active())
        &&& o.mode == AppMode::Filter ==> wildcard_filtered(o.active(), n.active(), o.search_query@)
        &&& o.mode != AppMode::Filter ==> n.active() == o.active()
    }

    fn search_confirm(&mut self)
        ensures
            Self::search_confirm_step(*old(self), *final(self)),
    {
        if self.mode == AppMode::Filter {
            let q = self.search_query.clone();
            if self.active_panel {
                self.left_panel.apply_wildcard_filter(q.as_str());
            } else {
                self.right_panel.apply_wildcard_filter(q.as_str());
            }
        }
        self.mode = AppMode::Normal;
    }

    /// What `search_cancel` makes of `o`.
    pub open spec fn search_cancel_step(o: App, n: App) -> bool {
        &&& n == (App { mode: AppMode::Normal, search_query: n.search_query, ..o }).with_active(n.active())
        &&& n.search_query@ == Seq::<char>::empty()
        &&& filter_cleared(o.active(), n.active())
    }

    fn search_cancel(&mut self)
        ensures
            Self::search_cancel_step(*old(self), *final(self)),
    {
        if self.active_panel {
            self.left_panel.clear_filter();
        } else {
            self.right_panel.clear_filter();
        }
        self.search_query = String::new();
        self.mode = AppMode::Normal;
    }

    /// What `update_total_size` makes of `o`.
    pub open spec fn update_total_size_step(o: App, n: App, is_left: bool, size: u64) -> bool {
        &&& n == if is_left {
            App { left_panel: PanelState { recursive_total_size: Some(size), is_calculating: false, ..o.left_panel }, ..o }
        } else {
            App { right_panel: PanelState { recursive_total_size: Some(size), is_calculating: false, ..o.right_panel }, ..o }
        }
    }

    fn update_total_size(&mut self, is_left: bool, size: u64)
        ensures
            Self::update_total_size_step(*old(self), *final(self), is_left, size),
    {
        if is_left {
            self.left_panel.recursive_total_size = Some(size);
            self.left_panel.is_calculating = false;
        } else {
            self.right_panel.recursive_total_size = Some(size);
            self.right_panel.is_calculating = false;
        }
    }
}

fn one_of(e: &String, list: &[&str]) -> (r: bool)
    ensures
        r == list@.map_values(|s: &str| s@).contains(e@),
{
    let mut i: usize = 0;
    while i < list.len()
        invariant
            i <= list.len(),
            forall|k: int| 0 <= k < i ==> list@[k]@ != e@,
        decreases list.len() - i,
    {
        if e.eq(&String::from_str(list[i])) {
            assert(list@.map_values(|s: &str| s@)[i as int] == e@);
            return true;
        }
        i = i + 1;
    }
    proof {
        let m = list@.map_values(|s: &str| s@);
        if m.contains(e@) {
            let k = choose|k: int| 0 <= k < m.len() && #[trigger] m[k] == e@;
            assert(list@[k]@ == e@);
        }
    }
    false
}

fn raw_ext_exec(path: &str) -> (r: String)
    ensures
        r@ == raw_ext(path@),
{
    match extension(path) {
        Some(e) => e,
        None => String::new(),
    }
}

fn concat2(a: &str, b: &str) -> (s: String)
    ensures
        s@ == a@ + b@,
{
    let mut s = String::from_str(a);
    push_str(&mut s, b);
    s
}

impl App {
    /// What `ai_on_file` makes of `o`.
    pub open spec fn ai_on_file_step(o: App, n: App, kind: u8, e: Effect) -> bool {
        &&& n.wf()
        &&& match current(o.active()) {
            Some(c) => if c.is_dir {
                n == o && e is Done
            } else if kind == 2 && !image_exts().contains(raw_ext(c.path@)) {
                e is Done && n == (App { ai_state: n.ai_state, mode: AppMode::AiChat, ..o })
                    && shows_error(n.ai_state, "이미지 파일을 선택해주세요"@)
            } else if kind == 3 && !source_exts().contains(raw_ext(c.path@)) {
                e is Done && n == (App { ai_state: n.ai_state, mode: AppMode::AiChat, ..o })
                    && shows_error(n.ai_state, "코드 파일을 선택해주세요"@)
            } else {
                n == (App { ai_state: n.ai_state, mode: AppMode::AiChat, ..o })
                    && shows_loading(n.ai_state, if kind == 0 {
                        c.path@
                    } else if kind == 1 {
                        "보안 스캔: "@ + c.path@
                    } else if kind == 2 {
                        "이미지 분석: "@ + c.path@
                    } else {
                        "코드 분석: "@ + c.path@
                    })
                    && (if kind == 0 {
                        (e matches Effect::StartAi(AiTask::Summarize { path }) && path == c.path)
                    } else if kind == 1 {
                        (e matches Effect::StartAi(AiTask::SecurityScan { path }) && path == c.path)
                    } else if kind == 2 {
                        (e matches Effect::StartAi(AiTask::ImageInfo { path }) && path == c.path)
                    } else {
                        (e matches Effect::StartAi(AiTask::CodeStructure { path }) && path == c.path)
                    })
            },
            None => n == o && e is Done,
        }
    }

    /// The assistant works on the entry under the cursor when it is a file: `kind` picks the
    /// task (0 summary, 1 security scan, 2 image, 3 code); images and code must have a
    /// matching extension, else an error is shown.
    fn ai_on_file(&mut self, kind: u8) -> (e: Effect)
        requires
            old(self).wf(),
            kind < 4,
        ensures
            Self::ai_on_file_step(*old(self), *final(self), kind, e),
    {
        let path = match self.active_panel().get_current_entry() {
            Some(c) => {
                if c.is_dir {
                    return Effect::Done;
                }
                c.path.clone()
            },
            None => return Effect::Done,
        };
        let ext = raw_ext_exec(path.as_str());
        if kind == 2 {
            let images: [&str; 7] = ["jpg", "jpeg", "png", "gif", "webp", "bmp", "tiff"];
            assert(images@.map_values(|s: &str| s@) =~= image_exts());
            if !one_of(&ext, &images) {
                self.ai_error(String::from_str("이미지 파일을 선택해주세요"));
                return Effect::Done;
            }
        }
        if kind == 3 {
            let codes: [&str; 10] = ["rs", "py", "js", "ts", "go", "c", "cpp", "java", "rb", "php"];
            assert(codes@.map_values(|s: &str| s@) =~= source_exts());
            if !one_of(&ext, &codes) {
                self.ai_error(String::from_str("코드 파일을 선택해주세요"));
                return Effect::Done;
            }
        }
        if kind == 0 {
            let q = path.clone();
            self.start_ai(q, AiTask::Summarize { path })
        } else if kind == 1 {
            let q = concat2("보안 스캔: ", path.as_str());
            self.start_ai(q, AiTask::SecurityScan { path })
        } else if kind == 2 {
            let q = concat2("이미지 분석: ", path.as_str());
            self.start_ai(q, AiTask::ImageInfo { path })
        } else {
            let q = concat2("코드 분석: ", path.as_str());
            self.start_ai(q, AiTask::CodeStructure { path })
        }
    }

    /// What `ai_file_diff` makes of `o`.
    pub open spec fn ai_file_diff_step(o: App, n: App, e: Effect) -> bool {
        &&& n.wf()
        &&& n == (App { ai_state: n.ai_state, mode: AppMode::AiChat, ..o })
        &&& ({
            let p = o.active();
            let sel = selected_indices(p.selected@, p.visible().len());
            if p.selected@.len() == 2 {
                if sel.len() == 2 && !p.visible()[sel[0] as int].is_dir && !p.visible()[sel[1] as int].is_dir {
                    shows_loading(n.ai_state, "파일 비교 중..."@)
                        && (e matches Effect::StartAi(AiTask::FileDiff { path1, path2 })
                        && path1 == p.visible()[sel[0] as int].path && path2 == p.visible()[sel[1] as int].path)
                } else {
                    e is Done && shows_error(n.ai_state, "2개의 파일을 선택해주세요"@)
                }
            } else {
                e is Done && shows_error(n.ai_state, "비교할 파일 2개를 선택하세요 (Insert)"@)
            }
        })
    }

    /// The assistant compares two selected files.
    fn ai_file_diff(&mut self) -> (e: Effect)
        requires
            old(self).wf(),
        ensures
            Self::ai_file_diff_step(*old(self), *final(self), e),
    {
        let p = self.active_panel();
        proof {
            vstd::std_specs::hash::axiom_spec_hash_set_len(&p.selected);
        }
        if p.selected.len() != 2 {
            self.ai_error(String::from_str("비교할 파일 2개를 선택하세요 (Insert)"));
            return Effect::Done;
        }
        let entries = p.get_selected_entries();
        let ghost sel = selected_indices(p.selected@, p.visible().len());
        proof {
            assert(entries@.map_values(|x: &FileEntry| *x).len() == entries@.len());
            assert(sel.map_values(|k: usize| p.visible()[k as int]).len() == sel.len());
        }
        if entries.len() == 2 && !entries[0].is_dir && !entries[1].is_dir {
            proof {
                assert(entries@.map_values(|x: &FileEntry| *x)[0] == *entries@[0]);
                assert(entries@.map_values(|x: &FileEntry| *x)[1] == *entries@[1]);
            }
            let path1 = entries[0].path.clone();
            let path2 = entries[1].path.clone();
            self.start_ai(String::from_str("파일 비교 중..."), AiTask::FileDiff { path1, path2 })
        } else {
            proof {
                if entries@.len() == 2 {
                    assert(entries@.map_values(|x: &FileEntry| *x)[0] == *entries@[0]);
                    assert(entries@.map_values(|x: &FileEntry| *x)[1] == *entries@[1]);
                }
            }
            self.ai_error(String::from_str("2개의 파일을 선택해주세요"));
            Effect::Done
        }
    }

    /// What `ai_folder` makes of `o`.
    pub open spec fn ai_folder_step(o: App, n: App, e: Effect) -> bool {
        &&& n.wf()
        &&& match current(o.active()) {
            Some(c) => if c.is_dir {
                n == (App { ai_state: n.ai_state, mode: AppMode::AiChat, ..o })
                    && shows_loading(n.ai_state, "폴더 분석: "@ + c.path@)
                    && (e matches Effect::StartAi(AiTask::FolderAnalysis { path }) && path == c.path)
            } else {
                e is Done && n == (App { ai_state: n.ai_state, mode: AppMode::AiChat, ..o })
                    && shows_error(n.ai_state, "폴더를 선택해주세요"@)
            },
            None => n == o && e is Done,
        }
    }

    /// The assistant analyses the folder under the cursor.
    fn ai_folder(&mut self) -> (e: Effect)
        requires
            old(self).wf(),
        ensures
            Self::ai_folder_step(*old(self), *final(self), e),
    {
        let (is_dir, path) = match self.active_panel().get_current_entry() {
            Some(c) => (c.is_dir, c.path.clone()),
            None => return Effect::Done,
        };
        if is_dir {
            let q = concat2("폴더 분석: ", path.as_str());
            self.start_ai(q, AiTask::FolderAnalysis { path })
        } else {
            self.ai_error(String::from_str("폴더를 선택해주세요"));
            Effect::Done
        }
    }

    /// What `ai_on_folder` makes of `o`.
    pub open spec fn ai_on_folder_step(o: App, n: App, kind: u8, e: Effect) -> bool {
        &&& n.wf()
        &&& n == (App { ai_state: n.ai_state, mode: AppMode::AiChat, ..o })
        &&& shows_loading(n.ai_state, (if kind == 0 {
            "중복 파일 탐지: "@
        } else if kind == 1 {
            "오래된 파일 분석: "@
        } else if kind == 2 {
            "파일 유형 분류: "@
        } else if kind == 3 {
            "저장소 분석: "@
        } else {
            "Git 이력 분석: "@
        }) + o.active().path@)
        &&& if kind == 0 {
            (e matches Effect::StartAi(AiTask::FindDuplicates { path }) && path == o.active().path)
        } else if kind == 1 {
            (e matches Effect::StartAi(AiTask::OldFiles { path }) && path == o.active().path)
        } else if kind == 2 {
            (e matches Effect::StartAi(AiTask::FileClassify { path }) && path == o.active().path)
        } else if kind == 3 {
            (e matches Effect::StartAi(AiTask::StorageOptimize { path }) && path == o.active().path)
        } else {
            (e matches Effect::StartAi(AiTask::GitHistory { path }) && path == o.active().path)
        }
    }

    /// The assistant works on the active panel's folder: `kind` 0 duplicates, 1 old files,
    /// 2 classification, 3 storage, 4 Git history.
    fn ai_on_folder(&mut self, kind: u8) -> (e: Effect)
        requires
            old(self).wf(),
            kind < 5,
        ensures
            Self::ai_on_folder_step(*old(self), *final(self), kind, e),
    {
        let path = self.active_panel().path.clone();
        if kind == 0 {
            let q = concat2("중복 파일 탐지: ", path.as_str());
            self.start_ai(q, AiTask::FindDuplicates { path })
        } else if kind == 1 {
            let q = concat2("오래된 파일 분석: ", path.as_str());
            self.start_ai(q, AiTask::OldFiles { path })
        } else if kind == 2 {
            let q = concat2("파일 유형 분류: ", path.as_str());
            self.start_ai(q, AiTask::FileClassify { path })
        } else if kind == 3 {
            let q = concat2("저장소 분석: ", path.as_str());
            self.start_ai(q, AiTask::StorageOptimize { path })
        } else {
            let q = concat2("Git 이력 분석: ", path.as_str());
            self.start_ai(q, AiTask::GitHistory { path })
        }
    }

    /// What `ai_folder_sync` makes of `o`.
    pub open spec fn ai_folder_sync_step(o: App, n: App, e: Effect) -> bool {
        &&& n.wf()
        &&& n == (App { ai_state: n.ai_state, mode: AppMode::AiChat, ..o })
        &&& n.ai_state matches Some(a) && is_loading_for(a,
            "폴더 동기화 분석: "@ + o.left_panel.path@ + " ↔ "@ + o.right_panel.path@)
        &&& (e matches Effect::StartAi(AiTask::FolderSync { left, right }) && left == o.left_panel.path
            && right == o.right_panel.path)
    }

    /// The assistant compares the two panels' folders.
    fn ai_folder_sync(&mut self) -> (e: Effect)
        requires
            old(self).wf(),
        ensures
            Self::ai_folder_sync_step(*old(self), *final(self), e),
    {
        let left = self.left_panel.path.clone();
        let right = self.right_panel.path.clone();
        let mut q = String::from_str("폴더 동기화 분석: ");
        push_str(&mut q, left.as_str());
        push_str(&mut q, " ↔ ");
        push_str(&mut q, right.as_str());
        self.start_ai(q, AiTask::FolderSync { left, right })
    }

    /// What `ai_readme` makes of `o`.
    pub open spec fn ai_readme_step(o: App, n: App, e: Effect) -> bool {
        &&& n.wf()
        &&& n == (App { ai_state: n.ai_state, mode: AppMode::AiChat, ..o })
        &&& ({
            let root = match current(o.active()) {
                Some(c) => if c.is_dir { c.path } else { o.active().path },
                None => o.active().path,
            };
            shows_loading(n.ai_state, "📝 README.md 생성 중: "@ + root@)
                && (e matches Effect::StartAi(AiTask::GenerateReadme { root: r }) && r == root)
        })
    }

    /// The assistant writes a README for the folder under the cursor, else the panel's folder.
    fn ai_readme(&mut self) -> (e: Effect)
        requires
            old(self).wf(),
        ensures
            Self::ai_readme_step(*old(self), *final(self), e),
    {
        let root = match self.active_panel().get_current_entry() {
            Some(c) => if c.is_dir { c.path.clone() } else { self.active_panel().path.clone() },
            None => self.active_panel().path.clone(),
        };
        let q = concat2("📝 README.md 생성 중: ", root.as_str());
        self.start_ai(q, AiTask::GenerateReadme { root })
    }
}

/// The text listing the saved macros.
pub open spec fn macro_list_text(names: Seq<Seq<char>>) -> Seq<char> {
    if names.len() == 0 {
        "저장된 매크로가 없습니다.\n\nCtrl+R로 새 매크로를 녹화해주세요."@
    } else {
        "저장된 매크로:\n\n"@ + numbered(names, 0) + "\n실행하려면 Alt+P를 누르세요."@
    }
}

/// `names[from..]` as numbered lines, counting from `from + 1`.
pub open spec fn numbered(names: Seq<Seq<char>>, from: int) -> Seq<char>
    decreases names.len() - from,
{
    if from >= names.len() || from < 0 {
        Seq::empty()
    } else {
        crate::text::decimal((from + 1) as nat) + ". "@ + names[from] + "\n"@ + numbered(names, from + 1)
    }
}

proof fn lemma_numbered_push(names: Seq<Seq<char>>, from: int, upto: int)
    requires
        0 <= from <= upto < names.len(),
    ensures
        numbered(names.take(upto + 1), from) == numbered(names.take(upto), from)
            + crate::text::decimal((upto + 1) as nat) + ". "@ + names[upto] + "\n"@,
    decreases upto - from,
{
    if from < upto {
        lemma_numbered_push(names, from + 1, upto);
        assert(names.take(upto + 1)[from] == names.take(upto)[from]);
    } else {
        assert(numbered(names.take(upto), from) == Seq::<char>::empty());
        assert(numbered(names.take(upto + 1), from + 1) == Seq::<char>::empty());
    }
}

fn macro_list_exec(names: &Vec<String>) -> (s: String)
    ensures
        s@ == macro_list_text(names@.map_values(|n: String| n@)),
{
    let ghost nv = names@.map_values(|n: String| n@);
    if names.len() == 0 {
        return String::from_str("저장된 매크로가 없습니다.\n\nCtrl+R로 새 매크로를 녹화해주세요.");
    }
    let mut s = String::from_str("저장된 매크로:\n\n");
    let ghost head = s@;
    let mut i: usize = 0;
    assert(numbered(nv.take(0), 0) == Seq::<char>::empty());
    while i < names.len()
        invariant
            i <= names.len(),
            nv == names@.map_values(|n: String| n@),
            s@ == head + numbered(nv.take(i as int), 0),
        decreases names.len() - i,
    {
        let ghost before = s@;
        crate::text::push_decimal(&mut s, (i + 1) as u64);
        push_str(&mut s, ". ");
        push_str(&mut s, names[i].as_str());
        push_str(&mut s, "\n");
        proof {
            lemma_numbered_push(nv, 0, i as int);
            assert(nv[i as int] == names@[i as int]@);
            assert(s@ =~= head + numbered(nv.take(i + 1), 0));
        }
        i = i + 1;
    }
    assert(nv.take(names.len() as int) =~= nv);
    push_str(&mut s, "\n실행하려면 Alt+P를 누르세요.");
    s
}

impl App {
    /// What `ai_scroll` makes of `o`.
    pub open spec fn ai_scroll_step(o: App, n: App, which: u8) -> bool {
        &&& n.wf()
        &&& n == match o.ai_state {
            Some(a) => App {
                ai_state: Some(AiState {
                    scroll: if which == 0 {
                        if a.scroll > 0 { (a.scroll - 1) as u16 } else { 0 }
                    } else if which == 1 {
                        if a.scroll + 20 < (a.lines@.len() as u16) { (a.scroll + 1) as u16 } else { a.scroll }
                    } else if which == 2 {
                        if a.scroll > 10 { (a.scroll - 10) as u16 } else { 0 }
                    } else {
                        let n = a.lines@.len() as u16;
                        let last: u16 = if n > 20 { (n - 20) as u16 } else { 0 };
                        if a.scroll + 10 < last { (a.scroll + 10) as u16 } else { last }
                    },
                    ..a
                }),
                ..o
            },
            None => o,
        }
    }

    fn ai_scroll(&mut self, which: u8)
        requires
            old(self).wf(),
            which < 4,
        ensures
            Self::ai_scroll_step(*old(self), *final(self), which),
    {
        match &mut self.ai_state {
            Some(a) => {
                if which == 0 {
                    a.scroll_up();
                } else if which == 1 {
                    a.scroll_down(20);
                } else if which == 2 {
                    a.page_up();
                } else {
                    a.page_down(20);
                }
            },
            None => {},
        }
    }

    /// What `commands_parsed` makes of `o`.
    pub open spec fn commands_parsed_step(o: App, n: App, ops: Vec<PlannedOp>) -> bool {
        &&& n.wf()
        &&& ops@.len() == 0 ==> n == (App { ai_state: n.ai_state, mode: AppMode::AiChat, ..o })
            && shows_error(n.ai_state, "파싱된 작업이 없습니다"@)
        &&& ops@.len() > 0 ==> n == (App {
            ai_command_state: Some(AiCommandState { ops, scroll: 0 }),
            mode: AppMode::AiCommandConfirm,
            ..o
        })
    }

    /// Parsed operations wait for confirmation; none at all is an error.
    fn commands_parsed(&mut self, ops: Vec<PlannedOp>)
        requires
            old(self).wf(),
        ensures
            Self::commands_parsed_step(*old(self), *final(self), ops),
    {
        if ops.len() == 0 {
            self.ai_error(String::from_str("파싱된 작업이 없습니다"));
        } else {
            self.ai_command_state = Some(AiCommandState::new(ops));
            self.mode = AppMode::AiCommandConfirm;
        }
    }

    /// What `commands_confirmed` makes of `o`.
    pub open spec fn commands_confirmed_step(o: App, n: App, e: Effect) -> bool {
        &&& n.wf()
        &&& n.ai_command_state is None
        &&& n.mode == AppMode::Normal
        &&& match o.ai_command_state {
            Some(cs) => {
                &&& (e matches Effect::RunOps(ops) && ops@ == cs.ops@)
                &&& n.recording == match o.recording {
                    Some(r) => Some(n.recording->0),
                    None => None::<Vec<PlannedOp>>,
                }
                &&& (o.recording matches Some(r) ==> n.recording->0@ == r@ + cs.ops@)
                &&& n.left_panel == (PanelState { selected: n.left_panel.selected, ..o.left_panel })
                &&& n.right_panel == (PanelState { selected: n.right_panel.selected, ..o.right_panel })
                &&& n.left_panel.selected@.is_empty()
                &&& n.right_panel.selected@.is_empty()
                &&& n == (App {
                    left_panel: n.left_panel,
                    right_panel: n.right_panel,
                    recording: n.recording,
                    ai_command_state: None,
                    mode: AppMode::Normal,
                    ..o
                })
            },
            None => e is Done && n == (App { ai_command_state: None, mode: AppMode::Normal, ..o }),
        }
    }

    /// Confirming the waiting operations: they are recorded when a macro is being recorded,
    /// both panels' selections are cleared, and the operations go out to be carried out.
    fn commands_confirmed(&mut self) -> (e: Effect)
        requires
            old(self).wf(),
        ensures
            Self::commands_confirmed_step(*old(self), *final(self), e),
    {
        let cs = match self.ai_command_state.take() {
            Some(cs) => cs,
            None => {
                self.mode = AppMode::Normal;
                return Effect::Done;
            },
        };
        let ops = copy_ops(&cs.ops);
        match &mut self.recording {
            Some(buf) => {
                let ghost before = buf@;
                let mut i: usize = 0;
                while i < ops.len()
                    invariant
                        i <= ops.len(),
                        buf@ == before + ops@.take(i as int),
                    decreases ops.len() - i,
                {
                    buf.push(ops[i].copy());
                    i = i + 1;
                    assert(buf@ =~= before + ops@.take(i as int));
                }
                assert(ops@.take(ops.len() as int) =~= ops@);
            },
            None => {},
        }
        self.left_panel.clear_selection();
        self.right_panel.clear_selection();
        self.mode = AppMode::Normal;
        Effect::RunOps(ops)
    }

    /// What `macro_record` makes of `o`.
    pub open spec fn macro_record_step(o: App, n: App) -> bool {
        &&& n.wf()
        &&& match o.recording {
            Some(r) => if r@.len() > 0 {
                Self::dialog_opened(
                    App { recording: None, pending_macro_ops: Some(r), ..o },
                    n,
                    DialogKind::SaveMacro,
                    Seq::empty(),
                    "💾 매크로 이름 입력"@,
                )
            } else {
                n == (App { recording: None, ..o })
            },
            None => n.recording matches Some(r) && r@.len() == 0
                && n == (App { recording: n.recording, ..o }),
        }
    }

    /// Starts recording operations; when recording, stops, and asks for a name for what was
    /// recorded (if anything was).
    fn macro_record(&mut self)
        requires
            old(self).wf(),
        ensures
            Self::macro_record_step(*old(self), *final(self)),
    {
        match self.recording.take() {
            Some(ops) => {
                if ops.len() > 0 {
                    self.dialog = Some(DialogState::new_save_macro());
                    self.pending_macro_ops = Some(ops);
                    self.mode = AppMode::Dialog;
                }
            },
            None => {
                self.recording = Some(Vec::new());
            },
        }
    }

    /// What `macro_list` makes of `o`.
    pub open spec fn macro_list_step(o: App, n: App) -> bool {
        &&& n.wf()
        &&& n == (App { ai_state: n.ai_state, mode: AppMode::AiChat, ..o })
        &&& exists|names: Seq<Seq<char>>| #[trigger] names.to_set() == o.macros@.dom()
            && names.len() == o.macros@.dom().len()
            && (forall|i: int, j: int| 0 <= i < j < names.len() ==> crate::order::lex_le(names[i], names[j]) && names[i] != names[j])
            && shows_text(n.ai_state, macro_list_text(names))
    }

    /// Lists the saved macros in the assistant's view.
    fn macro_list(&mut self)
        requires
            old(self).wf(),
        ensures
            Self::macro_list_step(*old(self), *final(self)),
    {
        let names = self.macros.list();
        let text = macro_list_exec(&names);
        self.ai_show(text);
        self.mode = AppMode::AiChat;
        proof {
            let nv = names@.map_values(|n: String| n@);
            assert forall|i: int, j: int| 0 <= i < j < nv.len() implies crate::order::lex_le(nv[i], nv[j]) && nv[i] != nv[j] by {
                assert(nv[i] == names@[i]@ && nv[j] == names@[j]@);
            }
        }
    }

    /// What `refresh` makes of `o`: the active panel starts computing its folder's size
    /// (unless it already is, or shows an archive), and is to be listed again.
    pub open spec fn refresh_step(o: App, n: App, e: Effect) -> bool {
        let p = o.active();
        let started = !p.is_calculating && p.archive_base is None;
        &&& n == o.with_active(if started { PanelState { is_calculating: true, ..p } } else { p })
        &&& e == (Effect::Relist { is_left: o.active_panel, size: started })
    }

    fn refresh(&mut self) -> (e: Effect)
        ensures
            Self::refresh_step(*old(self), *final(self), e),
    {
        let is_left = self.active_panel;
        let size = if is_left { self.left_panel.start_size_calc() } else { self.right_panel.start_size_calc() };
        Effect::Relist { is_left, size }
    }

    /// What `toggle_hidden` makes of `o`.
    pub open spec fn toggle_hidden_step(o: App, n: App, e: Effect) -> bool {
        &&& n == (App {
            config: Config { ui: crate::config::UiConfig { show_hidden: !o.config.ui.show_hidden, ..o.config.ui }, ..o.config },
            ..o
        })
        &&& e == (Effect::RelistBoth { show_hidden: !o.config.ui.show_hidden })
    }

    fn toggle_hidden(&mut self) -> (e: Effect)
        ensures
            Self::toggle_hidden_step(*old(self), *final(self), e),
    {
        self.config.ui.show_hidden = !self.config.ui.show_hidden;
        Effect::RelistBoth { show_hidden: self.config.ui.show_hidden }
    }

    /// What `view` makes of `o`.
    pub open spec fn view_step(o: App, e: Effect) -> bool {
        &&& match current(o.active()) {
            Some(c) => if c.is_dir { e is Done } else { e matches Effect::OpenViewer(p) && p == c.path },
            None => e is Done,
        }
    }

    fn view(&self) -> (e: Effect)
        ensures
            Self::view_step(*self, e),
    {
        match self.active_panel().get_current_entry() {
            Some(c) => if c.is_dir { Effect::Done } else { Effect::OpenViewer(c.path.clone()) },
            None => Effect::Done,
        }
    }

    /// What `cancel_dialog` makes of `o`.
    pub open spec fn cancel_dialog_step(o: App, n: App, e: Effect) -> bool {
        &&& n == (App { dialog: None, viewer: None, mode: AppMode::Normal, ..o })
        &&& e is StopWatcher
    }

    fn cancel_dialog(&mut self) -> (e: Effect)
        ensures
            Self::cancel_dialog_step(*old(self), *final(self), e),
    {
        self.dialog = None;
        self.viewer = None;
        self.mode = AppMode::Normal;
        Effect::StopWatcher
    }

    /// What `find_results` makes of `o`.
    pub open spec fn find_results_step(o: App, n: App, results: Vec<FileEntry>) -> bool {
        &&& n == (App { ai_state: None, mode: AppMode::Normal, ..o }).with_active(n.active())
        &&& n.active().filter_query matches Some(q) && q@ == "[Find Results]"@
        &&& n.active().search_mode == SearchMode::Find
        &&& n.active().filtered_entries == results
        &&& n.active() == (PanelState {
            filter_query: n.active().filter_query,
            search_mode: SearchMode::Find,
            filtered_entries: results,
            cursor: 0,
            ..o.active()
        })
    }

    fn find_results(&mut self, results: Vec<FileEntry>)
        ensures
            Self::find_results_step(*old(self), *final(self), results),
    {
        if self.active_panel {
            self.left_panel.set_find_results(results);
        } else {
            self.right_panel.set_find_results(results);
        }
        self.ai_state = None;
        self.mode = AppMode::Normal;
    }

    /// The viewer shows `v`.
    pub fn show_viewer(&mut self, v: ViewerState)
        ensures
            *final(self) == (App { viewer: Some(v), mode: AppMode::Viewer, ..*old(self) }),
    {
        self.viewer = Some(v);
        self.mode = AppMode::Viewer;
    }

    /// What reading the followed file found: its length now, and the text added since the
    /// last read (`None` when it could not be read). Added text is appended (wrapped at 100
    /// columns); a shorter file restarts reading from its start.
    pub fn tail_read(&mut self, new_len: u64, new_text: Option<String>)
        ensures
            match old(self).viewer {
                Some(v) => if v.is_tail_active && new_len > v.last_offset {
                    match new_text {
                        Some(t) => if v.scroll + v.viewport_height <= usize::MAX {
                            final(self).viewer matches Some(w) && w.last_offset == new_len
                                && lines_view(w.lines@) == lines_view(v.lines@) + if v.wrap {
                                    crate::viewer::wrap_all(crate::viewer::plain_lines(t@), 100)
                                } else {
                                    crate::viewer::plain_lines(t@)
                                }
                                && *final(self) == (App { viewer: final(self).viewer, ..*old(self) })
                        } else {
                            *final(self) == *old(self)
                        },
                        None => *final(self) == *old(self),
                    }
                } else if v.is_tail_active && new_len < v.last_offset {
                    *final(self) == (App { viewer: Some(ViewerState { last_offset: 0, ..v }), ..*old(self) })
                } else {
                    *final(self) == *old(self)
                },
                None => *final(self) == *old(self),
            },
    {
        match &mut self.viewer {
            Some(v) => {
                if !v.is_tail_active {
                    return;
                }
                if new_len > v.last_offset {
                    match new_text {
                        Some(t) => {
                            if v.scroll <= usize::MAX - v.viewport_height {
                                v.append_new_content(t.as_str(), 100);
                                v.last_offset = new_len;
                            }
                        },
                        None => {},
                    }
                } else if new_len < v.last_offset {
                    v.last_offset = 0;
                }
            },
            None => {},
        }
    }
}


/// Where `src` lands when moved or copied into the folder `dir`: `dir` joined with the
/// source's file name (an empty name when it has none).
pub open spec fn into_dir(dir: Seq<char>, src: Seq<char>) -> Seq<char> {
    join_of(dir, match file_name_of(src) {
        Some(n) => n,
        None => Seq::empty(),
    })
}

/// Copying (or moving) each of `srcs` into the folder `dir`, in order.
pub open spec fn transfer_plan(srcs: Seq<Seq<char>>, dir: Seq<char>, copy: bool) -> Seq<OpView> {
    srcs.map_values(|s: Seq<char>| if copy { OpView::Copy(s, into_dir(dir, s)) } else { OpView::Move(s, into_dir(dir, s)) })
}

/// Deleting each of `srcs`, in order.
pub open spec fn delete_plan(srcs: Seq<Seq<char>>) -> Seq<OpView> {
    srcs.map_values(|s: Seq<char>| OpView::Delete(s))
}

/// An entry as the assistant is shown it: its name, then whether it is a folder.
pub open spec fn entry_line(e: FileEntry) -> Seq<char> {
    e.name@ + if e.is_dir { " (DIR)"@ } else { " (FILE)"@ }
}

/// A listing as the assistant is shown it, one entry per line.
pub open spec fn listing_text(es: Seq<FileEntry>) -> Seq<char> {
    join_sep(es.map_values(|e: FileEntry| entry_line(e)), '\n')
}

/// `new` is the recording `rec` after `ops` were done: they are appended while recording.
pub open spec fn recorded_after(rec: Option<Vec<PlannedOp>>, new: Option<Vec<PlannedOp>>, ops: Seq<PlannedOp>) -> bool {
    match rec {
        Some(r) => new matches Some(n) && n@ == r@ + ops,
        None => new is None,
    }
}

/// `text` in double quotes after `head`.
pub open spec fn quoted_after(head: Seq<char>, text: Seq<char>) -> Seq<char> {
    head + "\""@ + text + "\""@
}

fn transfer_ops(srcs: &Vec<String>, dir: &str, copy: bool) -> (r: Vec<PlannedOp>)
    ensures
        ops_view(r@) == transfer_plan(srcs@.map_values(|s: String| s@), dir@, copy),
{
    let ghost sv = srcs@.map_values(|s: String| s@);
    let mut r: Vec<PlannedOp> = Vec::new();
    let mut i: usize = 0;
    while i < srcs.len()
        invariant
            i <= srcs.len(),
            sv == srcs@.map_values(|s: String| s@),
            ops_view(r@) == transfer_plan(sv.take(i as int), dir@, copy),
        decreases srcs.len() - i,
    {
        let name = match file_name(srcs[i].as_str()) {
            Some(n) => n,
            None => String::new(),
        };
        let to = join(dir, name.as_str());
        let from = srcs[i].clone();
        let ghost before = r@;
        if copy {
            r.push(PlannedOp::Copy { from, to });
        } else {
            r.push(PlannedOp::Move { from, to });
        }
        proof {
            assert(sv[i as int] == srcs@[i as int]@);
            assert(sv.take(i + 1) =~= sv.take(i as int).push(sv[i as int]));
            assert(ops_view(r@) =~= ops_view(before).push(op_view(r@[i as int])));
            assert(ops_view(r@) =~= transfer_plan(sv.take(i + 1), dir@, copy));
        }
        i = i + 1;
    }
    assert(sv.take(srcs.len() as int) =~= sv);
    r
}

fn delete_ops(srcs: &Vec<String>) -> (r: Vec<PlannedOp>)
    ensures
        ops_view(r@) == delete_plan(srcs@.map_values(|s: String| s@)),
{
    let ghost sv = srcs@.map_values(|s: String| s@);
    let mut r: Vec<PlannedOp> = Vec::new();
    let mut i: usize = 0;
    while i < srcs.len()
        invariant
            i <= srcs.len(),
            sv == srcs@.map_values(|s: String| s@),
            ops_view(r@) == delete_plan(sv.take(i as int)),
        decreases srcs.len() - i,
    {
        let ghost before = r@;
        r.push(PlannedOp::Delete { path: srcs[i].clone() });
        proof {
            assert(sv[i as int] == srcs@[i as int]@);
            assert(sv.take(i + 1) =~= sv.take(i as int).push(sv[i as int]));
            assert(ops_view(r@) =~= ops_view(before).push(op_view(r@[i as int])));
            assert(ops_view(r@) =~= delete_plan(sv.take(i + 1)));
        }
        i = i + 1;
    }
    assert(sv.take(srcs.len() as int) =~= sv);
    r
}

/// The listing of `es` as the assistant is shown it (see `listing_text`).
fn entries_listing(es: &Vec<FileEntry>) -> (s: String)
    ensures
        s@ == listing_text(es@),
{
    let mut lines: Vec<String> = Vec::new();
    let mut i: usize = 0;
    while i < es.len()
        invariant
            i <= es.len(),
            lines@.map_values(|s: String| s@) == es@.take(i as int).map_values(|e: FileEntry| entry_line(e)),
        decreases es.len() - i,
    {
        let e = &es[i];
        let mut l = e.name.clone();
        if e.is_dir {
            push_str(&mut l, " (DIR)");
        } else {
            push_str(&mut l, " (FILE)");
        }
        let ghost before = lines@;
        lines.push(l);
        proof {
            assert(es@.take(i + 1) =~= es@.take(i as int).push(es@[i as int]));
            assert(lines@.map_values(|s: String| s@) =~= before.map_values(|s: String| s@).push(entry_line(es@[i as int])));
        }
        i = i + 1;
    }
    assert(es@.take(es.len() as int) =~= es@);
    join_strings(&lines, '\n')
}

fn quoted(head: &str, text: &str) -> (s: String)
    ensures
        s@ == quoted_after(head@, text@),
{
    let mut s = String::from_str(head);
    push_str(&mut s, "\"");
    push_str(&mut s, text);
    push_str(&mut s, "\"");
    s
}

/// Whether a search text asks in natural language (see `is_natural_query`).
fn is_natural_exec(q: &str) -> (r: bool)
    ensures
        r == is_natural_query(q@),
{
    let n = q.as_bytes().len();
    let cs = chars_of(q);
    let words: [&str; 6] = ["전", "후", "주", "달", "크기", "보다"];
    let mut found = false;
    let mut i: usize = 0;
    while i < 6
        invariant
            i <= 6,
            cs@ == q@,
            found == exists|k: int| 0 <= k < i && contains_seq(q@, #[trigger] words@[k]@),
        decreases 6 - i,
    {
        if contains_exec(&cs, &chars_of(words[i])) {
            found = true;
        }
        i = i + 1;
    }
    proof {
        assert(words@[0]@ == "전"@);
        assert(words@[1]@ == "후"@);
        assert(words@[2]@ == "주"@);
        assert(words@[3]@ == "달"@);
        assert(words@[4]@ == "크기"@);
        assert(words@[5]@ == "보다"@);
    }
    n > 10 || found
}

impl App {
    /// Appends copies of `ops` to the recording, if one is running.
    fn record(&mut self, ops: &Vec<PlannedOp>)
        ensures
            recorded_after(old(self).recording, final(self).recording, ops@),
            *final(self) == (App { recording: final(self).recording, ..*old(self) }),
    {
        match &mut self.recording {
            Some(buf) => {
                let ghost before = buf@;
                let mut i: usize = 0;
                while i < ops.len()
                    invariant
                        i <= ops.len(),
                        buf@ == before + ops@.take(i as int),
                    decreases ops.len() - i,
                {
                    buf.push(ops[i].copy());
                    i = i + 1;
                    assert(buf@ =~= before + ops@.take(i as int));
                }
                assert(ops@.take(ops.len() as int) =~= ops@);
            },
            None => {},
        }
    }

    /// What `confirm_files` makes of `o`.
    pub open spec fn confirm_files_step(o: App, n: App, e: Effect) -> bool {
        &&& n.wf()
        &&& ({
            let d = o.dialog->0;
            let srcs = target_paths(o.active());
            let plan = if d.kind == DialogKind::Copy {
                transfer_plan(srcs, d.input@, true)
            } else if d.kind == DialogKind::Move {
                transfer_plan(srcs, d.input@, false)
            } else {
                delete_plan(srcs)
            };
            e matches Effect::Confirmed { work: DialogWork::Files { ops, clears_selection }, refresh } && refresh
                && clears_selection && ops_view(ops@) == plan
        })
        &&& n == (App { dialog: None, mode: AppMode::Normal, ..o })
    }

    /// Confirms a copy, move or delete: the operations on the targets go out to be carried
    /// out; the selection and the recording wait for them to succeed.
    fn confirm_files(&mut self) -> (e: Effect)
        requires
            old(self).wf(),
            old(self).dialog matches Some(d) && (d.kind == DialogKind::Copy || d.kind == DialogKind::Move
                || d.kind == DialogKind::Delete),
        ensures
            Self::confirm_files_step(*old(self), *final(self), e),
    {
        let d = match self.dialog.take() {
            Some(d) => d,
            None => return Effect::Done,
        };
        let srcs = target_paths_exec(self.active_panel());
        let ops = if d.kind == DialogKind::Copy {
            transfer_ops(&srcs, d.input.as_str(), true)
        } else if d.kind == DialogKind::Move {
            transfer_ops(&srcs, d.input.as_str(), false)
        } else {
            delete_ops(&srcs)
        };
        self.mode = AppMode::Normal;
        Effect::Confirmed { work: DialogWork::Files { ops, clears_selection: true }, refresh: true }
    }

    /// What `work_done` makes of `o`: file operations are recorded (while recording) and,
    /// like a packing, may clear the active panel's selection; other work changes nothing.
    pub open spec fn work_done_step(o: App, n: App, work: DialogWork) -> bool {
        match work {
            DialogWork::Files { ops, clears_selection } => {
                &&& recorded_after(o.recording, n.recording, ops@)
                &&& if clears_selection {
                    &&& n == (App { recording: n.recording, ..o }).with_active(n.active())
                    &&& n.active() == (PanelState { selected: n.active().selected, ..o.active() })
                    &&& n.active().selected@.is_empty()
                } else {
                    n == (App { recording: n.recording, ..o })
                }
            },
            DialogWork::Pack { .. } => Self::clear_selection_step(o, n),
            _ => n == o,
        }
    }

    /// Called once a confirmed dialog's work has succeeded: records its file operations and
    /// clears the selection where the work says so (see `work_done_step`).
    pub fn work_done(&mut self, work: &DialogWork)
        requires
            old(self).wf(),
        ensures
            final(self).wf(),
            Self::work_done_step(*old(self), *final(self), *work),
    {
        match work {
            DialogWork::Files { ops, clears_selection } => {
                self.record(ops);
                if *clears_selection {
                    self.clear_selection();
                }
            },
            DialogWork::Pack { .. } => self.clear_selection(),
            _ => {},
        }
    }
}


impl App {
    /// What `confirm_mkdir` makes of `o`.
    pub open spec fn confirm_mkdir_step(o: App, n: App, e: Effect) -> bool {
        &&& n.wf()
        &&& e matches Effect::Confirmed { work: DialogWork::Files { ops, clears_selection }, refresh } && refresh
            && !clears_selection
            && ops_view(ops@) == seq![OpView::Mkdir(join_of(o.active().path@, o.dialog->0.input@))]
        &&& n == (App { dialog: None, mode: AppMode::Normal, ..o })
    }

    /// Confirms a new folder: making `name` in the active panel's folder goes out to be
    /// carried out (and is recorded once done).
    fn confirm_mkdir(&mut self) -> (e: Effect)
        requires
            old(self).wf(),
            old(self).dialog matches Some(d) && d.kind == DialogKind::Mkdir,
        ensures
            Self::confirm_mkdir_step(*old(self), *final(self), e),
    {
        let d = match self.dialog.take() {
            Some(d) => d,
            None => return Effect::Done,
        };
        let path = join(self.active_panel().path.as_str(), d.input.as_str());
        let mut ops: Vec<PlannedOp> = Vec::new();
        ops.push(PlannedOp::Mkdir { path });
        assert(ops_view(ops@) =~= seq![op_view(ops@[0])]);
        self.mode = AppMode::Normal;
        Effect::Confirmed { work: DialogWork::Files { ops, clears_selection: false }, refresh: true }
    }

    /// What `confirm_rename` makes of `o`.
    pub open spec fn confirm_rename_step(o: App, n: App, e: Effect) -> bool {
        &&& n.wf()
        &&& match current(o.active()) {
            Some(c) => e matches Effect::Confirmed { work: DialogWork::Files { ops, clears_selection }, refresh } && refresh
                && !clears_selection && ops_view(ops@) == seq![OpView::Rename(c.path@, o.dialog->0.input@)],
            None => (e matches Effect::Confirmed { work: DialogWork::Nothing, refresh } && refresh),
        }
        &&& n == (App { dialog: None, mode: AppMode::Normal, ..o })
    }

    /// Confirms a rename of the entry under the cursor (nothing without one); the rename goes
    /// out to be carried out (and is recorded once done).
    fn confirm_rename(&mut self) -> (e: Effect)
        requires
            old(self).wf(),
            old(self).dialog matches Some(d) && d.kind == DialogKind::Rename,
        ensures
            Self::confirm_rename_step(*old(self), *final(self), e),
    {
        let d = match self.dialog.take() {
            Some(d) => d,
            None => return Effect::Done,
        };
        self.mode = AppMode::Normal;
        let from = match self.active_panel().get_current_entry() {
            Some(c) => c.path.clone(),
            None => return Effect::Confirmed { work: DialogWork::Nothing, refresh: true },
        };
        let mut ops: Vec<PlannedOp> = Vec::new();
        ops.push(PlannedOp::Rename { from, to: d.input });
        assert(ops_view(ops@) =~= seq![op_view(ops@[0])]);
        Effect::Confirmed { work: DialogWork::Files { ops, clears_selection: false }, refresh: true }
    }

    /// What `confirm_pack` makes of `o`.
    pub open spec fn confirm_pack_step(o: App, n: App, e: Effect) -> bool {
        &&& n.wf()
        &&& e matches Effect::Confirmed { work: DialogWork::Pack { srcs, dst }, refresh } && refresh
            && srcs@.map_values(|s: String| s@) == target_paths(o.active())
            && dst@ == join_of(o.inactive().path@, o.dialog->0.input@)
        &&& n == (App { dialog: None, mode: AppMode::Normal, ..o })
    }

    /// Confirms packing the targets into the archive named by the input, in the other
    /// panel's folder (the selection is cleared once packed).
    fn confirm_pack(&mut self) -> (e: Effect)
        requires
            old(self).wf(),
            old(self).dialog matches Some(d) && d.kind == DialogKind::Pack,
        ensures
            Self::confirm_pack_step(*old(self), *final(self), e),
    {
        let d = match self.dialog.take() {
            Some(d) => d,
            None => return Effect::Done,
        };
        let dst = join(self.inactive_panel().path.as_str(), d.input.as_str());
        let srcs = target_paths_exec(self.active_panel());
        self.mode = AppMode::Normal;
        Effect::Confirmed { work: DialogWork::Pack { srcs, dst }, refresh: true }
    }

    /// What `confirm_note` makes of `o`.
    pub open spec fn confirm_note_step(o: App, n: App, e: Effect) -> bool {
        &&& n.wf()
        &&& match current(o.active()) {
            Some(c) => ({
                let memo = o.dialog->0.input@;
                &&& n.notes@ == o.notes@.insert(c.path@, (memo, tags_of(words(memo)), n.notes@[c.path@].2))
                &&& (e matches Effect::Confirmed { work: DialogWork::SaveNotes, refresh } && refresh)
            }),
            None => n.notes == o.notes && (e matches Effect::Confirmed { work: DialogWork::Nothing, refresh } && refresh),
        }
        &&& n == (App { dialog: None, mode: AppMode::Normal, notes: n.notes, ..o })
    }

    /// Confirms the note on the entry under the cursor: the input becomes its memo, with the
    /// tags written in it, and the notes are saved.
    fn confirm_note(&mut self) -> (e: Effect)
        requires
            old(self).wf(),
            old(self).dialog matches Some(d) && d.kind == DialogKind::AddNote,
        ensures
            Self::confirm_note_step(*old(self), *final(self), e),
    {
        let d = match self.dialog.take() {
            Some(d) => d,
            None => return Effect::Done,
        };
        self.mode = AppMode::Normal;
        let path = match self.active_panel().get_current_entry() {
            Some(c) => c.path.clone(),
            None => return Effect::Confirmed { work: DialogWork::Nothing, refresh: true },
        };
        let tags = note_tags(d.input.as_str());
        self.notes.set_note(path, d.input, tags);
        Effect::Confirmed { work: DialogWork::SaveNotes, refresh: true }
    }

    /// What `confirm_find` makes of `o`.
    pub open spec fn confirm_find_step(o: App, n: App, e: Effect) -> bool {
        &&& n.wf()
        &&& ({
            let q = o.dialog->0.input@;
            let root = o.active().path;
            if is_natural_query(q) {
                &&& n == (App { dialog: None, mode: AppMode::Normal, ai_state: n.ai_state, ..o })
                &&& shows_loading(n.ai_state, quoted_after("🔍 스마트 검색 해석 중: "@, q))
                &&& e matches Effect::Confirmed { work: DialogWork::Ai(AiTask::SmartSearch { query, root: r }), refresh }
                    && refresh && query@ == q && r == root
            } else {
                &&& n == (App { dialog: None, mode: AppMode::Normal, ..o })
                &&& e matches Effect::Confirmed { work: DialogWork::FindFiles { root: r, query }, refresh }
                    && refresh && query@ == q && r == root
            }
        })
    }

    /// Confirms a search below the active panel's folder: a question in natural language
    /// goes to the assistant, a name to a search by name.
    fn confirm_find(&mut self) -> (e: Effect)
        requires
            old(self).wf(),
            old(self).dialog matches Some(d) && d.kind == DialogKind::Find,
        ensures
            Self::confirm_find_step(*old(self), *final(self), e),
    {
        let d = match self.dialog.take() {
            Some(d) => d,
            None => return Effect::Done,
        };
        let root = self.active_panel().path.clone();
        self.mode = AppMode::Normal;
        if is_natural_exec(d.input.as_str()) {
            self.ai_state = Some(AiState::loading(quoted("🔍 스마트 검색 해석 중: ", d.input.as_str())));
            Effect::Confirmed { work: DialogWork::Ai(AiTask::SmartSearch { query: d.input, root }), refresh: true }
        } else {
            Effect::Confirmed { work: DialogWork::FindFiles { root, query: d.input }, refresh: true }
        }
    }

    /// What `confirm_script` makes of `o`.
    pub open spec fn confirm_script_step(o: App, n: App, e: Effect) -> bool {
        &&& n.wf()
        &&& n == (App { dialog: None, mode: AppMode::Normal, ai_state: n.ai_state, ..o })
        &&& shows_loading(n.ai_state, quoted_after("📜 스크립트 생성 중: "@, o.dialog->0.input@))
        &&& e matches Effect::Confirmed { work: DialogWork::Ai(AiTask::GenerateScript { listing, instruction }), refresh }
            && refresh && instruction@ == o.dialog->0.input@
            && listing@ == join_sep(target_paths(o.active()), '\n')
    }

    /// Confirms a script request: the assistant writes a script for the targets.
    fn confirm_script(&mut self) -> (e: Effect)
        requires
            old(self).wf(),
            old(self).dialog matches Some(d) && d.kind == DialogKind::GenerateScript,
        ensures
            Self::confirm_script_step(*old(self), *final(self), e),
    {
        let d = match self.dialog.take() {
            Some(d) => d,
            None => return Effect::Done,
        };
        let files = target_paths_exec(self.active_panel());
        let listing = join_strings(&files, '\n');
        self.ai_state = Some(AiState::loading(quoted("📜 스크립트 생성 중: ", d.input.as_str())));
        self.mode = AppMode::Normal;
        Effect::Confirmed { work: DialogWork::Ai(AiTask::GenerateScript { listing, instruction: d.input }), refresh: true }
    }

    /// What `confirm_ai_command` makes of `o`.
    pub open spec fn confirm_ai_command_step(o: App, n: App, e: Effect) -> bool {
        &&& n.wf()
        &&& n == (App { dialog: None, mode: AppMode::AiChat, ai_state: n.ai_state, ..o })
        &&& shows_loading(n.ai_state, quoted_after("🔄 명령 해석 중: "@, o.dialog->0.input@))
        &&& e matches Effect::Confirmed { work: DialogWork::Ai(AiTask::InterpretCommand { command, current_dir, listing }), refresh }
            && !refresh && command@ == o.dialog->0.input@ && current_dir == o.active().path
            && listing@ == listing_text(o.active().entries@)
    }

    /// Confirms a command in natural language: the assistant interprets it over the active
    /// panel's listing.
    fn confirm_ai_command(&mut self) -> (e: Effect)
        requires
            old(self).wf(),
            old(self).dialog matches Some(d) && d.kind == DialogKind::AiCommand,
        ensures
            Self::confirm_ai_command_step(*old(self), *final(self), e),
    {
        let d = match self.dialog.take() {
            Some(d) => d,
            None => return Effect::Done,
        };
        let current_dir = self.active_panel().path.clone();
        let listing = entries_listing(&self.active_panel().entries);
        self.ai_state = Some(AiState::loading(quoted("🔄 명령 해석 중: ", d.input.as_str())));
        self.mode = AppMode::AiChat;
        Effect::Confirmed {
            work: DialogWork::Ai(AiTask::InterpretCommand { command: d.input, current_dir, listing }),
            refresh: false,
        }
    }

    /// What `confirm_batch_rename` makes of `o`.
    pub open spec fn confirm_batch_rename_step(o: App, n: App, e: Effect) -> bool {
        &&& n.wf()
        &&& target_paths(o.active()).len() == 0 ==> n == (App { dialog: None, ..o })
            && (e matches Effect::Confirmed { work: DialogWork::Nothing, refresh } && !refresh)
        &&& target_paths(o.active()).len() > 0 ==> {
            &&& n == (App { dialog: None, mode: AppMode::AiChat, ai_state: n.ai_state, ..o })
            &&& shows_loading(n.ai_state, quoted_after("🔄 이름 변경 패턴 분석 중: "@, o.dialog->0.input@))
            &&& e matches Effect::Confirmed { work: DialogWork::Ai(AiTask::BatchRename { pattern, current_dir, listing }), refresh }
                && !refresh && pattern@ == o.dialog->0.input@ && current_dir == o.active().path
                && listing@ == join_sep(target_paths(o.active()), '\n')
        }
    }

    /// Confirms a batch rename: the assistant turns the pattern into renames of the targets
    /// (nothing without targets).
    fn confirm_batch_rename(&mut self) -> (e: Effect)
        requires
            old(self).wf(),
            old(self).dialog matches Some(d) && d.kind == DialogKind::BatchRename,
        ensures
            Self::confirm_batch_rename_step(*old(self), *final(self), e),
    {
        let d = match self.dialog.take() {
            Some(d) => d,
            None => return Effect::Done,
        };
        let files = target_paths_exec(self.active_panel());
        assert(files@.map_values(|s: String| s@).len() == files@.len());
        if files.len() == 0 {
            return Effect::Confirmed { work: DialogWork::Nothing, refresh: false };
        }
        let current_dir = self.active_panel().path.clone();
        let listing = join_strings(&files, '\n');
        self.ai_state = Some(AiState::loading(quoted("🔄 이름 변경 패턴 분석 중: ", d.input.as_str())));
        self.mode = AppMode::AiChat;
        Effect::Confirmed {
            work: DialogWork::Ai(AiTask::BatchRename { pattern: d.input, current_dir, listing }),
            refresh: false,
        }
    }

    /// What `confirm_save_macro` makes of `o`.
    pub open spec fn confirm_save_macro_step(o: App, n: App, e: Effect) -> bool {
        &&& n.wf()
        &&& match o.pending_macro_ops {
            Some(ops) => {
                &&& n.macros@ == o.macros@.insert(o.dialog->0.input@, ops@)
                &&& n == (App { dialog: None, mode: AppMode::Normal, pending_macro_ops: None, macros: n.macros, ..o })
                &&& e is SaveMacros
            },
            None => n == (App { dialog: None, mode: AppMode::Normal, ..o }) && e is Done,
        }
    }

    /// Confirms a name for the recorded operations: they are saved under it.
    fn confirm_save_macro(&mut self) -> (e: Effect)
        requires
            old(self).wf(),
            old(self).dialog matches Some(d) && d.kind == DialogKind::SaveMacro,
        ensures
            Self::confirm_save_macro_step(*old(self), *final(self), e),
    {
        let d = match self.dialog.take() {
            Some(d) => d,
            None => return Effect::Done,
        };
        self.mode = AppMode::Normal;
        match self.pending_macro_ops.take() {
            Some(ops) => {
                self.macros.add(d.input, ops);
                Effect::SaveMacros
            },
            None => Effect::Done,
        }
    }

    /// What `confirm_run_macro` makes of `o`.
    pub open spec fn confirm_run_macro_step(o: App, n: App, e: Effect) -> bool {
        &&& n.wf()
        &&& e is Done
        &&& ({
            let name = o.dialog->0.input@;
            if o.macros@.dom().contains(name) {
                &&& n == (App {
                    dialog: None,
                    mode: AppMode::AiCommandConfirm,
                    ai_command_state: n.ai_command_state,
                    ..o
                })
                &&& n.ai_command_state matches Some(cs) && cs.ops@ == o.macros@[name] && cs.scroll == 0
            } else {
                n == (App { dialog: None, ..o })
            }
        })
    }

    /// Confirms the name of a macro to run: its operations wait for confirmation (an unknown
    /// name only closes the dialog).
    fn confirm_run_macro(&mut self) -> (e: Effect)
        requires
            old(self).wf(),
            old(self).dialog matches Some(d) && d.kind == DialogKind::RunMacro,
        ensures
            Self::confirm_run_macro_step(*old(self), *final(self), e),
    {
        let d = match self.dialog.take() {
            Some(d) => d,
            None => return Effect::Done,
        };
        match self.macros.get(d.input.as_str()) {
            Some(ops) => {
                let ops = copy_ops(ops);
                self.ai_command_state = Some(AiCommandState { ops, scroll: 0 });
                self.mode = AppMode::AiCommandConfirm;
            },
            None => {},
        }
        Effect::Done
    }
}


impl App {
    /// What `execute_dialog_operation` makes of `o`.
    pub open spec fn execute_dialog_operation_step(o: App, n: App, e: Effect) -> bool {
        &&& n.wf()
        &&& match o.dialog {
            None => n == (App { mode: AppMode::Normal, ..o })
                && (e matches Effect::Confirmed { work: DialogWork::Nothing, refresh } && refresh),
            Some(d) => match d.kind {
                DialogKind::Copy | DialogKind::Move | DialogKind::Delete => Self::confirm_files_step(o, n, e),
                DialogKind::Mkdir => Self::confirm_mkdir_step(o, n, e),
                DialogKind::Rename => Self::confirm_rename_step(o, n, e),
                DialogKind::Pack => Self::confirm_pack_step(o, n, e),
                DialogKind::AddNote => Self::confirm_note_step(o, n, e),
                DialogKind::Find => Self::confirm_find_step(o, n, e),
                DialogKind::GenerateScript => Self::confirm_script_step(o, n, e),
                DialogKind::AiCommand => Self::confirm_ai_command_step(o, n, e),
                DialogKind::BatchRename => Self::confirm_batch_rename_step(o, n, e),
                DialogKind::SaveMacro => Self::confirm_save_macro_step(o, n, e),
                DialogKind::RunMacro => Self::confirm_run_macro_step(o, n, e),
            },
        }
    }

    /// Confirms the open dialog; the dialog's kind decides what is done. Without a dialog,
    /// the panels are only listed again.
    pub fn execute_dialog_operation(&mut self) -> (e: Effect)
        requires
            old(self).wf(),
        ensures
            Self::execute_dialog_operation_step(*old(self), *final(self), e),
    {
        let kind = match &self.dialog {
            Some(d) => d.kind,
            None => {
                self.mode = AppMode::Normal;
                return Effect::Confirmed { work: DialogWork::Nothing, refresh: true };
            },
        };
        match kind {
            DialogKind::Copy | DialogKind::Move | DialogKind::Delete => self.confirm_files(),
            DialogKind::Mkdir => self.confirm_mkdir(),
            DialogKind::Rename => self.confirm_rename(),
            DialogKind::Pack => self.confirm_pack(),
            DialogKind::AddNote => self.confirm_note(),
            DialogKind::Find => self.confirm_find(),
            DialogKind::GenerateScript => self.confirm_script(),
            DialogKind::AiCommand => self.confirm_ai_command(),
            DialogKind::BatchRename => self.confirm_batch_rename(),
            DialogKind::SaveMacro => self.confirm_save_macro(),
            DialogKind::RunMacro => self.confirm_run_macro(),
        }
    }

    /// What `show_help` makes of `o`.
    pub open spec fn show_help_step(o: App, n: App) -> bool {
        &&& n == (App { mode: AppMode::Help, ..o })
    }

    fn show_help(&mut self)
        ensures
            Self::show_help_step(*old(self), *final(self)),
    {
        self.mode = AppMode::Help;
    }

    /// What `start_filter` makes of `o`.
    pub open spec fn start_filter_step(o: App, n: App) -> bool {
        &&& n == (App { mode: AppMode::Filter, search_query: n.search_query, ..o })
        &&& n.search_query@ == Seq::<char>::empty()
    }

    /// Starts typing a wildcard filter.
    fn start_filter(&mut self)
        ensures
            Self::start_filter_step(*old(self), *final(self)),
    {
        self.mode = AppMode::Filter;
        self.search_query = String::new();
    }

    /// What `ai_cancel` makes of `o`.
    pub open spec fn ai_cancel_step(o: App, n: App) -> bool {
        &&& n == (App { ai_state: None, mode: AppMode::Normal, ..o })
    }

    fn ai_cancel(&mut self)
        ensures
            Self::ai_cancel_step(*old(self), *final(self)),
    {
        self.ai_state = None;
        self.mode = AppMode::Normal;
    }

    /// What `ai_error_arrived` makes of `o`.
    pub open spec fn ai_error_arrived_step(o: App, n: App, m: String) -> bool {
        &&& n.wf()
        &&& n == (App { ai_state: n.ai_state, ..o })
        &&& n.ai_state matches Some(a) && is_error_for(a, m@)
    }

    /// An error from the assistant replaces what its view shows (the mode stays).
    fn ai_error_arrived(&mut self, m: String)
        requires
            old(self).wf(),
        ensures
            Self::ai_error_arrived_step(*old(self), *final(self), m),
    {
        self.ai_state = Some(AiState::error(m));
    }

    /// What `commands_cancel` makes of `o`.
    pub open spec fn commands_cancel_step(o: App, n: App) -> bool {
        &&& n == (App { ai_command_state: None, mode: AppMode::Normal, ..o })
    }

    fn commands_cancel(&mut self)
        ensures
            Self::commands_cancel_step(*old(self), *final(self)),
    {
        self.ai_command_state = None;
        self.mode = AppMode::Normal;
    }

    /// What `commands_scroll` makes of `o`.
    pub open spec fn commands_scroll_step(o: App, n: App, down: bool) -> bool {
        &&& n == match o.ai_command_state {
            Some(cs) => App {
                ai_command_state: Some(AiCommandState {
                    scroll: if !down {
                        if cs.scroll > 0 { (cs.scroll - 1) as u16 } else { 0 }
                    } else if cs.scroll < u16::MAX && cs.scroll + 1 < cs.ops@.len() {
                        (cs.scroll + 1) as u16
                    } else {
                        cs.scroll
                    },
                    ..cs
                }),
                ..o
            },
            None => o,
        }
    }

    /// Scrolls the list of waiting operations one up, or (`down`) one down.
    fn commands_scroll(&mut self, down: bool)
        ensures
            Self::commands_scroll_step(*old(self), *final(self), down),
    {
        match &mut self.ai_command_state {
            Some(cs) => {
                if down {
                    cs.scroll_down();
                } else {
                    cs.scroll_up();
                }
            },
            None => {},
        }
    }

    /// What `open_run_macro` makes of `o`.
    pub open spec fn open_run_macro_step(o: App, n: App) -> bool {
        &&& n.wf()
        &&& Self::dialog_opened(o, n, DialogKind::RunMacro, Seq::empty(), "▶️  실행할 매크로 이름 입력"@)
    }

    fn open_run_macro(&mut self)
        requires
            old(self).wf(),
        ensures
            Self::open_run_macro_step(*old(self), *final(self)),
    {
        self.dialog = Some(DialogState::new_run_macro());
        self.mode = AppMode::Dialog;
    }

    /// What `toggle_wrap` makes of `o`.
    pub open spec fn toggle_wrap_step(o: App, e: Effect) -> bool {
        &&& if o.viewer is Some { e is ToggleWrap } else { e is Done }
    }

    /// Switching wrapping needs the viewed file read again.
    fn toggle_wrap(&self) -> (e: Effect)
        ensures
            Self::toggle_wrap_step(*self, e),
    {
        if self.viewer.is_some() { Effect::ToggleWrap } else { Effect::Done }
    }

    /// What `tail_changed` makes of `o`.
    pub open spec fn tail_changed_step(o: App, e: Effect) -> bool {
        &&& if (o.viewer matches Some(v) && v.is_tail_active) { e is ReadTail } else { e is Done }
    }

    /// A change to the followed file needs it read again while following is on.
    fn tail_changed(&self) -> (e: Effect)
        ensures
            Self::tail_changed_step(*self, e),
    {
        match &self.viewer {
            Some(v) => if v.is_tail_active { Effect::ReadTail } else { Effect::Done },
            None => Effect::Done,
        }
    }
}


impl App {
    /// What the command `cmd` makes of `o`: the state `n` and the effect `e` left for the caller.
    pub open spec fn command_step(o: App, cmd: Command, n: App, e: Effect) -> bool {
        match cmd {
            Command::Quit => Self::quit_step(o, n, e),
            Command::SwitchPanel => Self::switch_panel_step(o, n) && e is Done,
            Command::CursorUp => Self::cursor_up_step(o, n) && e is Done,
            Command::CursorDown => Self::cursor_down_step(o, n) && e is Done,
            Command::PageUp => Self::page_up_step(o, n) && e is Done,
            Command::PageDown => Self::page_down_step(o, n) && e is Done,
            Command::Navigate => n == o && Self::navigate_step(o, e),
            Command::GoParent => n == o && Self::go_parent_step(o, e),
            Command::ToggleSelect => Self::toggle_select_step(o, n) && e is Done,
            Command::SelectAll => Self::select_all_step(o, n) && e is Done,
            Command::ClearSelection => Self::clear_selection_step(o, n) && e is Done,
            Command::ShowHelp => Self::show_help_step(o, n) && e is Done,
            Command::ToggleHidden => Self::toggle_hidden_step(o, n, e),
            Command::Refresh => Self::refresh_step(o, n, e),
            Command::Copy => Self::open_copy_step(o, n) && e is Done,
            Command::Pack => Self::open_pack_step(o, n) && e is Done,
            Command::Move => Self::open_move_step(o, n) && e is Done,
            Command::Mkdir => Self::open_simple_step(o, n, DialogKind::Mkdir) && e is Done,
            Command::Delete => Self::open_delete_step(o, n) && e is Done,
            Command::Rename => Self::open_rename_step(o, n) && e is Done,
            Command::BatchRename => Self::open_for_targets_step(o, n, false) && e is Done,
            Command::View => n == o && Self::view_step(o, e),
            Command::ToggleWrap => n == o && Self::toggle_wrap_step(o, e),
            Command::ConfirmDialog => Self::execute_dialog_operation_step(o, n, e),
            Command::CancelDialog => Self::cancel_dialog_step(o, n, e),
            Command::QuickSearch(c) => Self::quick_search_step(o, n, c) && e is Done,
            Command::Filter => Self::start_filter_step(o, n) && e is Done,
            Command::Find => Self::open_simple_step(o, n, DialogKind::Find) && e is Done,
            Command::SearchInput(c) => Self::search_input_step(o, n, c) && e is Done,
            Command::SearchBackspace => Self::search_backspace_step(o, n) && e is Done,
            Command::SearchConfirm => Self::search_confirm_step(o, n) && e is Done,
            Command::SearchCancel => Self::search_cancel_step(o, n) && e is Done,
            Command::UpdateTotalSize(is_left, size) => Self::update_total_size_step(o, n, is_left, size) && e is Done,
            Command::ViewerTailUpdate(_) => n == o && Self::tail_changed_step(o, e),
            Command::AiSummarize => Self::ai_on_file_step(o, n, 0, e),
            Command::AiSecurityScan => Self::ai_on_file_step(o, n, 1, e),
            Command::AiImageInfo => Self::ai_on_file_step(o, n, 2, e),
            Command::AiCodeStructure => Self::ai_on_file_step(o, n, 3, e),
            Command::AiFileDiff => Self::ai_file_diff_step(o, n, e),
            Command::AiFolderAnalysis => Self::ai_folder_step(o, n, e),
            Command::AiFindDuplicates => Self::ai_on_folder_step(o, n, 0, e),
            Command::AiOldFiles => Self::ai_on_folder_step(o, n, 1, e),
            Command::AiFileClassify => Self::ai_on_folder_step(o, n, 2, e),
            Command::AiStorageOptimize => Self::ai_on_folder_step(o, n, 3, e),
            Command::AiGitHistory => Self::ai_on_folder_step(o, n, 4, e),
            Command::AiFolderSync => Self::ai_folder_sync_step(o, n, e),
            Command::AiGenerateReadme => Self::ai_readme_step(o, n, e),
            Command::AiAddNote => Self::open_note_step(o, n) && e is Done,
            Command::AiGenerateScript => Self::open_for_targets_step(o, n, true) && e is Done,
            Command::AiNaturalCommand => Self::open_simple_step(o, n, DialogKind::AiCommand) && e is Done,
            Command::AiCancel => Self::ai_cancel_step(o, n) && e is Done,
            Command::AiScrollUp => Self::ai_scroll_step(o, n, 0) && e is Done,
            Command::AiScrollDown => Self::ai_scroll_step(o, n, 1) && e is Done,
            Command::AiPageUp => Self::ai_scroll_step(o, n, 2) && e is Done,
            Command::AiPageDown => Self::ai_scroll_step(o, n, 3) && e is Done,
            Command::AiCommandConfirm => Self::commands_confirmed_step(o, n, e),
            Command::AiCommandCancel => Self::commands_cancel_step(o, n) && e is Done,
            Command::AiCommandScrollUp => Self::commands_scroll_step(o, n, false) && e is Done,
            Command::AiCommandScrollDown => Self::commands_scroll_step(o, n, true) && e is Done,
            Command::MacroRecord => Self::macro_record_step(o, n) && e is Done,
            Command::MacroList => Self::macro_list_step(o, n) && e is Done,
            Command::MacroRun => Self::open_run_macro_step(o, n) && e is Done,
            Command::SearchConfirmResults(results) => Self::find_results_step(o, n, results) && e is Done,
            Command::AiResponse(r) => Self::ai_show_step(o, n, r.result) && e is Done,
            Command::AiError(m) => Self::ai_error_arrived_step(o, n, m) && e is Done,
            Command::AiCommandParsed(ops) => Self::commands_parsed_step(o, n, ops) && e is Done,
            Command::SyncResult(t)
                | Command::DuplicatesResult(t)
                | Command::OldFilesResult(t)
                | Command::ClassifyResult(t)
                | Command::StorageResult(t)
                | Command::GitHistoryResult(t) => Self::ai_show_step(o, n, t) && e is Done,
            Command::Noop
                | Command::DialogInput(_)
                | Command::DialogBackspace
                | Command::DialogLeft
                | Command::DialogRight
                | Command::AiToggleThinking => n == o && e is Done,
        }
    }

    /// Carries out one command; work outside the program is handed back as the effect.
    pub fn handle_command(&mut self, command: Command) -> (e: Effect)
        requires
            old(self).wf(),
        ensures
            final(self).wf(),
            Self::command_step(*old(self), command, *final(self), e),
    {
        match command {
            Command::Quit => self.quit(),
            Command::SwitchPanel => { self.switch_panel(); Effect::Done },
            Command::CursorUp => { self.cursor_up(); Effect::Done },
            Command::CursorDown => { self.cursor_down(); Effect::Done },
            Command::PageUp => { self.page_up(); Effect::Done },
            Command::PageDown => { self.page_down(); Effect::Done },
            Command::Navigate => self.navigate(),
            Command::GoParent => self.go_parent(),
            Command::ToggleSelect => { self.toggle_select(); Effect::Done },
            Command::SelectAll => { self.select_all(); Effect::Done },
            Command::ClearSelection => { self.clear_selection(); Effect::Done },
            Command::ShowHelp => { self.show_help(); Effect::Done },
            Command::ToggleHidden => self.toggle_hidden(),
            Command::Refresh => self.refresh(),
            Command::Copy => { self.open_copy(); Effect::Done },
            Command::Pack => { self.open_pack(); Effect::Done },
            Command::Move => { self.open_move(); Effect::Done },
            Command::Mkdir => { self.open_simple(DialogKind::Mkdir); Effect::Done },
            Command::Delete => { self.open_delete(); Effect::Done },
            Command::Rename => { self.open_rename(); Effect::Done },
            Command::BatchRename => { self.open_for_targets(false); Effect::Done },
            Command::View => self.view(),
            Command::ToggleWrap => self.toggle_wrap(),
            Command::ConfirmDialog => self.execute_dialog_operation(),
            Command::CancelDialog => self.cancel_dialog(),
            Command::QuickSearch(c) => { self.quick_search(c); Effect::Done },
            Command::Filter => { self.start_filter(); Effect::Done },
            Command::Find => { self.open_simple(DialogKind::Find); Effect::Done },
            Command::SearchInput(c) => { self.search_input(c); Effect::Done },
            Command::SearchBackspace => { self.search_backspace(); Effect::Done },
            Command::SearchConfirm => { self.search_confirm(); Effect::Done },
            Command::SearchCancel => { self.search_cancel(); Effect::Done },
            Command::UpdateTotalSize(is_left, size) => { self.update_total_size(is_left, size); Effect::Done },
            Command::ViewerTailUpdate(_) => self.tail_changed(),
            Command::AiSummarize => self.ai_on_file(0),
            Command::AiSecurityScan => self.ai_on_file(1),
            Command::AiImageInfo => self.ai_on_file(2),
            Command::AiCodeStructure => self.ai_on_file(3),
            Command::AiFileDiff => self.ai_file_diff(),
            Command::AiFolderAnalysis => self.ai_folder(),
            Command::AiFindDuplicates => self.ai_on_folder(0),
            Command::AiOldFiles => self.ai_on_folder(1),
            Command::AiFileClassify => self.ai_on_folder(2),
            Command::AiStorageOptimize => self.ai_on_folder(3),
            Command::AiGitHistory => self.ai_on_folder(4),
            Command::AiFolderSync => self.ai_folder_sync(),
            Command::AiGenerateReadme => self.ai_readme(),
            Command::AiAddNote => { self.open_note(); Effect::Done },
            Command::AiGenerateScript => { self.open_for_targets(true); Effect::Done },
            Command::AiNaturalCommand => { self.open_simple(DialogKind::AiCommand); Effect::Done },
            Command::AiCancel => { self.ai_cancel(); Effect::Done },
            Command::AiScrollUp => { self.ai_scroll(0); Effect::Done },
            Command::AiScrollDown => { self.ai_scroll(1); Effect::Done },
            Command::AiPageUp => { self.ai_scroll(2); Effect::Done },
            Command::AiPageDown => { self.ai_scroll(3); Effect::Done },
            Command::AiCommandConfirm => self.commands_confirmed(),
            Command::AiCommandCancel => { self.commands_cancel(); Effect::Done },
            Command::AiCommandScrollUp => { self.commands_scroll(false); Effect::Done },
            Command::AiCommandScrollDown => { self.commands_scroll(true); Effect::Done },
            Command::MacroRecord => { self.macro_record(); Effect::Done },
            Command::MacroList => { self.macro_list(); Effect::Done },
            Command::MacroRun => { self.open_run_macro(); Effect::Done },
            Command::SearchConfirmResults(results) => { self.find_results(results); Effect::Done },
            Command::AiResponse(r) => { self.ai_show(r.result); Effect::Done },
            Command::AiError(m) => { self.ai_error_arrived(m); Effect::Done },
            Command::AiCommandParsed(ops) => { self.commands_parsed(ops); Effect::Done },
            Command::SyncResult(t)
                | Command::DuplicatesResult(t)
                | Command::OldFilesResult(t)
                | Command::ClassifyResult(t)
                | Command::StorageResult(t)
                | Command::GitHistoryResult(t) => { self.ai_show(t); Effect::Done },
            Command::Noop
                | Command::DialogInput(_)
                | Command::DialogBackspace
                | Command::DialogLeft
                | Command::DialogRight
                | Command::AiToggleThinking => Effect::Done,
        }
    }
}

/// The command a key gives where no handler reads it: none.
pub open spec fn on_key(event: InputEvent, f: spec_fn(KeyInput) -> Command) -> Command {
    match event {
        InputEvent::Key(k) => f(k),
        InputEvent::Other => Command::Noop,
    }
}

impl App {
    /// The command an input event gives in the current mode: an open dialog takes the key
    /// itself (see `dialog_event_step`); the search and filter bars, the viewer, the
    /// assistant's output and the list of operations to confirm each read keys their own way;
    /// the help closes on any event; the panels take the rest. Only the dialog changes.
    pub fn command_for_event(&mut self, event: InputEvent) -> (c: Command)
        requires
            old(self).wf(),
        ensures
            final(self).wf(),
            *final(self) == (App { dialog: final(self).dialog, ..*old(self) }),
            old(self).mode == AppMode::Dialog ==> dialog_event_step(event, old(self).dialog, final(self).dialog, c),
            old(self).mode != AppMode::Dialog ==> final(self).dialog == old(self).dialog && c == match old(self).mode {
                AppMode::Search | AppMode::Filter => on_key(event, |k: KeyInput| search_command(k)),
                AppMode::Viewer => on_key(event, |k: KeyInput| viewer_command(k)),
                AppMode::AiChat => on_key(event, |k: KeyInput| ai_command(k)),
                AppMode::AiCommandConfirm => on_key(event, |k: KeyInput| confirm_command(k)),
                AppMode::Help => Command::CancelDialog,
                _ => on_key(event, |k: KeyInput| key_command(k)),
            },
    {
        match self.mode {
            AppMode::Dialog => handle_dialog_event(event, &mut self.dialog),
            AppMode::Search | AppMode::Filter => handle_search_event(event),
            AppMode::Viewer => handle_viewer_event(event),
            AppMode::AiChat => handle_ai_event(event),
            AppMode::AiCommandConfirm => handle_ai_command_confirm_event(event),
            AppMode::Help => Command::CancelDialog,
            _ => handle_event(event),
        }
    }
}

} // verus!
