//! Which command each key asks for, in each mode.

use vstd::prelude::*;
use crate::commands::Command;
use crate::dialog::{DialogState, DialogKind};

verus! {

/// A key as the terminal reports it.
#[derive(Debug, Clone, Copy, PartialEq, Eq, Structural)]
pub enum KeyCode {
    Char(char),
    /// A function key, `F(1)` to `F(12)`.
    F(u8),
    Tab,
    Up,
    Down,
    Left,
    Right,
    PageUp,
    PageDown,
    Enter,
    Backspace,
    Insert,
    Esc,
    Other,
}

/// A key press with the modifiers held.
#[derive(Debug, Clone, Copy, PartialEq, Eq, Structural)]
pub struct KeyInput {
    pub code: KeyCode,
    pub ctrl: bool,
    pub alt: bool,
    pub shift: bool,
}

/// A terminal event: a key press, or anything else (mouse, resize, focus).
#[derive(Debug, Clone, Copy, PartialEq, Eq, Structural)]
pub enum InputEvent {
    Key(KeyInput),
    Other,
}

/// The command a key gives with the control key held.
pub open spec fn ctrl_command(c: char) -> Option<Command> {
    if c == 'q' {
        Some(Command::Quit)
    } else if c == 'g' {
        Some(Command::AiNaturalCommand)
    } else if c == 'a' {
        Some(Command::SelectAll)
    } else if c == 'f' {
        Some(Command::Find)
    } else if c == 'h' {
        Some(Command::ToggleHidden)
    } else if c == 'l' {
        Some(Command::Refresh)
    } else {
        None
    }
}

/// The command a key gives with the Alt key held.
pub open spec fn alt_command(c: char) -> Option<Command> {
    if c == 'g' {
        Some(Command::AiSummarize)
    } else if c == 's' {
        Some(Command::AiSecurityScan)
    } else if c == 'i' {
        Some(Command::AiImageInfo)
    } else if c == 'c' {
        Some(Command::AiCodeStructure)
    } else if c == 'd' {
        Some(Command::AiFileDiff)
    } else if c == 'a' {
        Some(Command::AiFolderAnalysis)
    } else if c == 'u' {
        Some(Command::AiFindDuplicates)
    } else if c == 'o' {
        Some(Command::AiOldFiles)
    } else if c == 'r' {
        Some(Command::AiGenerateReadme)
    } else if c == 'n' {
        Some(Command::AiAddNote)
    } else if c == 'x' {
        Some(Command::AiGenerateScript)
    } else if c == 'b' {
        Some(Command::BatchRename)
    } else {
        None
    }
}

/// The command a key gives in the panels: control combinations first, then Alt ones, then
/// `=` (filter), and any other character (without control) starts a quick search. Esc, like
/// Ctrl+Q and F10, quits.
pub open spec fn key_command(k: KeyInput) -> Command {
    match k.code {
        KeyCode::F(n) => if n == 1 {
            Command::ShowHelp
        } else if n == 2 {
            Command::Rename
        } else if n == 3 {
            Command::View
        } else if n == 5 {
            if k.alt { Command::Pack } else { Command::Copy }
        } else if n == 6 {
            if k.shift { Command::Rename } else { Command::Move }
        } else if n == 7 {
            Command::Mkdir
        } else if n == 8 {
            Command::Delete
        } else if n == 10 {
            Command::Quit
        } else {
            Command::Noop
        },
        KeyCode::Tab => Command::SwitchPanel,
        KeyCode::Up => Command::CursorUp,
        KeyCode::Down => Command::CursorDown,
        KeyCode::PageUp => Command::PageUp,
        KeyCode::PageDown => Command::PageDown,
        KeyCode::Enter => Command::Navigate,
        KeyCode::Backspace => Command::GoParent,
        KeyCode::Insert => Command::ToggleSelect,
        KeyCode::Esc => Command::Quit,
        KeyCode::Char(c) => if k.ctrl && ctrl_command(c) is Some {
            ctrl_command(c)->0
        } else if k.alt && alt_command(c) is Some {
            alt_command(c)->0
        } else if c == '=' {
            Command::Filter
        } else if !k.ctrl {
            Command::QuickSearch(c)
        } else {
            Command::Noop
        },
        _ => Command::Noop,
    }
}

fn ctrl_command_exec(c: char) -> (r: Option<Command>)
    ensures
        r == ctrl_command(c),
{
    if c == 'q' {
        Some(Command::Quit)
    } else if c == 'g' {
        Some(Command::AiNaturalCommand)
    } else if c == 'a' {
        Some(Command::SelectAll)
    } else if c == 'f' {
        Some(Command::Find)
    } else if c == 'h' {
        Some(Command::ToggleHidden)
    } else if c == 'l' {
        Some(Command::Refresh)
    } else {
        None
    }
}

fn alt_command_exec(c: char) -> (r: Option<Command>)
    ensures
        r == alt_command(c),
{
    if c == 'g' {
        Some(Command::AiSummarize)
    } else if c == 's' {
        Some(Command::AiSecurityScan)
    } else if c == 'i' {
        Some(Command::AiImageInfo)
    } else if c == 'c' {
        Some(Command::AiCodeStructure)
    } else if c == 'd' {
        Some(Command::AiFileDiff)
    } else if c == 'a' {
        Some(Command::AiFolderAnalysis)
    } else if c == 'u' {
        Some(Command::AiFindDuplicates)
    } else if c == 'o' {
        Some(Command::AiOldFiles)
    } else if c == 'r' {
        Some(Command::AiGenerateReadme)
    } else if c == 'n' {
        Some(Command::AiAddNote)
    } else if c == 'x' {
        Some(Command::AiGenerateScript)
    } else if c == 'b' {
        Some(Command::BatchRename)
    } else {
        None
    }
}

/// The command a key gives in the panels (see `key_command`).
pub fn handle_key_event(key: KeyInput) -> (r: Command)
    ensures
        r == key_command(key),
{
    match key.code {
        KeyCode::F(n) => {
            if n == 1 {
                Command::ShowHelp
            } else if n == 2 {
                Command::Rename
            } else if n == 3 {
                Command::View
            } else if n == 5 {
                if key.alt { Command::Pack } else { Command::Copy }
            } else if n == 6 {
                if key.shift { Command::Rename } else { Command::Move }
            } else if n == 7 {
                Command::Mkdir
            } else if n == 8 {
                Command::Delete
            } else if n == 10 {
                Command::Quit
            } else {
                Command::Noop
            }
        },
        KeyCode::Tab => Command::SwitchPanel,
        KeyCode::Up => Command::CursorUp,
        KeyCode::Down => Command::CursorDown,
        KeyCode::PageUp => Command::PageUp,
        KeyCode::PageDown => Command::PageDown,
        KeyCode::Enter => Command::Navigate,
        KeyCode::Backspace => Command::GoParent,
        KeyCode::Insert => Command::ToggleSelect,
        KeyCode::Esc => Command::Quit,
        KeyCode::Char(c) => {
            if key.ctrl {
                if let Some(cmd) = ctrl_command_exec(c) {
                    return cmd;
                }
            }
            if key.alt {
                if let Some(cmd) = alt_command_exec(c) {
                    return cmd;
                }
            }
            if c == '=' {
                Command::Filter
            } else if !key.ctrl {
                Command::QuickSearch(c)
            } else {
                Command::Noop
            }
        },
        _ => Command::Noop,
    }
}

/// The command an event gives in the panels: a key's command, nothing for other events.
pub fn handle_event(event: InputEvent) -> (r: Command)
    ensures
        r == match event {
            InputEvent::Key(k) => key_command(k),
            InputEvent::Other => Command::Noop,
        },
{
    match event {
        InputEvent::Key(k) => handle_key_event(k),
        InputEvent::Other => Command::Noop,
    }
}

/// What a key does to the open dialog `before`, leaving `after`, and the command it gives (see
/// `handle_dialog_event`).
pub open spec fn dialog_event_step(event: InputEvent, before: Option<DialogState>, after: Option<DialogState>, r: Command) -> bool {
    &&& after is Some == before is Some
    &&& match (event, before) {
        (InputEvent::Key(k), Some(d)) => {
            let is_delete = d.kind == DialogKind::Delete;
            let nd = after->0;
            match k.code {
                KeyCode::Esc => r == Command::CancelDialog && nd == d,
                KeyCode::Enter => r == (if is_delete { Command::Noop } else { Command::ConfirmDialog }) && nd == d,
                KeyCode::Char(c) => if is_delete {
                    nd == d && r == (if c == 'y' || c == 'Y' { Command::ConfirmDialog } else if c == 'n' || c == 'N' {
                        Command::CancelDialog
                    } else {
                        Command::Noop
                    })
                } else {
                    r == Command::Noop && nd.input@ == d.input@.take(d.cursor as int).push(c) + d.input@.skip(d.cursor as int)
                        && nd.cursor == d.cursor + 1 && nd.error is None && nd.kind == d.kind && nd.message == d.message
                },
                KeyCode::Backspace => r == Command::Noop && if is_delete {
                    nd == d
                } else {
                    nd.input@ == (if d.cursor > 0 { d.input@.take(d.cursor - 1) + d.input@.skip(d.cursor as int) } else { d.input@ })
                        && nd.cursor == (if d.cursor > 0 { (d.cursor - 1) as usize } else { 0 })
                        && nd.error is None && nd.kind == d.kind && nd.message == d.message
                },
                KeyCode::Left => r == Command::Noop && if is_delete {
                    nd == d
                } else {
                    nd.input == d.input && nd.cursor == (if d.cursor > 0 { (d.cursor - 1) as usize } else { 0 })
                        && nd.error == d.error && nd.kind == d.kind && nd.message == d.message
                },
                KeyCode::Right => r == Command::Noop && if is_delete {
                    nd == d
                } else {
                    nd.input == d.input && nd.cursor == (if d.cursor < d.input@.len() { (d.cursor + 1) as usize } else { d.cursor })
                        && nd.error == d.error && nd.kind == d.kind && nd.message == d.message
                },
                _ => r == Command::Noop && nd == d,
            }
        },
        _ => r == Command::Noop && after == before,
    }
}

/// A key edits the open dialog (not a delete confirmation), and gives a command: Esc
/// cancels; Enter confirms (a delete confirmation only takes y or n); Backspace, the arrow
/// keys and characters edit the input, clearing the error shown.
pub fn handle_dialog_event(event: InputEvent, dialog: &mut Option<DialogState>) -> (r: Command)
    requires
        (*old(dialog)) matches Some(d) ==> d.wf(),
    ensures
        (*final(dialog)) matches Some(d) ==> d.wf(),
        dialog_event_step(event, *old(dialog), *final(dialog), r),
{
    let k = match event {
        InputEvent::Key(k) => k,
        InputEvent::Other => return Command::Noop,
    };
    match dialog {
        Some(d) => {
            let is_delete = d.kind == DialogKind::Delete;
            match k.code {
                KeyCode::Esc => Command::CancelDialog,
                KeyCode::Enter => if is_delete { Command::Noop } else { Command::ConfirmDialog },
                KeyCode::Char(c) => {
                    if is_delete {
                        if c == 'y' || c == 'Y' {
                            Command::ConfirmDialog
                        } else if c == 'n' || c == 'N' {
                            Command::CancelDialog
                        } else {
                            Command::Noop
                        }
                    } else {
                        d.insert_char(c);
                        d.clear_error();
                        Command::Noop
                    }
                },
                KeyCode::Backspace => {
                    if !is_delete {
                        d.backspace();
                        d.clear_error();
                    }
                    Command::Noop
                },
                KeyCode::Left => {
                    if !is_delete {
                        d.cursor_left();
                    }
                    Command::Noop
                },
                KeyCode::Right => {
                    if !is_delete {
                        d.cursor_right();
                    }
                    Command::Noop
                },
                _ => Command::Noop,
            }
        },
        None => Command::Noop,
    }
}

/// The command a key gives while typing a search or filter.
pub open spec fn search_command(k: KeyInput) -> Command {
    match k.code {
        KeyCode::Char(c) => if !k.ctrl { Command::SearchInput(c) } else { Command::Noop },
        KeyCode::Backspace => Command::SearchBackspace,
        KeyCode::Esc => Command::SearchCancel,
        KeyCode::Enter => Command::SearchConfirm,
        KeyCode::Up => Command::CursorUp,
        KeyCode::Down => Command::CursorDown,
        KeyCode::PageUp => Command::PageUp,
        KeyCode::PageDown => Command::PageDown,
        _ => Command::Noop,
    }
}

pub fn handle_search_event(event: InputEvent) -> (r: Command)
    ensures
        r == match event {
            InputEvent::Key(k) => search_command(k),
            InputEvent::Other => Command::Noop,
        },
{
    match event {
        InputEvent::Key(k) => match k.code {
            KeyCode::Char(c) => if !k.ctrl { Command::SearchInput(c) } else { Command::Noop },
            KeyCode::Backspace => Command::SearchBackspace,
            KeyCode::Esc => Command::SearchCancel,
            KeyCode::Enter => Command::SearchConfirm,
            KeyCode::Up => Command::CursorUp,
            KeyCode::Down => Command::CursorDown,
            KeyCode::PageUp => Command::PageUp,
            KeyCode::PageDown => Command::PageDown,
            _ => Command::Noop,
        },
        InputEvent::Other => Command::Noop,
    }
}

/// The command a key gives while the assistant's output is shown.
pub open spec fn ai_command(k: KeyInput) -> Command {
    match k.code {
        KeyCode::Esc => Command::AiCancel,
        KeyCode::Up => Command::AiScrollUp,
        KeyCode::Down => Command::AiScrollDown,
        KeyCode::PageUp => Command::AiPageUp,
        KeyCode::PageDown => Command::AiPageDown,
        KeyCode::Char(c) => if c == 'q' {
            Command::AiCancel
        } else if c == 't' || c == 'T' {
            Command::AiToggleThinking
        } else {
            Command::Noop
        },
        _ => Command::Noop,
    }
}

pub fn handle_ai_event(event: InputEvent) -> (r: Command)
    ensures
        r == match event {
            InputEvent::Key(k) => ai_command(k),
            InputEvent::Other => Command::Noop,
        },
{
    match event {
        InputEvent::Key(k) => match k.code {
            KeyCode::Esc => Command::AiCancel,
            KeyCode::Up => Command::AiScrollUp,
            KeyCode::Down => Command::AiScrollDown,
            KeyCode::PageUp => Command::AiPageUp,
            KeyCode::PageDown => Command::AiPageDown,
            KeyCode::Char(c) => if c == 'q' {
                Command::AiCancel
            } else if c == 't' || c == 'T' {
                Command::AiToggleThinking
            } else {
                Command::Noop
            },
            _ => Command::Noop,
        },
        InputEvent::Other => Command::Noop,
    }
}

/// The command a key gives while planned operations wait for confirmation.
pub open spec fn confirm_command(k: KeyInput) -> Command {
    match k.code {
        KeyCode::Char(c) => if c == 'y' || c == 'Y' {
            Command::AiCommandConfirm
        } else if c == 'n' || c == 'N' {
            Command::AiCommandCancel
        } else {
            Command::Noop
        },
        KeyCode::Enter => Command::AiCommandConfirm,
        KeyCode::Esc => Command::AiCommandCancel,
        KeyCode::Up => Command::AiCommandScrollUp,
        KeyCode::Down => Command::AiCommandScrollDown,
        _ => Command::Noop,
    }
}

pub fn handle_ai_command_confirm_event(event: InputEvent) -> (r: Command)
    ensures
        r == match event {
            InputEvent::Key(k) => confirm_command(k),
            InputEvent::Other => Command::Noop,
        },
{
    match event {
        InputEvent::Key(k) => match k.code {
            KeyCode::Char(c) => if c == 'y' || c == 'Y' {
                Command::AiCommandConfirm
            } else if c == 'n' || c == 'N' {
                Command::AiCommandCancel
            } else {
                Command::Noop
            },
            KeyCode::Enter => Command::AiCommandConfirm,
            KeyCode::Esc => Command::AiCommandCancel,
            KeyCode::Up => Command::AiCommandScrollUp,
            KeyCode::Down => Command::AiCommandScrollDown,
            _ => Command::Noop,
        },
        InputEvent::Other => Command::Noop,
    }
}

/// The command a key gives in the viewer.
pub open spec fn viewer_command(k: KeyInput) -> Command {
    match k.code {
        KeyCode::Esc => Command::CancelDialog,
        KeyCode::Char(c) => if c == 'q' {
            Command::CancelDialog
        } else if c == 'w' && k.alt {
            Command::ToggleWrap
        } else {
            Command::Noop
        },
        KeyCode::Up => Command::CursorUp,
        KeyCode::Down => Command::CursorDown,
        KeyCode::PageUp => Command::PageUp,
        KeyCode::PageDown => Command::PageDown,
        _ => Command::Noop,
    }
}

pub fn handle_viewer_event(event: InputEvent) -> (r: Command)
    ensures
        r == match event {
            InputEvent::Key(k) => viewer_command(k),
            InputEvent::Other => Command::Noop,
        },
{
    match event {
        InputEvent::Key(k) => match k.code {
            KeyCode::Esc => Command::CancelDialog,
            KeyCode::Char(c) => if c == 'q' {
                Command::CancelDialog
            } else if c == 'w' && k.alt {
                Command::ToggleWrap
            } else {
                Command::Noop
            },
            KeyCode::Up => Command::CursorUp,
            KeyCode::Down => Command::CursorDown,
            KeyCode::PageUp => Command::PageUp,
            KeyCode::PageDown => Command::PageDown,
            _ => Command::Noop,
        },
        InputEvent::Other => Command::Noop,
    }
}

} // verus!
