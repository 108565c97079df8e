//! The input dialogs: what each asks, and the editing of their one-line input.

use vstd::prelude::*;
use crate::text::{chars_of, string_of, push_str, decimal};
use crate::report::push_count;

verus! {

#[derive(Clone, Copy, Debug, PartialEq, Eq, Structural)]
pub enum DialogKind {
    Copy,
    Move,
    Mkdir,
    Delete,
    Rename,
    Find,
    Pack,
    AiCommand,
    BatchRename,
    AddNote,
    GenerateScript,
    SaveMacro,
    RunMacro,
}

/// A dialog: its kind, the text typed so far with the cursor's position in it (in
/// characters), the prompt, and the error shown, if any.
#[derive(Clone, Debug)]
pub struct DialogState {
    pub kind: DialogKind,
    pub input: String,
    pub cursor: usize,
    pub message: String,
    pub error: Option<String>,
}

/// `s` with `c` put in at position `i`.
pub open spec fn insert_at(s: Seq<char>, i: int, c: char) -> Seq<char> {
    s.take(i).push(c) + s.skip(i)
}

/// `s` without the character before position `i`.
pub open spec fn remove_before(s: Seq<char>, i: int) -> Seq<char> {
    s.take(i - 1) + s.skip(i)
}

/// A prompt that names a count: `head`, the count, then `tail`.
pub open spec fn count_prompt(head: Seq<char>, n: nat, tail: Seq<char>) -> Seq<char> {
    head + decimal(n) + tail
}

fn count_message(head: &str, n: usize, tail: &str) -> (s: String)
    ensures
        s@ == count_prompt(head@, n as nat, tail@),
{
    let mut s = String::new();
    push_str(&mut s, head);
    push_count(&mut s, n);
    push_str(&mut s, tail);
    s
}

fn char_count(s: &String) -> (n: usize)
    ensures
        n == s@.len(),
{
    chars_of(s.as_str()).len()
}

impl DialogState {
    /// The cursor lies within the input.
    pub open spec fn wf(self) -> bool {
        self.cursor <= self.input@.len()
    }

    fn with(kind: DialogKind, input: String, message: String) -> (d: DialogState)
        ensures
            d.kind == kind,
            d.input == input,
            d.cursor == input@.len(),
            d.message == message,
            d.error is None,
            d.wf(),
    {
        let cursor = char_count(&input);
        DialogState { kind, input, cursor, message, error: None }
    }

    /// Copying `selected_count` entries, to `default_path` unless edited.
    pub fn new_copy(selected_count: usize, default_path: String) -> (d: DialogState)
        ensures
            d.kind == DialogKind::Copy,
            d.input == default_path,
            d.cursor == default_path@.len(),
            d.message@ == count_prompt("📋 "@, selected_count as nat, " 개 항목을 복사합니다"@),
            d.error is None,
    {
        let m = count_message("📋 ", selected_count, " 개 항목을 복사합니다");
        Self::with(DialogKind::Copy, default_path, m)
    }

    /// Moving `selected_count` entries, to `default_path` unless edited.
    pub fn new_move(selected_count: usize, default_path: String) -> (d: DialogState)
        ensures
            d.kind == DialogKind::Move,
            d.input == default_path,
            d.cursor == default_path@.len(),
            d.message@ == count_prompt("➡️  "@, selected_count as nat, " 개 항목을 이동합니다"@),
            d.error is None,
    {
        let m = count_message("➡️  ", selected_count, " 개 항목을 이동합니다");
        Self::with(DialogKind::Move, default_path, m)
    }

    /// Packing `selected_count` entries into the archive `default_name` unless edited.
    pub fn new_pack(selected_count: usize, default_name: String) -> (d: DialogState)
        ensures
            d.kind == DialogKind::Pack,
            d.input == default_name,
            d.cursor == default_name@.len(),
            d.message@ == count_prompt("📦 "@, selected_count as nat, " 개 항목을 압축합니다"@),
            d.error is None,
    {
        let m = count_message("📦 ", selected_count, " 개 항목을 압축합니다");
        Self::with(DialogKind::Pack, default_name, m)
    }

    pub fn new_mkdir() -> (d: DialogState)
        ensures
            d.kind == DialogKind::Mkdir,
            d.input@ == Seq::<char>::empty(),
            d.cursor == 0,
            d.message@ == "📁 새 디렉토리 생성"@,
            d.error is None,
    {
        Self::with(DialogKind::Mkdir, String::new(), String::from_str("📁 새 디렉토리 생성"))
    }

    /// Asking to confirm deleting `selected_count` entries.
    pub fn new_delete(selected_count: usize) -> (d: DialogState)
        ensures
            d.kind == DialogKind::Delete,
            d.input@ == Seq::<char>::empty(),
            d.cursor == 0,
            d.message@ == count_prompt("🗑️  "@, selected_count as nat, " 개 항목을 삭제하시겠습니까?"@),
            d.error is None,
    {
        let m = count_message("🗑️  ", selected_count, " 개 항목을 삭제하시겠습니까?");
        Self::with(DialogKind::Delete, String::new(), m)
    }

    /// Renaming an entry, starting from its current name.
    pub fn new_rename(current_name: String) -> (d: DialogState)
        ensures
            d.kind == DialogKind::Rename,
            d.input == current_name,
            d.cursor == current_name@.len(),
            d.message@ == "✏️  파일명 변경"@,
            d.error is None,
    {
        Self::with(DialogKind::Rename, current_name, String::from_str("✏️  파일명 변경"))
    }

    pub fn new_find() -> (d: DialogState)
        ensures
            d.kind == DialogKind::Find,
            d.input@ == Seq::<char>::empty(),
            d.cursor == 0,
            d.message@ == "🔍 파일 찾기 (현재 폴더 이하)"@,
            d.error is None,
    {
        Self::with(DialogKind::Find, String::new(), String::from_str("🔍 파일 찾기 (현재 폴더 이하)"))
    }

    pub fn new_batch_rename(selected_count: usize) -> (d: DialogState)
        ensures
            d.kind == DialogKind::BatchRename,
            d.input@ == Seq::<char>::empty(),
            d.cursor == 0,
            d.message@ == count_prompt("✏️  "@, selected_count as nat, " 개 파일 배치 리네이밍"@),
            d.error is None,
    {
        let m = count_message("✏️  ", selected_count, " 개 파일 배치 리네이밍");
        Self::with(DialogKind::BatchRename, String::new(), m)
    }

    pub fn new_ai_command() -> (d: DialogState)
        ensures
            d.kind == DialogKind::AiCommand,
            d.input@ == Seq::<char>::empty(),
            d.cursor == 0,
            d.message@ == "🤖 AI Commander - 파일 작업 명령 입력"@,
            d.error is None,
    {
        Self::with(DialogKind::AiCommand, String::new(), String::from_str("🤖 AI Commander - 파일 작업 명령 입력"))
    }

    /// Editing the note of the file at `path`, starting from its note if it has one.
    pub fn new_add_note(path: &str, existing_note: Option<String>) -> (d: DialogState)
        ensures
            d.kind == DialogKind::AddNote,
            d.input@ == (match existing_note { Some(n) => n@, None => Seq::<char>::empty() }),
            d.cursor == d.input@.len(),
            d.message@ == "📝 파일 메모/태그: "@ + path@,
            d.error is None,
    {
        let input = match existing_note {
            Some(n) => n,
            None => String::new(),
        };
        let mut m = String::from_str("📝 파일 메모/태그: ");
        push_str(&mut m, path);
        Self::with(DialogKind::AddNote, input, m)
    }

    pub fn new_generate_script(selected_count: usize) -> (d: DialogState)
        ensures
            d.kind == DialogKind::GenerateScript,
            d.input@ == Seq::<char>::empty(),
            d.cursor == 0,
            d.message@ == count_prompt("📜 "@, selected_count as nat, " 개 파일 배치 작업 스크립트 생성"@),
            d.error is None,
    {
        let m = count_message("📜 ", selected_count, " 개 파일 배치 작업 스크립트 생성");
        Self::with(DialogKind::GenerateScript, String::new(), m)
    }

    /// Naming the operations just recorded.
    pub fn new_save_macro() -> (d: DialogState)
        ensures
            d.kind == DialogKind::SaveMacro,
            d.input@ == Seq::<char>::empty(),
            d.cursor == 0,
            d.message@ == "💾 매크로 이름 입력"@,
            d.error is None,
    {
        Self::with(DialogKind::SaveMacro, String::new(), String::from_str("💾 매크로 이름 입력"))
    }

    /// Naming the saved operations to run.
    pub fn new_run_macro() -> (d: DialogState)
        ensures
            d.kind == DialogKind::RunMacro,
            d.input@ == Seq::<char>::empty(),
            d.cursor == 0,
            d.message@ == "▶️  실행할 매크로 이름 입력"@,
            d.error is None,
    {
        Self::with(DialogKind::RunMacro, String::new(), String::from_str("▶️  실행할 매크로 이름 입력"))
    }

    /// Types `c` at the cursor and moves the cursor past it.
    pub fn insert_char(&mut self, c: char)
        requires
            old(self).wf(),
        ensures
            final(self).input@ == insert_at(old(self).input@, old(self).cursor as int, c),
            final(self).cursor == old(self).cursor + 1,
            final(self).kind == old(self).kind,
            final(self).message == old(self).message,
            final(self).error == old(self).error,
            final(self).wf(),
    {
        let cs = chars_of(self.input.as_str());
        let mut out: Vec<char> = Vec::new();
        let mut i: usize = 0;
        while i < self.cursor
            invariant
                i <= self.cursor,
                self.cursor <= cs.len(),
                out@ == cs@.take(i as int),
            decreases self.cursor - i,
        {
            out.push(cs[i]);
            i = i + 1;
            assert(out@ =~= cs@.take(i as int));
        }
        out.push(c);
        let ghost mid = out@;
        let mut j: usize = self.cursor;
        while j < cs.len()
            invariant
                self.cursor <= j <= cs.len(),
                out@ == mid + cs@.subrange(self.cursor as int, j as int),
            decreases cs.len() - j,
        {
            out.push(cs[j]);
            j = j + 1;
            assert(out@ =~= mid + cs@.subrange(self.cursor as int, j as int));
        }
        assert(out@ =~= cs@.take(self.cursor as int).push(c) + cs@.skip(self.cursor as int));
        let total = out.len();
        assert(total == cs.len() + 1);
        self.input = string_of(&out);
        self.cursor = self.cursor + 1;
    }

    /// Deletes the character before the cursor, if there is one.
    pub fn backspace(&mut self)
        requires
            old(self).wf(),
        ensures
            old(self).cursor == 0 ==> *final(self) == *old(self),
            old(self).cursor > 0 ==> final(self).input@ == remove_before(old(self).input@, old(self).cursor as int)
                && final(self).cursor == old(self).cursor - 1,
            final(self).kind == old(self).kind,
            final(self).message == old(self).message,
            final(self).error == old(self).error,
            final(self).wf(),
    {
        if self.cursor == 0 {
            return;
        }
        let cs = chars_of(self.input.as_str());
        let mut out: Vec<char> = Vec::new();
        let k = self.cursor - 1;
        let mut i: usize = 0;
        while i < k
            invariant
                i <= k,
                k < cs.len(),
                out@ == cs@.take(i as int),
            decreases k - i,
        {
            out.push(cs[i]);
            i = i + 1;
            assert(out@ =~= cs@.take(i as int));
        }
        let ghost mid = out@;
        let mut j: usize = self.cursor;
        while j < cs.len()
            invariant
                k + 1 <= j <= cs.len(),
                out@ == mid + cs@.subrange(k + 1, j as int),
            decreases cs.len() - j,
        {
            out.push(cs[j]);
            j = j + 1;
            assert(out@ =~= mid + cs@.subrange(k + 1, j as int));
        }
        assert(out@ =~= cs@.take(self.cursor - 1) + cs@.skip(self.cursor as int));
        self.input = string_of(&out);
        self.cursor = self.cursor - 1;
    }

    /// Moves the cursor one character back, if it can.
    pub fn cursor_left(&mut self)
        ensures
            final(self).cursor == if old(self).cursor > 0 { (old(self).cursor - 1) as usize } else { old(self).cursor },
            final(self).input == old(self).input,
            final(self).kind == old(self).kind,
            final(self).message == old(self).message,
            final(self).error == old(self).error,
    {
        if self.cursor > 0 {
            self.cursor = self.cursor - 1;
        }
    }

    /// Moves the cursor one character forward, if it is not at the end.
    pub fn cursor_right(&mut self)
        ensures
            final(self).cursor == if old(self).cursor < old(self).input@.len() { (old(self).cursor + 1) as usize } else { old(self).cursor },
            final(self).input == old(self).input,
            final(self).kind == old(self).kind,
            final(self).message == old(self).message,
            final(self).error == old(self).error,
    {
        let n = char_count(&self.input);
        if self.cursor < n {
            self.cursor = self.cursor + 1;
        }
    }

    pub fn clear_error(&mut self)
        ensures
            final(self).error is None,
            final(self).input == old(self).input,
            final(self).cursor == old(self).cursor,
            final(self).kind == old(self).kind,
            final(self).message == old(self).message,
    {
        self.error = None;
    }
}

} // verus!
