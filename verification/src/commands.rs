//! File operations planned by a natural-language command, and the parser for the
//! JSON list in which the AI model writes them.

use vstd::prelude::*;
use crate::text::{chars_of, string_of, push_str, lines_of, lines_exec, trim, trim_exec, seqs_view, starts_with, starts_with_exec, contains_seq, contains_exec, sub_vec, join_sep, join_range, first_index_of, last_index_of, first_index_exec, last_index_exec};

verus! {

/// Something the user asked for, or the outcome of background work, for the application
/// to act on.
#[derive(Debug)]
pub enum Command {
    /// Nothing to do.
    Noop,
    Quit,
    SwitchPanel,
    CursorUp,
    CursorDown,
    PageUp,
    PageDown,
    Navigate,
    GoParent,
    ToggleSelect,
    SelectAll,
    ClearSelection,
    ShowHelp,
    ToggleHidden,
    Refresh,
    Copy,
    Pack,
    Move,
    Mkdir,
    Delete,
    Rename,
    BatchRename,
    View,
    ToggleWrap,
    ConfirmDialog,
    CancelDialog,
    DialogInput(char),
    DialogBackspace,
    DialogLeft,
    DialogRight,
    QuickSearch(char),
    Filter,
    Find,
    SearchInput(char),
    SearchBackspace,
    SearchConfirm,
    SearchCancel,
    /// The recursive size of the left (`true`) or right panel's folder was computed.
    UpdateTotalSize(bool, u64),
    /// The followed file changed.
    ViewerTailUpdate(String),
    AiSummarize,
    AiSecurityScan,
    AiImageInfo,
    AiCodeStructure,
    AiFileDiff,
    AiFolderAnalysis,
    AiFindDuplicates,
    AiOldFiles,
    AiFileClassify,
    AiStorageOptimize,
    AiGitHistory,
    AiFolderSync,
    AiGenerateReadme,
    AiAddNote,
    AiGenerateScript,
    AiNaturalCommand,
    AiCancel,
    AiScrollUp,
    AiScrollDown,
    AiPageUp,
    AiPageDown,
    AiToggleThinking,
    AiCommandConfirm,
    AiCommandCancel,
    AiCommandScrollUp,
    AiCommandScrollDown,
    MacroRecord,
    MacroList,
    MacroRun,
    /// Background results.
    SearchConfirmResults(Vec<crate::fs::FileEntry>),
    AiResponse(crate::ai::AiResponse),
    AiError(String),
    AiCommandParsed(Vec<PlannedOp>),
    SyncResult(String),
    DuplicatesResult(String),
    OldFilesResult(String),
    ClassifyResult(String),
    StorageResult(String),
    GitHistoryResult(String),
}

/// One file operation to carry out.
#[derive(Debug)]
pub enum PlannedOp {
    Delete { path: String },
    Move { from: String, to: String },
    Copy { from: String, to: String },
    Mkdir { path: String },
    Rename { from: String, to: String },
}

impl PlannedOp {
    /// A copy equal to `self`.
    pub fn copy(&self) -> (r: PlannedOp)
        ensures
            r == *self,
    {
        match self {
            PlannedOp::Delete { path } => PlannedOp::Delete { path: path.clone() },
            PlannedOp::Move { from, to } => PlannedOp::Move { from: from.clone(), to: to.clone() },
            PlannedOp::Copy { from, to } => PlannedOp::Copy { from: from.clone(), to: to.clone() },
            PlannedOp::Mkdir { path } => PlannedOp::Mkdir { path: path.clone() },
            PlannedOp::Rename { from, to } => PlannedOp::Rename { from: from.clone(), to: to.clone() },
        }
    }
}

/// Copies of all the operations.
pub fn copy_ops(ops: &Vec<PlannedOp>) -> (r: Vec<PlannedOp>)
    ensures
        r@ == ops@,
{
    let mut r: Vec<PlannedOp> = Vec::new();
    let mut i: usize = 0;
    while i < ops.len()
        invariant
            i <= ops.len(),
            r@ == ops@.take(i as int),
        decreases ops.len() - i,
    {
        r.push(ops[i].copy());
        i = i + 1;
        assert(r@ =~= ops@.take(i as int));
    }
    assert(ops@.take(ops.len() as int) =~= ops@);
    r
}

/// A planned operation as plain text values.
pub enum OpView {
    Delete(Seq<char>),
    Move(Seq<char>, Seq<char>),
    Copy(Seq<char>, Seq<char>),
    Mkdir(Seq<char>),
    Rename(Seq<char>, Seq<char>),
}

pub open spec fn op_view(op: PlannedOp) -> OpView {
    match op {
        PlannedOp::Delete { path } => OpView::Delete(path@),
        PlannedOp::Move { from, to } => OpView::Move(from@, to@),
        PlannedOp::Copy { from, to } => OpView::Copy(from@, to@),
        PlannedOp::Mkdir { path } => OpView::Mkdir(path@),
        PlannedOp::Rename { from, to } => OpView::Rename(from@, to@),
    }
}

pub open spec fn ops_view(ops: Seq<PlannedOp>) -> Seq<OpView> {
    ops.map_values(|o: PlannedOp| op_view(o))
}

/// A required field of an operation.
#[derive(Debug, Clone, Copy, PartialEq, Eq, Structural)]
pub enum OpField {
    Path,
    From,
    To,
}

/// An operation kind the parser knows.
#[derive(Debug, Clone, Copy, PartialEq, Eq, Structural)]
pub enum OpKind {
    Delete,
    Move,
    Copy,
    Mkdir,
    Rename,
}

/// Why a reply could not be read as a list of operations.
#[derive(Debug)]
pub enum PlanError {
    /// The reply is empty or only whitespace.
    EmptyReply,
    /// The text is not a JSON array; serde_json's message.
    InvalidJson(String),
    /// An element has no string field `op`.
    MissingOp,
    /// An element of a known kind lacks one of its string fields.
    MissingField(OpKind, OpField),
}

pub enum PlanErrorView {
    EmptyReply,
    InvalidJson(Seq<char>),
    MissingOp,
    MissingField(OpKind, OpField),
}

pub open spec fn plan_error_view(e: PlanError) -> PlanErrorView {
    match e {
        PlanError::EmptyReply => PlanErrorView::EmptyReply,
        PlanError::InvalidJson(m) => PlanErrorView::InvalidJson(m@),
        PlanError::MissingOp => PlanErrorView::MissingOp,
        PlanError::MissingField(k, f) => PlanErrorView::MissingField(k, f),
    }
}

/// The string fields `op`, `path`, `from`, `to` of one array element (`None` when absent
/// or not a string).
pub type OpFields = (Option<String>, Option<String>, Option<String>, Option<String>);

pub open spec fn opt_view(o: Option<String>) -> Option<Seq<char>> {
    match o {
        Some(s) => Some(s@),
        None => None,
    }
}

pub open spec fn fields_view(f: OpFields) -> (Option<Seq<char>>, Option<Seq<char>>, Option<Seq<char>>, Option<Seq<char>>) {
    (opt_view(f.0), opt_view(f.1), opt_view(f.2), opt_view(f.3))
}

/// What serde_json makes of `text` read as an array of values: for each element, its
/// string fields `op`, `path`, `from`, `to`; or serde_json's error message. Named, not spelled out.
pub uninterp spec fn json_op_fields(text: Seq<char>) -> Result<
    Seq<(Option<Seq<char>>, Option<Seq<char>>, Option<Seq<char>>, Option<Seq<char>>)>,
    Seq<char>,
>;

/// `serde_json::from_str::<Vec<serde_json::Value>>(text)`, each element read through
/// `Value::get` and `Value::as_str` for the keys `op`, `path`, `from`, `to`; an error becomes
/// its `Display` text. The result is `json_op_fields(text)`.
#[verifier::external_body]
fn read_op_fields(text: &str) -> (r: Result<Vec<OpFields>, String>)
    ensures
        match r {
            Ok(v) => json_op_fields(text@) == Ok::<_, Seq<char>>(v@.map_values(|f: OpFields| fields_view(f))),
            Err(e) => json_op_fields(text@) == Err::<Seq<(Option<Seq<char>>, Option<Seq<char>>, Option<Seq<char>>, Option<Seq<char>>)>, _>(e@),
        },
{
    match serde_json::from_str::<Vec<serde_json::Value>>(text) {
        Ok(values) => Ok(values.iter().map(|v| {
            let f = |k: &str| v.get(k).and_then(|x| x.as_str()).map(|s| s.to_string());
            (f("op"), f("path"), f("from"), f("to"))
        }).collect()),
        Err(e) => Err(e.to_string()),
    }
}


/// A line that opens or closes a code fence.
pub open spec fn is_fence(l: Seq<char>) -> bool {
    starts_with(l, "```"@)
}

/// A fence line that names JSON.
pub open spec fn is_json_fence(l: Seq<char>) -> bool {
    is_fence(l) && contains_seq(l, "json"@)
}

pub open spec fn first_json_fence(ls: Seq<Seq<char>>) -> Option<int>
    decreases ls.len(),
{
    if ls.len() == 0 {
        None
    } else if is_json_fence(ls[0]) {
        Some(0)
    } else {
        match first_json_fence(ls.drop_first()) {
            Some(i) => Some(i + 1),
            None => None,
        }
    }
}

pub open spec fn last_fence(ls: Seq<Seq<char>>) -> Option<int>
    decreases ls.len(),
{
    if ls.len() == 0 {
        None
    } else if is_fence(ls.last()) {
        Some(ls.len() - 1)
    } else {
        last_fence(ls.drop_last())
    }
}

/// Lines of a fenced reply that hold the JSON: after the first fence line naming JSON
/// (or from the top), up to the last fence line (or the end).
pub open spec fn fence_bounds(t: Seq<char>) -> (int, int) {
    let ls = lines_of(t);
    let a = match first_json_fence(ls) {
        Some(i) => i + 1,
        None => 0,
    };
    let b = match last_fence(ls) {
        Some(i) => i,
        None => ls.len() as int,
    };
    (a, b)
}

/// The part of the trimmed reply `t` that should be JSON: the fenced lines of a reply that
/// starts with a code fence, else the text from the first `[` to the last `]`, else `t`.
pub open spec fn json_part(t: Seq<char>) -> Seq<char> {
    if is_fence(t) {
        let (a, b) = fence_bounds(t);
        join_sep(lines_of(t).subrange(a, b), '\n')
    } else {
        match (first_index_of(t, '['), last_index_of(t, ']')) {
            (Some(a), Some(b)) => t.subrange(a, b + 1),
            _ => t,
        }
    }
}

/// Replies on which cutting out the JSON part would slice backwards, where the program
/// this library serves stops with a panic.
pub open spec fn reply_unsliceable(text: Seq<char>) -> bool {
    let t = trim(text);
    t.len() > 0 && if is_fence(t) {
        fence_bounds(t).0 > fence_bounds(t).1
    } else {
        match (first_index_of(t, '['), last_index_of(t, ']')) {
            (Some(a), Some(b)) => b + 1 < a,
            _ => false,
        }
    }
}

/// What one array element contributes: an operation, nothing (unknown kind), or an error.
pub open spec fn op_of_fields(f: (Option<Seq<char>>, Option<Seq<char>>, Option<Seq<char>>, Option<Seq<char>>)) -> Result<Option<OpView>, PlanErrorView> {
    match f.0 {
        None => Err(PlanErrorView::MissingOp),
        Some(op) => if op == "delete"@ {
            match f.1 {
                None => Err(PlanErrorView::MissingField(OpKind::Delete, OpField::Path)),
                Some(p) => Ok(Some(OpView::Delete(p))),
            }
        } else if op == "move"@ || op == "copy"@ || op == "rename"@ {
            let kind = if op == "move"@ { OpKind::Move } else if op == "copy"@ { OpKind::Copy } else { OpKind::Rename };
            match (f.2, f.3) {
                (None, _) => Err(PlanErrorView::MissingField(kind, OpField::From)),
                (Some(_), None) => Err(PlanErrorView::MissingField(kind, OpField::To)),
                (Some(a), Some(b)) => Ok(Some(if op == "move"@ {
                    OpView::Move(a, b)
                } else if op == "copy"@ {
                    OpView::Copy(a, b)
                } else {
                    OpView::Rename(a, b)
                })),
            }
        } else if op == "mkdir"@ {
            match f.1 {
                None => Err(PlanErrorView::MissingField(OpKind::Mkdir, OpField::Path)),
                Some(p) => Ok(Some(OpView::Mkdir(p))),
            }
        } else {
            Ok(None)
        },
    }
}

/// The operations of all elements in order; the first element in error decides the result.
pub open spec fn ops_of_fields(fs: Seq<(Option<Seq<char>>, Option<Seq<char>>, Option<Seq<char>>, Option<Seq<char>>)>) -> Result<Seq<OpView>, PlanErrorView>
    decreases fs.len(),
{
    if fs.len() == 0 {
        Ok(Seq::empty())
    } else {
        match ops_of_fields(fs.drop_last()) {
            Err(e) => Err(e),
            Ok(prev) => match op_of_fields(fs.last()) {
                Err(e) => Err(e),
                Ok(None) => Ok(prev),
                Ok(Some(o)) => Ok(prev.push(o)),
            },
        }
    }
}

/// The operations a reply plans, or why it plans none.
pub open spec fn planned_ops_of(text: Seq<char>) -> Result<Seq<OpView>, PlanErrorView> {
    let t = trim(text);
    if t.len() == 0 {
        Err(PlanErrorView::EmptyReply)
    } else {
        match json_op_fields(trim(json_part(t))) {
            Err(m) => Err(PlanErrorView::InvalidJson(m)),
            Ok(fs) => ops_of_fields(fs),
        }
    }
}

pub open spec fn plan_result_view(r: Result<Vec<PlannedOp>, PlanError>) -> Result<Seq<OpView>, PlanErrorView> {
    match r {
        Ok(v) => Ok(ops_view(v@)),
        Err(e) => Err(plan_error_view(e)),
    }
}

fn is_fence_exec(l: &Vec<char>) -> (r: bool)
    ensures
        r == is_fence(l@),
{
    let f = chars_of("```");
    proof {
        reveal_strlit("```");
    }
    starts_with_exec(l, &f)
}

fn is_json_fence_exec(l: &Vec<char>) -> (r: bool)
    ensures
        r == is_json_fence(l@),
{
    let j = chars_of("json");
    proof {
        reveal_strlit("json");
    }
    is_fence_exec(l) && contains_exec(l, &j)
}

fn fence_bounds_exec(t: &Vec<char>) -> (r: (usize, usize, Vec<Vec<char>>))
    ensures
        seqs_view(r.2@) == lines_of(t@),
        r.0 as int == fence_bounds(t@).0,
        r.1 as int == fence_bounds(t@).1,
        r.0 <= r.2.len(),
        r.1 <= r.2.len(),
{
    let ls = lines_exec(t);
    let ghost lv = seqs_view(ls@);
    let mut i: usize = 0;
    assert(lv.skip(0) =~= lv);
    while i < ls.len() && !is_json_fence_exec(&ls[i])
        invariant
            i <= ls.len(),
            lv == seqs_view(ls@),
            first_json_fence(lv) == match first_json_fence(lv.skip(i as int)) {
                Some(k) => Some(k + i),
                None => None,
            },
        decreases ls.len() - i,
    {
        proof {
            assert(lv.skip(i as int).drop_first() =~= lv.skip(i + 1));
            assert(lv.skip(i as int)[0] == lv[i as int]);
        }
        i = i + 1;
    }
    let a = if i < ls.len() {
        proof {
            assert(lv.skip(i as int)[0] == lv[i as int]);
        }
        i + 1
    } else {
        0
    };
    let mut j: usize = ls.len();
    assert(lv.take(ls.len() as int) =~= lv);
    while j > 0 && !is_fence_exec(&ls[j - 1])
        invariant
            j <= ls.len(),
            lv == seqs_view(ls@),
            last_fence(lv) == last_fence(lv.take(j as int)),
        decreases j,
    {
        proof {
            assert(lv.take(j as int).drop_last() =~= lv.take(j - 1));
        }
        j = j - 1;
    }
    let b = if j > 0 {
        j - 1
    } else {
        ls.len()
    };
    proof {
        if j == 0 {
            assert(lv.take(0) =~= Seq::<Seq<char>>::empty());
        }
    }
    (a, b, ls)
}

/// Whether `text` is a reply on which `parse_planned_ops` may not be called
/// (see `reply_unsliceable`).
pub fn reply_would_panic(text: &str) -> (r: bool)
    ensures
        r == reply_unsliceable(text@),
{
    let t = trim_exec(&chars_of(text));
    if t.len() == 0 {
        return false;
    }
    if is_fence_exec(&t) {
        let (a, b, _ls) = fence_bounds_exec(&t);
        a > b
    } else {
        match (first_index_exec(&t, '['), last_index_exec(&t, ']')) {
            (Some(a), Some(b)) => b + 1 < a,
            _ => false,
        }
    }
}

fn op_of_exec(f: &OpFields) -> (r: Result<Option<PlannedOp>, PlanError>)
    ensures
        match r {
            Ok(None) => op_of_fields(fields_view(*f)) == Ok::<Option<OpView>, PlanErrorView>(None),
            Ok(Some(o)) => op_of_fields(fields_view(*f)) == Ok::<Option<OpView>, PlanErrorView>(Some(op_view(o))),
            Err(e) => op_of_fields(fields_view(*f)) == Err::<Option<OpView>, PlanErrorView>(plan_error_view(e)),
        },
{
    let op = match &f.0 {
        None => return Err(PlanError::MissingOp),
        Some(op) => op,
    };
    proof {
        reveal_strlit("delete");
        reveal_strlit("move");
        reveal_strlit("copy");
        reveal_strlit("rename");
        reveal_strlit("mkdir");
    }
    let is_delete = op.eq(&String::from_str("delete"));
    let is_move = op.eq(&String::from_str("move"));
    let is_copy = op.eq(&String::from_str("copy"));
    let is_rename = op.eq(&String::from_str("rename"));
    let is_mkdir = op.eq(&String::from_str("mkdir"));
    if is_delete {
        match &f.1 {
            None => Err(PlanError::MissingField(OpKind::Delete, OpField::Path)),
            Some(p) => Ok(Some(PlannedOp::Delete { path: p.clone() })),
        }
    } else if is_move || is_copy || is_rename {
        let kind = if is_move { OpKind::Move } else if is_copy { OpKind::Copy } else { OpKind::Rename };
        match (&f.2, &f.3) {
            (None, _) => Err(PlanError::MissingField(kind, OpField::From)),
            (Some(_), None) => Err(PlanError::MissingField(kind, OpField::To)),
            (Some(a), Some(b)) => Ok(Some(if is_move {
                PlannedOp::Move { from: a.clone(), to: b.clone() }
            } else if is_copy {
                PlannedOp::Copy { from: a.clone(), to: b.clone() }
            } else {
                PlannedOp::Rename { from: a.clone(), to: b.clone() }
            })),
        }
    } else if is_mkdir {
        match &f.1 {
            None => Err(PlanError::MissingField(OpKind::Mkdir, OpField::Path)),
            Some(p) => Ok(Some(PlannedOp::Mkdir { path: p.clone() })),
        }
    } else {
        Ok(None)
    }
}

/// Reads the file operations an AI reply plans: a JSON array (possibly inside a code fence
/// or after some prose) of objects with a string `op` (`delete`, `move`, `copy`, `mkdir`,
/// `rename`) and its string fields; elements of other kinds are skipped.
pub fn parse_planned_ops(json_str: &str) -> (r: Result<Vec<PlannedOp>, PlanError>)
    requires
        !reply_unsliceable(json_str@),
    ensures
        plan_result_view(r) == planned_ops_of(json_str@),
{
    let t = trim_exec(&chars_of(json_str));
    if t.len() == 0 {
        return Err(PlanError::EmptyReply);
    }
    let part: Vec<char> = if is_fence_exec(&t) {
        let (a, b, ls) = fence_bounds_exec(&t);
        join_range(&ls, a, b, '\n')
    } else {
        match (first_index_exec(&t, '['), last_index_exec(&t, ']')) {
            (Some(a), Some(b)) => sub_vec(&t, a, b + 1),
            _ => sub_vec(&t, 0, t.len()),
        }
    };
    proof {
        if !is_fence(t@) {
            assert(t@.subrange(0, t@.len() as int) =~= t@);
        }
    }
    let final_text = string_of(&trim_exec(&part));
    let fields = match read_op_fields(final_text.as_str()) {
        Err(m) => return Err(PlanError::InvalidJson(m)),
        Ok(v) => v,
    };
    let ghost fv = fields@.map_values(|f: OpFields| fields_view(f));
    let mut ops: Vec<PlannedOp> = Vec::new();
    let mut i: usize = 0;
    proof {
        assert(planned_ops_of(json_str@) == ops_of_fields(fv));
        assert(fv.take(0) =~= Seq::<(Option<Seq<char>>, Option<Seq<char>>, Option<Seq<char>>, Option<Seq<char>>)>::empty());
        assert(ops_view(ops@) =~= Seq::<OpView>::empty());
    }
    while i < fields.len()
        invariant
            i <= fields.len(),
            planned_ops_of(json_str@) == ops_of_fields(fv),
            fv == fields@.map_values(|f: OpFields| fields_view(f)),
            ops_of_fields(fv.take(i as int)) == Ok::<Seq<OpView>, PlanErrorView>(ops_view(ops@)),
        decreases fields.len() - i,
    {
        proof {
            assert(fv.take(i + 1).drop_last() =~= fv.take(i as int));
            assert(fv.take(i + 1).last() == fields_view(fields@[i as int]));
        }
        match op_of_exec(&fields[i]) {
            Err(e) => {
                proof {
                    lemma_ops_error_sticks(fv, (i + 1) as nat);
                }
                return Err(e);
            },
            Ok(None) => {},
            Ok(Some(o)) => {
                let ghost before = ops@;
                let ghost ov = op_view(o);
                ops.push(o);
                assert(ops_view(ops@) =~= ops_view(before).push(ov));
            },
        }
        i = i + 1;
    }
    proof {
        assert(fv.take(fields.len() as int) =~= fv);
    }
    Ok(ops)
}

proof fn lemma_ops_error_sticks(fs: Seq<(Option<Seq<char>>, Option<Seq<char>>, Option<Seq<char>>, Option<Seq<char>>)>, k: nat)
    requires
        k <= fs.len(),
        ops_of_fields(fs.take(k as int)) is Err,
    ensures
        ops_of_fields(fs) == ops_of_fields(fs.take(k as int)),
    decreases fs.len() - k,
{
    if k < fs.len() {
        assert(fs.take(k + 1int).drop_last() =~= fs.take(k as int));
        lemma_ops_error_sticks(fs, k + 1);
    } else {
        assert(fs.take(k as int) =~= fs);
    }
}

impl PlanError {
    /// The message shown to the user.
    pub fn message(&self) -> (m: String)
        ensures
            m@ == plan_error_text(plan_error_view(*self)),
    {
        proof {
            reveal_strlit("AI 응답이 비어있습니다. 서버가 응답을 반환하지 않았을 수 있습니다.");
            reveal_strlit("JSON 파싱 실패: ");
            reveal_strlit("'op' 필드가 없습니다");
        }
        match self {
            PlanError::EmptyReply => String::from_str("AI 응답이 비어있습니다. 서버가 응답을 반환하지 않았을 수 있습니다."),
            PlanError::InvalidJson(e) => {
                let mut m = String::from_str("JSON 파싱 실패: ");
                push_str(&mut m, e.as_str());
                m
            },
            PlanError::MissingOp => String::from_str("'op' 필드가 없습니다"),
            PlanError::MissingField(k, f) => {
                let mut m = String::from_str(op_name(*k));
                push_str(&mut m, ": '");
                push_str(&mut m, field_name(*f));
                push_str(&mut m, "' 필드 필요");
                proof {
                    reveal_strlit(": '");
                    reveal_strlit("' 필드 필요");
                }
                m
            },
        }
    }
}

pub open spec fn op_name_text(k: OpKind) -> Seq<char> {
    match k {
        OpKind::Delete => "delete"@,
        OpKind::Move => "move"@,
        OpKind::Copy => "copy"@,
        OpKind::Mkdir => "mkdir"@,
        OpKind::Rename => "rename"@,
    }
}

pub open spec fn field_name_text(f: OpField) -> Seq<char> {
    match f {
        OpField::Path => "path"@,
        OpField::From => "from"@,
        OpField::To => "to"@,
    }
}

/// The user-facing text of a parse error.
pub open spec fn plan_error_text(e: PlanErrorView) -> Seq<char> {
    match e {
        PlanErrorView::EmptyReply => "AI 응답이 비어있습니다. 서버가 응답을 반환하지 않았을 수 있습니다."@,
        PlanErrorView::InvalidJson(m) => "JSON 파싱 실패: "@ + m,
        PlanErrorView::MissingOp => "'op' 필드가 없습니다"@,
        PlanErrorView::MissingField(k, f) => op_name_text(k) + ": '"@ + field_name_text(f) + "' 필드 필요"@,
    }
}

fn op_name(k: OpKind) -> (s: &'static str)
    ensures
        s@ == op_name_text(k),
{
    match k {
        OpKind::Delete => "delete",
        OpKind::Move => "move",
        OpKind::Copy => "copy",
        OpKind::Mkdir => "mkdir",
        OpKind::Rename => "rename",
    }
}

fn field_name(f: OpField) -> (s: &'static str)
    ensures
        s@ == field_name_text(f),
{
    match f {
        OpField::Path => "path",
        OpField::From => "from",
        OpField::To => "to",
    }
}

} // verus!
