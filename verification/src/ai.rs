//! The assistant: the prompts it is sent, how its reply is read, and the scrollable text
//! it is shown in.

use vstd::prelude::*;
use crate::text::{chars_of, string_of, push_str, lines_of, lines_exec, seqs_view, trim, trim_exec};
use crate::theme::Color;
use crate::viewer::{LineContent, line_view, lines_view, plain_line, plain_line_of};
use crate::commands::{PlannedOp, ops_view};

verus! {

/// What the assistant answered: its reasoning when it gave one, the answer, and whether
/// the answer is an error report.
#[derive(Debug, Clone)]
pub struct AiResponse {
    pub thinking: Option<String>,
    pub result: String,
    pub is_error: bool,
}

impl AiResponse {
    pub fn new(thinking: Option<String>, result: String) -> (r: AiResponse)
        ensures
            r.thinking == thinking,
            r.result == result,
            !r.is_error,
    {
        AiResponse { thinking, result, is_error: false }
    }

    pub fn error(content: String) -> (r: AiResponse)
        ensures
            r.thinking is None,
            r.result == content,
            r.is_error,
    {
        AiResponse { thinking: None, result: content, is_error: true }
    }
}

/// The address of the chat completions endpoint under a base URL.
pub fn completions_url(base_url: &str) -> (s: String)
    ensures
        s@ == base_url@ + "/chat/completions"@,
{
    let mut s = String::from_str(base_url);
    push_str(&mut s, "/chat/completions");
    s
}

pub open spec fn summarize_prompt_text(content: Seq<char>, path: Seq<char>) -> Seq<char> {
    "파일 경로: "@ + path + "\n\n다음 파일의 내용을 간단하게 요약해줘. 핵심만 2-3줄로 설명해줘.\n\n"@ + content
}

/// The prompt asking for a short summary of a file.
pub fn summarize_prompt(file_content: &str, file_path: &str) -> (s: String)
    ensures
        s@ == summarize_prompt_text(file_content@, file_path@),
{
    let mut s = String::from_str("파일 경로: ");
    push_str(&mut s, file_path);
    push_str(&mut s, "\n\n다음 파일의 내용을 간단하게 요약해줘. 핵심만 2-3줄로 설명해줘.\n\n");
    push_str(&mut s, file_content);
    s
}

pub open spec fn security_prompt_text(content: Seq<char>, path: Seq<char>) -> Seq<char> {
    "파일: "@ + path + "\n\n다음 파일에서 민감한 정보(API 키, 비밀번호, 개인정보 등)를 찾아줘. 패턴과 위치를 명확히 지적해줘.\n\n"@ + content
}

/// The prompt asking to find secrets and personal data in a file.
pub fn security_prompt(file_content: &str, file_path: &str) -> (s: String)
    ensures
        s@ == security_prompt_text(file_content@, file_path@),
{
    let mut s = String::from_str("파일: ");
    push_str(&mut s, file_path);
    push_str(&mut s, "\n\n다음 파일에서 민감한 정보(API 키, 비밀번호, 개인정보 등)를 찾아줘. 패턴과 위치를 명확히 지적해줘.\n\n");
    push_str(&mut s, file_content);
    s
}

pub open spec fn code_prompt_text(content: Seq<char>, path: Seq<char>) -> Seq<char> {
    "파일: "@ + path + "\n\n다음 코드 파일의 구조를 분석해줘. 주요 함수/클래스, 공개 API, 의존성을 간단히 정리해줘.\n\n"@ + content
}

/// The prompt asking for the structure of a source file.
pub fn code_prompt(file_content: &str, file_path: &str) -> (s: String)
    ensures
        s@ == code_prompt_text(file_content@, file_path@),
{
    let mut s = String::from_str("파일: ");
    push_str(&mut s, file_path);
    push_str(&mut s, "\n\n다음 코드 파일의 구조를 분석해줘. 주요 함수/클래스, 공개 API, 의존성을 간단히 정리해줘.\n\n");
    push_str(&mut s, file_content);
    s
}

pub open spec fn compare_prompt_text(content1: Seq<char>, path1: Seq<char>, path2: Seq<char>) -> Seq<char> {
    "파일 1: "@ + path1 + "\n파일 2: "@ + path2
        + "\n\n두 파일의 차이점을 분석해줘. 무엇이 변경되었고 왜 변경된 것 같은지 설명해줘.\n\n=== 파일 1 내용 ===\n"@
        + content1 + "\n\n=== 파일 2 내용 ===\n(파일 2가 제공되지 않았으므로 파일 1 기준으로만 제시됨)"@
}

/// The prompt asking to compare two files (only the first one's text is sent).
pub fn compare_prompt(file1_content: &str, file1_path: &str, file2_path: &str) -> (s: String)
    ensures
        s@ == compare_prompt_text(file1_content@, file1_path@, file2_path@),
{
    let mut s = String::from_str("파일 1: ");
    push_str(&mut s, file1_path);
    push_str(&mut s, "\n파일 2: ");
    push_str(&mut s, file2_path);
    push_str(&mut s, "\n\n두 파일의 차이점을 분석해줘. 무엇이 변경되었고 왜 변경된 것 같은지 설명해줘.\n\n=== 파일 1 내용 ===\n");
    push_str(&mut s, file1_content);
    push_str(&mut s, "\n\n=== 파일 2 내용 ===\n(파일 2가 제공되지 않았으므로 파일 1 기준으로만 제시됨)");
    s
}

pub open spec fn folder_prompt_text(info: Seq<char>, path: Seq<char>) -> Seq<char> {
    "폴더: "@ + path + "\n\n다음 폴더 구조와 파일 목록을 분석해줘. 프로젝트 타입은 무엇이고 어떤 용도인지, 주요 컴포넌트는 무엇인지 설명해줘.\n\n"@ + info
}

/// The prompt asking what a folder is for, given its listing.
pub fn folder_prompt(folder_info: &str, folder_path: &str) -> (s: String)
    ensures
        s@ == folder_prompt_text(folder_info@, folder_path@),
{
    let mut s = String::from_str("폴더: ");
    push_str(&mut s, folder_path);
    push_str(&mut s, "\n\n다음 폴더 구조와 파일 목록을 분석해줘. 프로젝트 타입은 무엇이고 어떤 용도인지, 주요 컴포넌트는 무엇인지 설명해줘.\n\n");
    push_str(&mut s, folder_info);
    s
}

/// Splitting at blank-line separators (`"\n\n"`), left to right, as `str::split` does:
/// the pieces finished so far and the piece being read.
pub open spec fn dnl_fold(s: Seq<char>) -> (Seq<Seq<char>>, Seq<char>)
    decreases s.len(),
{
    if s.len() == 0 {
        (Seq::empty(), Seq::empty())
    } else {
        let (done, cur) = dnl_fold(s.drop_last());
        let c = s.last();
        if c == '\n' && cur.len() > 0 && cur.last() == '\n' {
            (done.push(cur.drop_last()), Seq::empty())
        } else {
            (done, cur.push(c))
        }
    }
}

/// The pieces of `s` between occurrences of `"\n\n"`.
pub open spec fn split_paragraphs(s: Seq<char>) -> Seq<Seq<char>> {
    dnl_fold(s).0.push(dnl_fold(s).1)
}

/// The paragraphs with something other than whitespace in them.
pub open spec fn paragraphs(s: Seq<char>) -> Seq<Seq<char>> {
    split_paragraphs(s).filter(|p: Seq<char>| trim(p).len() > 0)
}

/// The last paragraph, trimmed, that does not start with `*`.
pub open spec fn last_plain(ps: Seq<Seq<char>>) -> Option<Seq<char>>
    decreases ps.len(),
{
    if ps.len() == 0 {
        None
    } else {
        let t = trim(ps.last());
        if t.len() > 0 && t[0] != '*' {
            Some(t)
        } else {
            last_plain(ps.drop_last())
        }
    }
}

pub open spec fn no_reply_text() -> Seq<char> {
    "응답을 받지 못했습니다"@
}

/// The answer read out of a model's reasoning: its last paragraph that does not start
/// with `*`, else its last paragraph, trimmed; a fixed notice when it has none.
pub open spec fn final_result_of(thinking: Seq<char>) -> Seq<char> {
    let ps = paragraphs(thinking);
    if ps.len() == 0 {
        no_reply_text()
    } else {
        match last_plain(ps) {
            Some(t) => t,
            None => trim(ps.last()),
        }
    }
}

fn split_paragraphs_exec(s: &Vec<char>) -> (r: Vec<Vec<char>>)
    ensures
        seqs_view(r@) == split_paragraphs(s@),
{
    let mut done: Vec<Vec<char>> = Vec::new();
    let mut cur: Vec<char> = Vec::new();
    let mut i: usize = 0;
    assert(s@.take(0) =~= Seq::<char>::empty());
    while i < s.len()
        invariant
            i <= s.len(),
            dnl_fold(s@.take(i as int)) == (seqs_view(done@), cur@),
        decreases s.len() - i,
    {
        let c = s[i];
        proof {
            assert(s@.take(i + 1).drop_last() =~= s@.take(i as int));
            assert(s@.take(i + 1).last() == c);
        }
        if c == '\n' && cur.len() > 0 && cur[cur.len() - 1] == '\n' {
            let ghost cv = cur@;
            let mut piece = cur;
            piece.pop();
            let ghost pv = piece@;
            let ghost dv = seqs_view(done@);
            done.push(piece);
            cur = Vec::new();
            proof {
                assert(pv =~= cv.drop_last());
                assert(seqs_view(done@) =~= dv.push(pv));
                assert(cur@ =~= Seq::<char>::empty());
            }
        } else {
            cur.push(c);
        }
        i = i + 1;
    }
    assert(s@.take(s.len() as int) =~= s@);
    let ghost dv = seqs_view(done@);
    let ghost cv = cur@;
    done.push(cur);
    assert(seqs_view(done@) =~= dv.push(cv));
    done
}

/// The answer read out of a model's reasoning (see `final_result_of`).
pub fn extract_final_result(thinking_text: &str) -> (r: String)
    ensures
        r@ == final_result_of(thinking_text@),
{
    let cs = chars_of(thinking_text);
    let pieces = split_paragraphs_exec(&cs);
    let ghost pv = seqs_view(pieces@);
    let ghost keep = |p: Seq<char>| trim(p).len() > 0;
    let mut paras: Vec<Vec<char>> = Vec::new();
    let mut i: usize = 0;
    while i < pieces.len()
        invariant
            i <= pieces.len(),
            pv == seqs_view(pieces@),
            keep == (|p: Seq<char>| trim(p).len() > 0),
            seqs_view(paras@) == pv.take(i as int).filter(keep),
        decreases pieces.len() - i,
    {
        proof {
            assert(pv.take(i + 1) =~= pv.take(i as int).push(pv[i as int]));
            pv.take(i as int).lemma_filter_push(pv[i as int], keep);
        }
        let t = trim_exec(&pieces[i]);
        if t.len() > 0 {
            let ghost before = seqs_view(paras@);
            paras.push(pieces[i].clone());
            assert(seqs_view(paras@) =~= before.push(pv[i as int]));
        }
        i = i + 1;
    }
    assert(pv.take(pieces.len() as int) =~= pv);
    let ghost ps = seqs_view(paras@);
    assert(ps == paragraphs(thinking_text@));
    if paras.len() == 0 {
        return String::from_str("응답을 받지 못했습니다");
    }
    let mut j: usize = paras.len();
    assert(ps.take(paras.len() as int) =~= ps);
    while j > 0
        invariant
            j <= paras.len(),
            ps == seqs_view(paras@),
            ps == paragraphs(thinking_text@),
            ps.len() > 0,
            last_plain(ps) == last_plain(ps.take(j as int)),
        decreases j,
    {
        let t = trim_exec(&paras[j - 1]);
        proof {
            assert(ps.take(j as int).drop_last() =~= ps.take(j - 1));
            assert(ps.take(j as int).last() == paras@[j - 1]@);
        }
        if t.len() > 0 && t[0] != '*' {
            return string_of(&t);
        }
        j = j - 1;
    }
    assert(ps.take(0) =~= Seq::<Seq<char>>::empty());
    let t = trim_exec(&paras[paras.len() - 1]);
    string_of(&t)
}

/// The answer a reply carries: its content, or when that is empty the answer read out of
/// its reasoning (a fixed notice when there is no reasoning either).
pub open spec fn reply_result(content: Seq<char>, reasoning: Option<String>) -> Seq<char> {
    if content.len() == 0 {
        match reasoning {
            Some(t) => final_result_of(t@),
            None => no_reply_text(),
        }
    } else {
        content
    }
}

/// The response a chat completion's first choice makes.
pub fn reply_response(content: String, reasoning: Option<String>) -> (r: AiResponse)
    ensures
        r.thinking == reasoning,
        r.result@ == reply_result(content@, reasoning),
        !r.is_error,
{
    let empty = chars_of(content.as_str()).len() == 0;
    let result = if empty {
        match &reasoning {
            Some(t) => extract_final_result(t.as_str()),
            None => String::from_str("응답을 받지 못했습니다"),
        }
    } else {
        content
    };
    AiResponse::new(reasoning, result)
}

/// The response a chat completion makes: its first choice's (see `reply_response`), given
/// each choice's content and reasoning; none when it has no choice.
pub fn first_choice_response(choices: Vec<(String, Option<String>)>) -> (r: Option<AiResponse>)
    ensures
        choices@.len() == 0 ==> r is None,
        choices@.len() > 0 ==> (r matches Some(a) && a.thinking == choices@[0].1 && !a.is_error
            && a.result@ == reply_result(choices@[0].0@, choices@[0].1)),
{
    let mut choices = choices;
    if choices.len() == 0 {
        return None;
    }
    let (content, reasoning) = choices.swap_remove(0);
    Some(reply_response(content, reasoning))
}

/// The lines of `text` wrapped at `width` columns, as textwrap wraps them. Named, not
/// spelled out.
pub uninterp spec fn wrapped(text: Seq<char>, width: usize) -> Seq<Seq<char>>;

/// `textwrap::wrap`; its lines are named by `wrapped`.
#[verifier::external_body]
fn wrap_text(text: &str, width: usize) -> (r: Vec<String>)
    ensures
        r@.map_values(|s: String| s@) == wrapped(text@, width),
{
    textwrap::wrap(text, width).iter().map(|s| s.to_string()).collect()
}

/// The lines a response is shown as: each line of it wrapped at 120 columns, an empty
/// line kept as one empty line.
pub open spec fn response_lines(ls: Seq<Seq<char>>) -> Seq<Seq<char>>
    decreases ls.len(),
{
    if ls.len() == 0 {
        Seq::empty()
    } else {
        response_lines(ls.drop_last()) + if ls.last().len() == 0 { seq![Seq::<char>::empty()] } else { wrapped(ls.last(), 120) }
    }
}

/// The assistant's output as shown: its lines, the first line on screen, whether an answer
/// is awaited, and what was asked.
pub struct AiState {
    pub lines: Vec<LineContent>,
    pub scroll: u16,
    pub is_loading: bool,
    pub query: String,
}

impl AiState {
    fn format_response(text: &str) -> (r: Vec<LineContent>)
        ensures
            lines_view(r@) == response_lines(lines_of(text@)).map_values(|t: Seq<char>| plain_line(t)),
    {
        let cs = chars_of(text);
        let ls = lines_exec(&cs);
        let ghost lv = seqs_view(ls@);
        let mut r: Vec<LineContent> = Vec::new();
        let mut i: usize = 0;
        while i < ls.len()
            invariant
                i <= ls.len(),
                lv == seqs_view(ls@),
                lines_view(r@) == response_lines(lv.take(i as int)).map_values(|t: Seq<char>| plain_line(t)),
            decreases ls.len() - i,
        {
            let ghost before = r@;
            proof {
                assert(lv.take(i + 1).drop_last() =~= lv.take(i as int));
                assert(lv.take(i + 1).last() == ls@[i as int]@);
            }
            if ls[i].len() == 0 {
                let e: Vec<char> = Vec::new();
                r.push(plain_line_of(&e));
                proof {
                    assert(e@ =~= Seq::<char>::empty());
                    assert(lines_view(r@) =~= lines_view(before).push(plain_line(Seq::<char>::empty())));
                    assert(response_lines(lv.take(i + 1)).map_values(|t: Seq<char>| plain_line(t)) =~=
                        response_lines(lv.take(i as int)).map_values(|t: Seq<char>| plain_line(t)).push(plain_line(Seq::<char>::empty())));
                }
            } else {
                let line = string_of(&ls[i]);
                let parts = wrap_text(line.as_str(), 120);
                let ghost pv = parts@.map_values(|s: String| s@);
                let mut j: usize = 0;
                while j < parts.len()
                    invariant
                        j <= parts.len(),
                        pv == parts@.map_values(|s: String| s@),
                        lines_view(r@) == lines_view(before) + pv.take(j as int).map_values(|t: Seq<char>| plain_line(t)),
                    decreases parts.len() - j,
                {
                    let pc = chars_of(parts[j].as_str());
                    let ghost rb = r@;
                    r.push(plain_line_of(&pc));
                    proof {
                        assert(pv.take(j + 1) =~= pv.take(j as int).push(pv[j as int]));
                        assert(lines_view(r@) =~= lines_view(rb).push(plain_line(pv[j as int])));
                    }
                    j = j + 1;
                }
                proof {
                    assert(pv.take(parts.len() as int) =~= pv);
                    assert(response_lines(lv.take(i + 1)).map_values(|t: Seq<char>| plain_line(t)) =~=
                        response_lines(lv.take(i as int)).map_values(|t: Seq<char>| plain_line(t)) + pv.map_values(|t: Seq<char>| plain_line(t)));
                }
            }
            i = i + 1;
        }
        assert(lv.take(ls.len() as int) =~= lv);
        r
    }

    /// Showing a response.
    pub fn new(response: String) -> (s: AiState)
        ensures
            lines_view(s.lines@) == response_lines(lines_of(response@)).map_values(|t: Seq<char>| plain_line(t)),
            s.scroll == 0,
            !s.is_loading,
            s.query@ == Seq::<char>::empty(),
    {
        let lines = Self::format_response(response.as_str());
        AiState { lines, scroll: 0, is_loading: false, query: String::new() }
    }

    /// Waiting for the answer to `query`.
    pub fn loading(query: String) -> (s: AiState)
        ensures
            lines_view(s.lines@) == seq![plain_line("⏳ AI 처리 중..."@)],
            s.scroll == 0,
            s.is_loading,
            s.query == query,
    {
        let t = chars_of("⏳ AI 처리 중...");
        let mut lines: Vec<LineContent> = Vec::new();
        lines.push(plain_line_of(&t));
        assert(lines_view(lines@) =~= seq![plain_line("⏳ AI 처리 중..."@)]);
        AiState { lines, scroll: 0, is_loading: true, query }
    }

    /// Showing an error.
    pub fn error(error: String) -> (s: AiState)
        ensures
            lines_view(s.lines@) == seq![plain_line("❌ 오류: "@ + error@)],
            s.scroll == 0,
            !s.is_loading,
            s.query@ == Seq::<char>::empty(),
    {
        let mut m = String::from_str("❌ 오류: ");
        push_str(&mut m, error.as_str());
        let t = chars_of(m.as_str());
        let mut lines: Vec<LineContent> = Vec::new();
        lines.push(plain_line_of(&t));
        assert(lines_view(lines@) =~= seq![plain_line("❌ 오류: "@ + error@)]);
        AiState { lines, scroll: 0, is_loading: false, query: String::new() }
    }

    pub fn scroll_up(&mut self)
        ensures
            *final(self) == (AiState { scroll: if old(self).scroll > 0 { (old(self).scroll - 1) as u16 } else { 0 }, ..*old(self) }),
    {
        self.scroll = if self.scroll > 0 { self.scroll - 1 } else { 0 };
    }

    /// One line further while the screen of `max_lines` is not past the end (the line count
    /// taken as a `u16`).
    pub fn scroll_down(&mut self, max_lines: u16)
        requires
            old(self).scroll + max_lines <= u16::MAX,
        ensures
            *final(self) == (AiState {
                scroll: if old(self).scroll + max_lines < (old(self).lines@.len() as u16) {
                    (old(self).scroll + 1) as u16
                } else {
                    old(self).scroll
                },
                ..*old(self)
            }),
    {
        let n = self.lines.len() as u16;
        if self.scroll + max_lines < n {
            self.scroll = self.scroll + 1;
        }
    }

    pub fn page_up(&mut self)
        ensures
            *final(self) == (AiState { scroll: if old(self).scroll > 10 { (old(self).scroll - 10) as u16 } else { 0 }, ..*old(self) }),
    {
        self.scroll = if self.scroll > 10 { self.scroll - 10 } else { 0 };
    }

    /// Ten lines further, but no further than the last screen of `max_lines`.
    pub fn page_down(&mut self, max_lines: u16)
        requires
            old(self).scroll + 10 <= u16::MAX,
        ensures
            *final(self) == (AiState {
                scroll: {
                    let n = old(self).lines@.len() as u16;
                    let last: u16 = if n > max_lines { (n - max_lines) as u16 } else { 0 };
                    if old(self).scroll + 10 < last { (old(self).scroll + 10) as u16 } else { last }
                },
                ..*old(self)
            }),
    {
        let n = self.lines.len() as u16;
        let last: u16 = if n > max_lines { n - max_lines } else { 0 };
        let next = self.scroll + 10;
        self.scroll = if next < last { next } else { last };
    }
}

/// Operations waiting for confirmation, and how far their list is scrolled.
pub struct AiCommandState {
    pub ops: Vec<PlannedOp>,
    pub scroll: u16,
}

impl AiCommandState {
    pub fn new(ops: Vec<PlannedOp>) -> (s: AiCommandState)
        ensures
            s.ops == ops,
            s.scroll == 0,
    {
        AiCommandState { ops, scroll: 0 }
    }

    pub fn scroll_up(&mut self)
        ensures
            *final(self) == (AiCommandState { scroll: if old(self).scroll > 0 { (old(self).scroll - 1) as u16 } else { 0 }, ..*old(self) }),
    {
        self.scroll = if self.scroll > 0 { self.scroll - 1 } else { 0 };
    }

    /// One operation further while a later one exists (and the position fits a `u16`).
    pub fn scroll_down(&mut self)
        ensures
            *final(self) == (AiCommandState {
                scroll: if old(self).scroll < u16::MAX && old(self).scroll + 1 < old(self).ops@.len() {
                    (old(self).scroll + 1) as u16
                } else {
                    old(self).scroll
                },
                ..*old(self)
            }),
    {
        if self.scroll < u16::MAX && (self.scroll as usize) + 1 < self.ops.len() {
            self.scroll = self.scroll + 1;
        }
    }
}

} // verus!
