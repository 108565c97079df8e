//! What the assistant's background work decides: the text it sends along, and the command
//! that a reply becomes. Reading files and talking to the assistant are the caller's part.

use vstd::prelude::*;
use vstd::utf8::{encode_utf8, decode_utf8, is_char_boundary};
use vstd::string::StringSliceAdditionalSpecFns;
use crate::commands::{Command, PlanErrorView, parse_planned_ops, planned_ops_of, plan_error_view, plan_error_text, reply_unsliceable, ops_view, plan_result_view};
use crate::report::{concat_all, lemma_concat_push};
use crate::fs::size_text;
use crate::text::{decimal, push_str, push_decimal};
use crate::app::AiTask;

verus! {

/// The length of a text in UTF-8 bytes.
pub open spec fn byte_len(s: Seq<char>) -> nat {
    encode_utf8(s).len()
}

/// The text of the first `n` UTF-8 bytes of `s`.
pub open spec fn utf8_prefix(s: Seq<char>, n: nat) -> Seq<char> {
    decode_utf8(encode_utf8(s).subrange(0, n as int))
}

/// `s` cut after `limit` bytes, with `tail` put after the cut; unchanged when no longer.
pub open spec fn clipped(s: Seq<char>, limit: nat, tail: Seq<char>) -> Seq<char> {
    if byte_len(s) > limit {
        utf8_prefix(s, limit) + tail
    } else {
        s
    }
}

/// `s` can be cut after `limit` bytes: it is no longer, or a character ends there.
pub open spec fn cuttable(s: Seq<char>, limit: nat) -> bool {
    byte_len(s) <= limit || is_char_boundary(encode_utf8(s), limit as int)
}

/// Whether `s` can be cut after `limit` bytes (see `cuttable`).
pub fn can_cut(s: &str, limit: usize) -> (r: bool)
    ensures
        r == cuttable(s@, limit as nat),
{
    let n = s.as_bytes().len();
    n <= limit || s.is_char_boundary(limit)
}

/// `s` cut after `limit` bytes with `tail` after the cut (see `clipped`).
pub fn clip(s: &str, limit: usize, tail: &str) -> (r: String)
    requires
        cuttable(s@, limit as nat),
    ensures
        r@ == clipped(s@, limit as nat, tail@),
{
    let n = s.as_bytes().len();
    if n <= limit {
        return String::from_str(s);
    }
    let (head, _rest) = s.split_at(limit);
    proof {
        vstd::utf8::encode_utf8_decode_utf8(head@);
        assert(head.spec_bytes() == encode_utf8(head@));
        assert(head@ == utf8_prefix(s@, limit as nat));
    }
    let mut r = String::from_str(head);
    push_str(&mut r, tail);
    r
}

/// What the assistant is told of a folder: its path, then (when it could be read) up to 20
/// of its entries' names, noting that there are more. Entries whose names are not text are
/// passed over without counting.
pub open spec fn folder_info_text(path: Seq<char>, names: Option<Seq<Option<Seq<char>>>>) -> Seq<char> {
    "폴더: "@ + path + "\n"@ + match names {
        None => Seq::empty(),
        Some(ns) => "주요 파일/폴더:\n"@ + name_lines(ns, 0),
    }
}

/// The lines for `names`, `count` having been listed already.
pub open spec fn name_lines(names: Seq<Option<Seq<char>>>, count: nat) -> Seq<char>
    decreases names.len(),
{
    if names.len() == 0 {
        Seq::empty()
    } else if count >= 20 {
        "... (더 많은 항목)\n"@
    } else {
        match names[0] {
            Some(n) => "  - "@ + n + "\n"@ + name_lines(names.drop_first(), count + 1),
            None => name_lines(names.drop_first(), count),
        }
    }
}

/// The folder description for the assistant (see `folder_info_text`).
pub fn folder_info(path: &str, names: Option<Vec<Option<String>>>) -> (s: String)
    ensures
        s@ == folder_info_text(path@, match names {
            None => None,
            Some(v) => Some(v@.map_values(|o: Option<String>| match o {
                Some(x) => Some(x@),
                None => None,
            })),
        }),
{
    let mut s = String::from_str("폴더: ");
    push_str(&mut s, path);
    push_str(&mut s, "\n");
    let v = match names {
        None => return s,
        Some(v) => v,
    };
    let ghost nv = v@.map_values(|o: Option<String>| match o {
        Some(x) => Some(x@),
        None => None,
    });
    push_str(&mut s, "주요 파일/폴더:\n");
    let ghost head = s@;
    let mut count: usize = 0;
    let mut i: usize = 0;
    assert(nv.skip(0) =~= nv);
    while i < v.len()
        invariant
            i <= v.len(),
            count <= 20,
            nv == v@.map_values(|o: Option<String>| match o {
                Some(x) => Some(x@),
                None => None,
            }),
            s@ + name_lines(nv.skip(i as int), count as nat) == head + name_lines(nv, 0),
        decreases v.len() - i,
    {
        let ghost before = s@;
        proof {
            assert(nv.skip(i as int).drop_first() =~= nv.skip(i + 1));
            assert(nv.skip(i as int)[0] == nv[i as int]);
        }
        if count >= 20 {
            push_str(&mut s, "... (더 많은 항목)\n");
            proof {
                assert(nv.skip(v.len() as int) =~= Seq::<Option<Seq<char>>>::empty());
                assert(s@ + name_lines(nv.skip(v.len() as int), count as nat) =~= before + name_lines(nv.skip(i as int), count as nat));
            }
            i = v.len();
        } else {
            match &v[i] {
                Some(n) => {
                    push_str(&mut s, "  - ");
                    push_str(&mut s, n.as_str());
                    push_str(&mut s, "\n");
                    proof {
                        assert(s@ + name_lines(nv.skip(i + 1), (count + 1) as nat) =~= before + name_lines(nv.skip(i as int), count as nat));
                    }
                    count = count + 1;
                },
                None => {},
            }
            i = i + 1;
        }
    }
    proof {
        assert(nv.skip(v.len() as int) =~= Seq::<Option<Seq<char>>>::empty());
        assert(s@ =~= head + name_lines(nv, 0));
    }
    s
}

/// One entry line of the folder description for a README.
pub open spec fn readme_entry_line(e: (Seq<char>, bool)) -> Seq<char> {
    "  - "@ + e.0 + " ("@ + (if e.1 { "DIR"@ } else { "FILE"@ }) + ")\n"@
}

/// What the assistant is told of a folder to write a README for: its path, then (when it
/// could be read) its first 30 entries, each with whether it is a folder.
pub open spec fn readme_info_text(path: Seq<char>, entries: Option<Seq<(Seq<char>, bool)>>) -> Seq<char> {
    "루트 폴더: "@ + path + "\n"@ + match entries {
        None => Seq::empty(),
        Some(es) => "항목 목록:\n"@ + concat_all(es.take(if es.len() < 30 { es.len() as int } else { 30 }).map_values(
            |e: (Seq<char>, bool)| readme_entry_line(e),
        )),
    }
}

/// The folder description for a README (see `readme_info_text`).
pub fn readme_info(path: &str, entries: Option<Vec<(String, bool)>>) -> (s: String)
    ensures
        s@ == readme_info_text(path@, match entries {
            None => None,
            Some(v) => Some(v@.map_values(|e: (String, bool)| (e.0@, e.1))),
        }),
{
    let mut s = String::from_str("루트 폴더: ");
    push_str(&mut s, path);
    push_str(&mut s, "\n");
    let v = match entries {
        None => return s,
        Some(v) => v,
    };
    let ghost ev = v@.map_values(|e: (String, bool)| (e.0@, e.1));
    push_str(&mut s, "항목 목록:\n");
    let ghost head = s@;
    let n: usize = if v.len() < 30 { v.len() } else { 30 };
    let mut i: usize = 0;
    while i < n
        invariant
            i <= n,
            n <= v.len(),
            ev == v@.map_values(|e: (String, bool)| (e.0@, e.1)),
            s@ == head + concat_all(ev.take(i as int).map_values(|e: (Seq<char>, bool)| readme_entry_line(e))),
        decreases n - i,
    {
        let ghost before = s@;
        push_str(&mut s, "  - ");
        push_str(&mut s, v[i].0.as_str());
        push_str(&mut s, " (");
        if v[i].1 {
            push_str(&mut s, "DIR");
        } else {
            push_str(&mut s, "FILE");
        }
        push_str(&mut s, ")\n");
        proof {
            let f = |e: (Seq<char>, bool)| readme_entry_line(e);
            assert(ev[i as int] == (v@[i as int].0@, v@[i as int].1));
            assert(ev.take(i + 1).map_values(f) =~= ev.take(i as int).map_values(f).push(readme_entry_line(ev[i as int])));
            lemma_concat_push(ev.take(i as int).map_values(f), readme_entry_line(ev[i as int]));
            assert(s@ =~= head + concat_all(ev.take(i + 1).map_values(f)));
        }
        i = i + 1;
    }
    s
}

/// The files whose contents go along with a README request, in this order.
pub open spec fn readme_key_file_names() -> Seq<Seq<char>> {
    seq!["Cargo.toml"@, "package.json"@, "requirements.txt"@, "go.mod"@, "README.md"@, "src/main.rs"@, "main.py"@]
}

/// The files whose contents go along with a README request (see `readme_key_file_names`).
pub fn readme_key_files() -> (r: Vec<String>)
    ensures
        r@.map_values(|s: String| s@) == readme_key_file_names(),
{
    let mut r: Vec<String> = Vec::new();
    r.push(String::from_str("Cargo.toml"));
    r.push(String::from_str("package.json"));
    r.push(String::from_str("requirements.txt"));
    r.push(String::from_str("go.mod"));
    r.push(String::from_str("README.md"));
    r.push(String::from_str("src/main.rs"));
    r.push(String::from_str("main.py"));
    assert(r@.map_values(|s: String| s@) =~= readme_key_file_names());
    r
}

/// One key file's part of a README request: its name, then its contents cut after 2000 bytes.
pub open spec fn readme_section_text(name: Seq<char>, content: Seq<char>) -> Seq<char> {
    "\n--- "@ + name + " ---\n"@ + clipped(content, 2000, "..."@) + "\n"@
}

/// One key file's part of a README request (see `readme_section_text`).
pub fn readme_section(name: &str, content: &str) -> (s: String)
    requires
        cuttable(content@, 2000),
    ensures
        s@ == readme_section_text(name@, content@),
{
    let mut s = String::from_str("\n--- ");
    push_str(&mut s, name);
    push_str(&mut s, " ---\n");
    let c = clip(content, 2000, "...");
    push_str(&mut s, c.as_str());
    push_str(&mut s, "\n");
    s
}

/// One file of a duplicate group: its path, and its size when known.
pub open spec fn dup_file_line(f: (Seq<char>, Option<u64>)) -> Seq<char> {
    "  - "@ + f.0 + match f.1 {
        Some(n) => " ("@ + size_text(n as nat) + ")"@,
        None => Seq::empty(),
    } + "\n"@
}

/// One duplicate group, numbered `k`.
pub open spec fn dup_group_text(k: nat, g: Seq<(Seq<char>, Option<u64>)>) -> Seq<char> {
    "그룹 "@ + decimal(k) + ":\n"@ + concat_all(g.map_values(|f: (Seq<char>, Option<u64>)| dup_file_line(f))) + "\n"@
}

/// The duplicate groups from the `from`-th on, numbered from `from + 1`.
pub open spec fn dup_groups_text(groups: Seq<Seq<(Seq<char>, Option<u64>)>>, from: int) -> Seq<char>
    decreases groups.len() - from,
{
    if from < 0 || from >= groups.len() {
        Seq::empty()
    } else {
        dup_group_text((from + 1) as nat, groups[from]) + dup_groups_text(groups, from + 1)
    }
}

/// The summary of the duplicates found below `root`: a note that there are none, or the
/// number of groups and each group's files with their sizes.
pub open spec fn dup_summary_text(root: Seq<char>, groups: Seq<Seq<(Seq<char>, Option<u64>)>>) -> Seq<char> {
    if groups.len() == 0 {
        "✓ 중복 파일이 없습니다.\n경로: "@ + root
    } else {
        "경로: "@ + root + "\n\n발견된 중복 파일 그룹: "@ + decimal(groups.len()) + "\n\n"@ + dup_groups_text(groups, 0)
    }
}

pub open spec fn dup_groups_view(groups: Seq<Vec<(String, Option<u64>)>>) -> Seq<Seq<(Seq<char>, Option<u64>)>> {
    groups.map_values(|g: Vec<(String, Option<u64>)>| g@.map_values(|f: (String, Option<u64>)| (f.0@, f.1)))
}

proof fn lemma_dup_groups_split(groups: Seq<Seq<(Seq<char>, Option<u64>)>>, from: int, upto: int)
    requires
        0 <= from <= upto < groups.len(),
    ensures
        dup_groups_text(groups.take(upto + 1), from) == dup_groups_text(groups.take(upto), from)
            + dup_group_text((upto + 1) as nat, groups[upto]),
    decreases upto - from,
{
    if from < upto {
        lemma_dup_groups_split(groups, from + 1, upto);
        assert(groups.take(upto + 1)[from] == groups.take(upto)[from]);
    } else {
        assert(dup_groups_text(groups.take(upto), from) == Seq::<char>::empty());
        assert(dup_groups_text(groups.take(upto + 1), from + 1) == Seq::<char>::empty());
    }
}

fn push_group(s: &mut String, k: usize, g: &Vec<(String, Option<u64>)>)
    ensures
        final(s)@ == old(s)@ + dup_group_text(k as nat, g@.map_values(|f: (String, Option<u64>)| (f.0@, f.1))),
{
    let ghost gv = g@.map_values(|f: (String, Option<u64>)| (f.0@, f.1));
    let ghost start = s@;
    push_str(s, "그룹 ");
    push_decimal(s, k as u64);
    push_str(s, ":\n");
    let ghost head = s@;
    let mut j: usize = 0;
    while j < g.len()
        invariant
            j <= g.len(),
            gv == g@.map_values(|f: (String, Option<u64>)| (f.0@, f.1)),
            s@ == head + concat_all(gv.take(j as int).map_values(|f: (Seq<char>, Option<u64>)| dup_file_line(f))),
        decreases g.len() - j,
    {
        push_str(s, "  - ");
        push_str(s, g[j].0.as_str());
        match g[j].1 {
            Some(n) => {
                push_str(s, " (");
                let t = crate::fs::FileEntry::format_size(n);
                push_str(s, t.as_str());
                push_str(s, ")");
            },
            None => {},
        }
        push_str(s, "\n");
        proof {
            let f = |f: (Seq<char>, Option<u64>)| dup_file_line(f);
            assert(gv[j as int] == (g@[j as int].0@, g@[j as int].1));
            assert(gv.take(j + 1).map_values(f) =~= gv.take(j as int).map_values(f).push(dup_file_line(gv[j as int])));
            lemma_concat_push(gv.take(j as int).map_values(f), dup_file_line(gv[j as int]));
            assert(s@ =~= head + concat_all(gv.take(j + 1).map_values(f)));
        }
        j = j + 1;
    }
    push_str(s, "\n");
    proof {
        assert(gv.take(g.len() as int) =~= gv);
        assert(s@ =~= start + dup_group_text(k as nat, gv));
    }
}

/// The summary of the duplicates found below `root` (see `dup_summary_text`); each group
/// lists its files' paths with their sizes when they could be read.
pub fn duplicates_summary(root: &str, groups: &Vec<Vec<(String, Option<u64>)>>) -> (s: String)
    ensures
        s@ == dup_summary_text(root@, dup_groups_view(groups@)),
{
    let ghost gv = dup_groups_view(groups@);
    if groups.len() == 0 {
        let mut s = String::from_str("✓ 중복 파일이 없습니다.\n경로: ");
        push_str(&mut s, root);
        return s;
    }
    let mut s = String::from_str("경로: ");
    push_str(&mut s, root);
    push_str(&mut s, "\n\n발견된 중복 파일 그룹: ");
    push_decimal(&mut s, groups.len() as u64);
    push_str(&mut s, "\n\n");
    let ghost head = s@;
    let mut i: usize = 0;
    assert(dup_groups_text(gv.take(0), 0) == Seq::<char>::empty());
    while i < groups.len()
        invariant
            i <= groups.len(),
            gv == dup_groups_view(groups@),
            s@ == head + dup_groups_text(gv.take(i as int), 0),
        decreases groups.len() - i,
    {
        push_group(&mut s, i + 1, &groups[i]);
        proof {
            lemma_dup_groups_split(gv, 0, i as int);
            assert(gv[i as int] == groups@[i as int]@.map_values(|f: (String, Option<u64>)| (f.0@, f.1)));
            assert(s@ =~= head + dup_groups_text(gv.take(i + 1), 0));
        }
        i = i + 1;
    }
    assert(gv.take(groups.len() as int) =~= gv);
    s
}

/// The message when the assistant planned no operation for a command.
pub open spec fn no_ops_for_command() -> Seq<char> {
    "❌ 명령 해석 실패: AI가 실행할 작업을 찾을 수 없습니다.\n\n현재 폴더의 파일을 확인하고 다시 시도해주세요."@
}

/// The message when the assistant's plan for a command could not be read.
pub open spec fn command_plan_error(e: PlanErrorView) -> Seq<char> {
    "❌ 명령 해석 실패\n\nAI가 올바른 작업 목록을 생성하지 못했습니다.\n오류: "@ + plan_error_text(e)
}

/// What the assistant's reply to a command becomes: the planned operations, waiting for
/// confirmation, or an error when there are none or they cannot be read.
pub fn command_reply(reply: &str) -> (c: Command)
    requires
        !reply_unsliceable(reply@),
    ensures
        match planned_ops_of(reply@) {
            Ok(ops) => if ops.len() > 0 {
                c matches Command::AiCommandParsed(v) && ops_view(v@) == ops
            } else {
                c matches Command::AiError(m) && m@ == no_ops_for_command()
            },
            Err(e) => c matches Command::AiError(m) && m@ == command_plan_error(e),
        },
{
    let r = parse_planned_ops(reply);
    match r {
        Ok(ops) => {
            assert(plan_result_view(Ok(ops)) == Ok::<Seq<crate::commands::OpView>, PlanErrorView>(ops_view(ops@)));
            if ops.len() > 0 {
                Command::AiCommandParsed(ops)
            } else {
                Command::AiError(String::from_str("❌ 명령 해석 실패: AI가 실행할 작업을 찾을 수 없습니다.\n\n현재 폴더의 파일을 확인하고 다시 시도해주세요."))
            }
        },
        Err(e) => {
            let mut m = String::from_str("❌ 명령 해석 실패\n\nAI가 올바른 작업 목록을 생성하지 못했습니다.\n오류: ");
            let t = e.message();
            push_str(&mut m, t.as_str());
            Command::AiError(m)
        },
    }
}

/// The message when the assistant planned no rename.
pub open spec fn no_renames() -> Seq<char> {
    "❌ 이름 변경 실패: 변경할 파일을 찾지 못했습니다.\n\n패턴을 다시 입력하고 시도해주세요."@
}

/// The message when the assistant's renames could not be read: the error, then the reply's
/// first 100 bytes.
pub open spec fn rename_plan_error(e: PlanErrorView, reply: Seq<char>) -> Seq<char> {
    "❌ 이름 변경 실패\n\nAI 응답 파싱 오류:\n"@ + plan_error_text(e) + "\n\nAI 응답: "@ + clipped(reply, 100, "..."@)
}

/// What the assistant's reply to a batch rename becomes: the planned renames, waiting for
/// confirmation, or an error when there are none or they cannot be read.
pub fn rename_reply(reply: &str) -> (c: Command)
    requires
        !reply_unsliceable(reply@),
        cuttable(reply@, 100),
    ensures
        match planned_ops_of(reply@) {
            Ok(ops) => if ops.len() > 0 {
                c matches Command::AiCommandParsed(v) && ops_view(v@) == ops
            } else {
                c matches Command::AiError(m) && m@ == no_renames()
            },
            Err(e) => c matches Command::AiError(m) && m@ == rename_plan_error(e, reply@),
        },
{
    let r = parse_planned_ops(reply);
    match r {
        Ok(ops) => {
            assert(plan_result_view(Ok(ops)) == Ok::<Seq<crate::commands::OpView>, PlanErrorView>(ops_view(ops@)));
            if ops.len() > 0 {
                Command::AiCommandParsed(ops)
            } else {
                Command::AiError(String::from_str("❌ 이름 변경 실패: 변경할 파일을 찾지 못했습니다.\n\n패턴을 다시 입력하고 시도해주세요."))
            }
        },
        Err(e) => {
            let mut m = String::from_str("❌ 이름 변경 실패\n\nAI 응답 파싱 오류:\n");
            let t = e.message();
            push_str(&mut m, t.as_str());
            push_str(&mut m, "\n\nAI 응답: ");
            let p = clip(reply, 100, "...");
            push_str(&mut m, p.as_str());
            Command::AiError(m)
        },
    }
}

/// A question to the assistant: the instruction, a blank line, then the material.
pub open spec fn ask_prompt_text(instruction: Seq<char>, material: Seq<char>) -> Seq<char> {
    instruction + "\n\n"@ + material
}

/// The question to the assistant (see `ask_prompt_text`).
pub fn ask_prompt(instruction: &str, material: &str) -> (s: String)
    ensures
        s@ == ask_prompt_text(instruction@, material@),
{
    let mut s = String::from_str(instruction);
    push_str(&mut s, "\n\n");
    push_str(&mut s, material);
    s
}

/// The instruction asking about an image file's metadata.
pub open spec fn image_prompt_text(path: Seq<char>) -> Seq<char> {
    "이미지 파일: "@ + path + "\n\n다음 이미지 파일의 메타 정보를 분석해줘."@
}

/// The instruction asking about an image file's metadata (see `image_prompt_text`).
pub fn image_prompt(path: &str) -> (s: String)
    ensures
        s@ == image_prompt_text(path@),
{
    let mut s = String::from_str("이미지 파일: ");
    push_str(&mut s, path);
    push_str(&mut s, "\n\n다음 이미지 파일의 메타 정보를 분석해줘.");
    s
}

/// The instruction asking for a README from a folder's description.
pub open spec fn readme_prompt_text(info: Seq<char>) -> Seq<char> {
    "다음 폴더 정보를 바탕으로 README.md를 작성해줘.\n\n"@ + info
}

/// The instruction asking for a README (see `readme_prompt_text`).
pub fn readme_prompt(info: &str) -> (s: String)
    ensures
        s@ == readme_prompt_text(info@),
{
    let mut s = String::from_str("다음 폴더 정보를 바탕으로 README.md를 작성해줘.\n\n");
    push_str(&mut s, info);
    s
}

/// The request turning a command in natural language into file operations, with the
/// folder it is given in and that folder's listing.
pub open spec fn command_prompt_text(current_dir: Seq<char>, listing: Seq<char>, command: Seq<char>) -> Seq<char> {
    "현재 폴더: "@ + current_dir + "\n파일 목록:\n"@ + listing
        + "\n\n다음 명령을 파일 작업 JSON 배열([{\"op\":..}])로 바꿔줘: "@ + command
}

/// The request for a command's file operations (see `command_prompt_text`).
pub fn command_prompt(current_dir: &str, listing: &str, command: &str) -> (s: String)
    ensures
        s@ == command_prompt_text(current_dir@, listing@, command@),
{
    let mut s = String::from_str("현재 폴더: ");
    push_str(&mut s, current_dir);
    push_str(&mut s, "\n파일 목록:\n");
    push_str(&mut s, listing);
    push_str(&mut s, "\n\n다음 명령을 파일 작업 JSON 배열([{\"op\":..}])로 바꿔줘: ");
    push_str(&mut s, command);
    s
}

/// The request for the renames a pattern asks of the listed files.
pub open spec fn rename_prompt_text(current_dir: Seq<char>, listing: Seq<char>, pattern: Seq<char>) -> Seq<char> {
    "현재 폴더: "@ + current_dir + "\n대상 파일:\n"@ + listing
        + "\n\n다음 패턴으로 이름을 바꾸는 rename 작업 JSON 배열을 만들어줘: "@ + pattern
}

/// The request for a pattern's renames (see `rename_prompt_text`).
pub fn rename_prompt(current_dir: &str, listing: &str, pattern: &str) -> (s: String)
    ensures
        s@ == rename_prompt_text(current_dir@, listing@, pattern@),
{
    let mut s = String::from_str("현재 폴더: ");
    push_str(&mut s, current_dir);
    push_str(&mut s, "\n대상 파일:\n");
    push_str(&mut s, listing);
    push_str(&mut s, "\n\n다음 패턴으로 이름을 바꾸는 rename 작업 JSON 배열을 만들어줘: ");
    push_str(&mut s, pattern);
    s
}

/// The request turning a search in natural language into search criteria.
pub open spec fn search_prompt_text(query: Seq<char>) -> Seq<char> {
    "다음 검색 요청을 JSON 검색 조건(pattern, extension, min_size, max_size, modified_after, modified_before)으로 바꿔줘: "@
        + query
}

/// The request for a search's criteria (see `search_prompt_text`).
pub fn search_prompt(query: &str) -> (s: String)
    ensures
        s@ == search_prompt_text(query@),
{
    let mut s = String::from_str(
        "다음 검색 요청을 JSON 검색 조건(pattern, extension, min_size, max_size, modified_after, modified_before)으로 바꿔줘: ",
    );
    push_str(&mut s, query);
    s
}

/// The instruction asking for a shell script that does `instruction` to the listed files.
pub open spec fn script_prompt_text(instruction: Seq<char>) -> Seq<char> {
    "다음 파일들에 대해 이 작업을 하는 셸 스크립트를 작성해줘: "@ + instruction
}

/// The instruction asking for a shell script (see `script_prompt_text`).
pub fn script_prompt(instruction: &str) -> (s: String)
    ensures
        s@ == script_prompt_text(instruction@),
{
    let mut s = String::from_str("다음 파일들에 대해 이 작업을 하는 셸 스크립트를 작성해줘: ");
    push_str(&mut s, instruction);
    s
}

/// What the assistant is asked to advise on a folder analysis's report; nothing for the
/// other tasks.
pub open spec fn advice_text(task: AiTask) -> Seq<char> {
    match task {
        AiTask::FindDuplicates { .. } => "다음 중복 파일 목록을 보고 정리 방법을 조언해줘."@,
        AiTask::OldFiles { .. } => "다음 오래된 파일 분석 결과를 보고 정리할 파일을 추천해줘."@,
        AiTask::FileClassify { .. } => "다음 파일 분류 결과를 보고 폴더 정리 방법을 제안해줘."@,
        AiTask::StorageOptimize { .. } => "다음 저장소 사용 현황을 보고 공간 최적화 방법을 제안해줘."@,
        AiTask::GitHistory { .. } => "다음 Git 이력을 분석해서 프로젝트 활동을 요약해줘."@,
        AiTask::FolderSync { .. } => "다음 두 폴더의 차이를 분석해서 동기화 방법을 제안해줘."@,
        _ => ""@,
    }
}

/// What the assistant is asked to advise on a report (see `advice_text`).
pub fn advice_instruction(task: &AiTask) -> (s: &'static str)
    ensures
        s@ == advice_text(*task),
{
    match task {
        AiTask::FindDuplicates { .. } => "다음 중복 파일 목록을 보고 정리 방법을 조언해줘.",
        AiTask::OldFiles { .. } => "다음 오래된 파일 분석 결과를 보고 정리할 파일을 추천해줘.",
        AiTask::FileClassify { .. } => "다음 파일 분류 결과를 보고 폴더 정리 방법을 제안해줘.",
        AiTask::StorageOptimize { .. } => "다음 저장소 사용 현황을 보고 공간 최적화 방법을 제안해줘.",
        AiTask::GitHistory { .. } => "다음 Git 이력을 분석해서 프로젝트 활동을 요약해줘.",
        AiTask::FolderSync { .. } => "다음 두 폴더의 차이를 분석해서 동기화 방법을 제안해줘.",
        _ => "",
    }
}

} // verus!
