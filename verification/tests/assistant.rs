use hermes_tail::app::AiTask;
use hermes_tail::tasks::{advice_instruction, ask_prompt, command_prompt, rename_prompt, script_prompt, search_prompt};
use hermes_tail::ai::{completions_url, extract_final_result, reply_response, first_choice_response, summarize_prompt, AiCommandState, AiState};
use hermes_tail::commands::{parse_planned_ops, reply_would_panic, Command, PlanError, PlannedOp};
use hermes_tail::tasks::{
    can_cut, clip, command_reply, duplicates_summary, folder_info, readme_info, readme_key_files, readme_section,
    rename_reply,
};

#[test]
fn completions_endpoint() {
    assert_eq!(completions_url("http://localhost:8080/v1"), "http://localhost:8080/v1/chat/completions");
}

#[test]
fn summary_prompt_text() {
    assert_eq!(
        summarize_prompt("C", "/p"),
        "파일 경로: /p\n\n다음 파일의 내용을 간단하게 요약해줘. 핵심만 2-3줄로 설명해줘.\n\nC"
    );
}

#[test]
fn final_result_is_the_last_plain_paragraph() {
    assert_eq!(extract_final_result("**Plan**\n\n  Answer here \n\n*note*"), "Answer here");
    assert_eq!(extract_final_result("*a*\n\n*b*"), "*b*");
    assert_eq!(extract_final_result(" \n\n \n"), "응답을 받지 못했습니다");
}

#[test]
fn reply_prefers_its_content() {
    assert_eq!(reply_response("x".to_string(), Some("y".to_string())).result, "x");
    assert_eq!(reply_response(String::new(), Some("one\n\ntwo".to_string())).result, "two");
    assert_eq!(reply_response(String::new(), None).result, "응답을 받지 못했습니다");
    assert!(!reply_response(String::new(), None).is_error);
}

#[test]
fn response_lines_keep_blank_lines_and_wrap_long_ones() {
    let s = AiState::new("a\n\nb".to_string());
    let raws: Vec<&str> = s.lines.iter().map(|l| l.raw.as_str()).collect();
    assert_eq!(raws, vec!["a", "", "b"]);
    let long = "word ".repeat(30);
    let w = AiState::new(long.trim_end().to_string());
    assert_eq!(w.lines.len(), 2);
    assert!(w.lines.iter().all(|l| l.raw.chars().count() <= 120));
}

#[test]
fn scrolling_the_answer() {
    let text = (0..30).map(|i| i.to_string()).collect::<Vec<_>>().join("\n");
    let mut s = AiState::new(text);
    assert_eq!(s.lines.len(), 30);
    s.scroll_down(20);
    assert_eq!(s.scroll, 1);
    s.page_down(20);
    assert_eq!(s.scroll, 10);
    s.page_down(20);
    assert_eq!(s.scroll, 10);
    s.page_up();
    assert_eq!(s.scroll, 0);
    s.scroll_up();
    assert_eq!(s.scroll, 0);
}

#[test]
fn command_list_scrolls_within_it() {
    let mut c = AiCommandState::new(vec![PlannedOp::Mkdir { path: "/a".to_string() }, PlannedOp::Mkdir { path: "/b".to_string() }]);
    c.scroll_down();
    c.scroll_down();
    assert_eq!(c.scroll, 1);
    c.scroll_up();
    assert_eq!(c.scroll, 0);
}

#[test]
fn plans_are_read_from_json() {
    let ops = parse_planned_ops(r#"[{"op":"mkdir","path":"/a"},{"op":"move","from":"/b","to":"/c"},{"op":"zap"}]"#).ok().unwrap();
    assert_eq!(ops.len(), 2);
    assert!(matches!(&ops[0], PlannedOp::Mkdir { path } if path == "/a"));
    assert!(matches!(&ops[1], PlannedOp::Move { from, to } if from == "/b" && to == "/c"));
}

#[test]
fn plans_are_read_from_fences_and_prose() {
    let fenced = "```json\n[{\"op\":\"delete\",\"path\":\"/x\"}]\n```";
    assert!(matches!(parse_planned_ops(fenced).ok().unwrap()[0], PlannedOp::Delete { .. }));
    let prose = "Here you go: [{\"op\":\"rename\",\"from\":\"/a\",\"to\":\"b\"}] done.";
    assert!(matches!(&parse_planned_ops(prose).ok().unwrap()[0], PlannedOp::Rename { from, to } if from == "/a" && to == "b"));
}

#[test]
fn plan_errors() {
    assert!(matches!(parse_planned_ops("   "), Err(PlanError::EmptyReply)));
    let e = parse_planned_ops(r#"[{"path":"/a"}]"#).err().unwrap();
    assert_eq!(e.message(), "'op' 필드가 없습니다");
    let e = parse_planned_ops(r#"[{"op":"copy","from":"/a"}]"#).err().unwrap();
    assert_eq!(e.message(), "copy: 'to' 필드 필요");
    let e = parse_planned_ops("not json").err().unwrap();
    assert!(matches!(e, PlanError::InvalidJson(_)));
    assert!(e.message().starts_with("JSON 파싱 실패: "));
    assert_eq!(PlanError::EmptyReply.message(), "AI 응답이 비어있습니다. 서버가 응답을 반환하지 않았을 수 있습니다.");
}

#[test]
fn backwards_brackets_are_flagged() {
    assert!(reply_would_panic("] and ["));
    assert!(!reply_would_panic("[]"));
    assert!(!reply_would_panic(""));
}

#[test]
fn a_reply_to_a_command_becomes_its_operations() {
    assert!(matches!(command_reply(r#"[{"op":"mkdir","path":"/n"}]"#), Command::AiCommandParsed(ref v) if v.len() == 1));
    match command_reply("[]") {
        Command::AiError(m) => assert_eq!(
            m,
            "❌ 명령 해석 실패: AI가 실행할 작업을 찾을 수 없습니다.\n\n현재 폴더의 파일을 확인하고 다시 시도해주세요."
        ),
        other => panic!("unexpected {:?}", other),
    }
    match command_reply(r#"[{"op":"delete"}]"#) {
        Command::AiError(m) => assert_eq!(
            m,
            "❌ 명령 해석 실패\n\nAI가 올바른 작업 목록을 생성하지 못했습니다.\n오류: delete: 'path' 필드 필요"
        ),
        other => panic!("unexpected {:?}", other),
    }
}

#[test]
fn a_reply_to_a_rename_shows_its_start_on_error() {
    let reply = format!("[{{\"op\":\"mkdir\"}}] {}", "z".repeat(120));
    match rename_reply(&reply) {
        Command::AiError(m) => {
            let expected = format!(
                "❌ 이름 변경 실패\n\nAI 응답 파싱 오류:\nmkdir: 'path' 필드 필요\n\nAI 응답: {}...",
                &reply[..100]
            );
            assert_eq!(m, expected);
        },
        other => panic!("unexpected {:?}", other),
    }
    match rename_reply("[]") {
        Command::AiError(m) => assert_eq!(m, "❌ 이름 변경 실패: 변경할 파일을 찾지 못했습니다.\n\n패턴을 다시 입력하고 시도해주세요."),
        other => panic!("unexpected {:?}", other),
    }
}

#[test]
fn clipping_by_bytes() {
    assert_eq!(clip("abcdef", 3, "..."), "abc...");
    assert_eq!(clip("abc", 3, "..."), "abc");
    assert_eq!(clip("가나다", 3, "…"), "가…");
    assert!(can_cut("가나다", 3));
    assert!(!can_cut("가나다", 4));
    assert!(can_cut("ab", 5));
}

#[test]
fn folder_description_lists_twenty_names() {
    let names: Vec<Option<String>> = (0..25).map(|i| if i == 1 { None } else { Some(format!("n{}", i)) }).collect();
    let s = folder_info("/f", Some(names));
    let mut expected = String::from("폴더: /f\n주요 파일/폴더:\n");
    let mut count = 0;
    for i in 0..25 {
        if i == 1 {
            continue;
        }
        if count == 20 {
            expected.push_str("... (더 많은 항목)\n");
            break;
        }
        expected.push_str(&format!("  - n{}\n", i));
        count += 1;
    }
    assert_eq!(s, expected);
    assert_eq!(folder_info("/f", None), "폴더: /f\n");
}

#[test]
fn readme_request_parts() {
    let s = readme_info("/r", Some(vec![("src".to_string(), true), ("Cargo.toml".to_string(), false)]));
    assert_eq!(s, "루트 폴더: /r\n항목 목록:\n  - src (DIR)\n  - Cargo.toml (FILE)\n");
    assert_eq!(readme_info("/r", None), "루트 폴더: /r\n");
    assert_eq!(readme_key_files().len(), 7);
    assert_eq!(readme_key_files()[0], "Cargo.toml");
    assert_eq!(readme_section("go.mod", "module x"), "\n--- go.mod ---\nmodule x\n");
    let long = "a".repeat(2001);
    assert_eq!(readme_section("f", &long), format!("\n--- f ---\n{}...\n", "a".repeat(2000)));
}

#[test]
fn duplicate_summary_text() {
    assert_eq!(duplicates_summary("/d", &vec![]), "✓ 중복 파일이 없습니다.\n경로: /d");
    let groups = vec![vec![("/d/a".to_string(), Some(1536)), ("/d/b".to_string(), None)]];
    assert_eq!(
        duplicates_summary("/d", &groups),
        "경로: /d\n\n발견된 중복 파일 그룹: 1\n\n그룹 1:\n  - /d/a (1.5 K)\n  - /d/b\n\n"
    );
}

#[test]
fn the_first_choice_answers() {
    assert!(first_choice_response(vec![]).is_none());
    let r = first_choice_response(vec![("a".to_string(), None), ("b".to_string(), None)]).unwrap();
    assert_eq!(r.result, "a");
    let r = first_choice_response(vec![(String::new(), Some("why\n\nthis".to_string()))]).unwrap();
    assert_eq!(r.result, "this");
    assert_eq!(r.thinking, Some("why\n\nthis".to_string()));
}

#[test]
fn requests_to_the_assistant_are_worded_exactly() {
    assert_eq!(ask_prompt("do", "this"), "do\n\nthis");
    assert_eq!(
        command_prompt("/w", "a (FILE)", "delete logs"),
        "현재 폴더: /w\n파일 목록:\na (FILE)\n\n다음 명령을 파일 작업 JSON 배열([{\"op\":..}])로 바꿔줘: delete logs"
    );
    assert_eq!(
        rename_prompt("/w", "/w/a", "prefix x_"),
        "현재 폴더: /w\n대상 파일:\n/w/a\n\n다음 패턴으로 이름을 바꾸는 rename 작업 JSON 배열을 만들어줘: prefix x_"
    );
    assert!(search_prompt("big files").ends_with("으로 바꿔줘: big files"));
    assert_eq!(script_prompt("zip"), "다음 파일들에 대해 이 작업을 하는 셸 스크립트를 작성해줘: zip");
    assert_eq!(advice_instruction(&AiTask::OldFiles { path: "/w".to_string() }), "다음 오래된 파일 분석 결과를 보고 정리할 파일을 추천해줘.");
    assert_eq!(advice_instruction(&AiTask::Summarize { path: "/w".to_string() }), "");
}
