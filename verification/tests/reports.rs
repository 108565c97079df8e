use hermes_tail::ops::archive::{archive_format, pack_files, ArchiveFormat, PackError, PackSource};
use hermes_tail::ops::classify::{classify_files, get_file_type, FileType};
use hermes_tail::ops::cleanup::{analyze_old_files, format_report as cleanup_text};
use hermes_tail::ops::duplicate::{compute_file_hash, duplicate_candidates, find_duplicates};
use hermes_tail::ops::git_history::{
    analyze_git_history, format_report as git_text, parse_authors, parse_commits, parse_hot_files, CommitInfo,
    GitError, GitOutputs, GitReport,
};
use hermes_tail::ops::search::{find_files, FoundEntry};
use hermes_tail::ops::storage::analyze_storage;

#[test]
fn commits_are_read_from_log_lines() {
    let out = "abc1234|2024-01-01|Alice|Init\nnot a commit\ndef5678|2024-01-02|Bob|Fix|more";
    let c = parse_commits(out);
    assert_eq!(c.len(), 2);
    assert_eq!(c[0].hash, "abc1234");
    assert_eq!(c[0].date, "2024-01-01");
    assert_eq!(c[0].author, "Alice");
    assert_eq!(c[0].message, "Init");
    assert_eq!(c[1].message, "Fix");
}

#[test]
fn authors_are_read_from_shortlog() {
    let out = "    10\tAlice Smith\n     5\tBob\n  x\tNobody\n";
    let a = parse_authors(out);
    assert_eq!(a, vec![("Alice Smith".to_string(), 10), ("Bob".to_string(), 5)]);
}

#[test]
fn only_the_first_ten_shortlog_lines_count() {
    let mut out = String::new();
    for i in 0..12 {
        out.push_str(&format!("{}\tA{}\n", 20 - i, i));
    }
    assert_eq!(parse_authors(&out).len(), 10);
}

#[test]
fn hot_files_are_counted_and_ranked() {
    let out = "a.rs\nb.rs\n\na.rs\n  c.rs  \n\nb.rs\na.rs\n";
    let h = parse_hot_files(out);
    assert_eq!(h, vec![("a.rs".to_string(), 3), ("b.rs".to_string(), 2), ("c.rs".to_string(), 1)]);
}

fn outputs() -> GitOutputs {
    GitOutputs {
        branch: Some("main\n".to_string()),
        commit_count: Some("42\n".to_string()),
        last_commit_date: Some("2024-05-01\n".to_string()),
        log: Some("h1|2024-05-01|Ann|Add".to_string()),
        shortlog: Some("  3\tAnn\n".to_string()),
        changed_files: Some("x.rs\nx.rs\n".to_string()),
    }
}

#[test]
fn git_history_needs_the_commit_count() {
    let mut o = outputs();
    o.commit_count = None;
    assert!(matches!(analyze_git_history("/r".to_string(), o), Err(GitError::CommandFailed)));
    assert_eq!(GitError::CommandFailed.message(), "Git command failed");
}

#[test]
fn git_history_falls_back_for_branch_and_date() {
    let mut o = outputs();
    o.branch = None;
    o.last_commit_date = None;
    o.commit_count = Some("many".to_string());
    let r = analyze_git_history("/r".to_string(), o).ok().unwrap();
    assert_eq!(r.branch, "unknown");
    assert_eq!(r.last_commit_date, "unknown");
    assert_eq!(r.total_commits, 0);
}

#[test]
fn git_report_text() {
    let r = analyze_git_history("/r".to_string(), outputs()).ok().unwrap();
    assert_eq!(r.branch, "main");
    assert_eq!(r.total_commits, 42);
    assert_eq!(
        git_text(&r),
        "경로: /r\n브랜치: main\n총 커밋: 42\n마지막 커밋: 2024-05-01\n\n\
         ■ 최근 커밋 (20개)\n  h1 (2024-05-01): Ann - Add\n\n\
         ■ 주요 기여자\n  Ann: 3 커밋\n\n\
         ■ 자주 변경된 파일 (Top 10)\n  x.rs (2 번)\n"
    );
}

#[test]
fn empty_git_report_text() {
    let r = GitReport {
        root: "/r".to_string(),
        branch: "dev".to_string(),
        total_commits: 0,
        last_commit_date: "unknown".to_string(),
        recent_commits: Vec::<CommitInfo>::new(),
        top_authors: vec![],
        hot_files: vec![],
    };
    assert_eq!(git_text(&r), "경로: /r\n브랜치: dev\n총 커밋: 0\n마지막 커밋: unknown\n\n");
}

#[test]
fn file_types_by_extension() {
    assert!(matches!(get_file_type("JPG"), FileType::Image));
    assert!(matches!(get_file_type("rs"), FileType::Code));
    assert!(matches!(get_file_type("zip"), FileType::Archive));
    assert!(matches!(get_file_type("json"), FileType::Data));
    assert!(matches!(get_file_type("mp3"), FileType::Audio));
    assert!(matches!(get_file_type("xyz"), FileType::Other));
}

#[test]
fn classification_groups_files_by_kind() {
    let files = vec![
        ("/p/a.rs".to_string(), 10),
        ("/p/b.png".to_string(), 5),
        ("/p/c.RS".to_string(), 1),
        ("/p/README".to_string(), 2),
    ];
    let r = classify_files("/p".to_string(), files);
    assert_eq!(r.total_files, 4);
    assert_eq!(r.total_size, 18);
    let code = r.groups.iter().find(|g| matches!(g.file_type, FileType::Code)).unwrap();
    assert_eq!(code.count, 2);
    assert_eq!(code.total_size, 11);
    let total: usize = r.groups.iter().map(|g| g.count).sum();
    assert_eq!(total, 4);
}

#[test]
fn old_files_fall_into_age_bands() {
    let day = 86_400;
    let files = vec![
        ("/o/new".to_string(), 1, Some(3 * day)),
        ("/o/month".to_string(), 2, Some(45 * day)),
        ("/o/season".to_string(), 4, Some(200 * day)),
        ("/o/ancient".to_string(), 8, Some(400 * day)),
        ("/o/unknown".to_string(), 16, None),
    ];
    let r = analyze_old_files("/o".to_string(), files);
    assert_eq!(r.total_files, 5);
    assert_eq!(r.total_size, 31);
    let counts: Vec<usize> = r.groups.iter().map(|g| g.file_count).collect();
    assert_eq!(counts, vec![1, 1, 1, 1]);
    assert_eq!(r.groups[3].label, "365일 이상 (정리 대상)");
    assert_eq!(r.groups[3].files[0].0, "/o/ancient");
}

#[test]
fn cleanup_text_skips_empty_groups() {
    let r = analyze_old_files("/o".to_string(), vec![("/o/f".to_string(), 10, Some(0))]);
    assert_eq!(
        cleanup_text(&r),
        "경로: /o\n총 파일: 1\n전체 크기: 10 B\n\n■ 30일 이내 (1 파일, 10 B)\n  - /o/f (10 B)\n\n"
    );
}

#[test]
fn storage_totals_and_largest() {
    let files = vec![("/s/a".to_string(), 100), ("/s/b".to_string(), 300), ("/s/c".to_string(), 200)];
    let subdirs = vec![("/s/x".to_string(), vec![1, 2]), ("/s/y".to_string(), vec![50])];
    let r = analyze_storage("/s".to_string(), files, 2, subdirs);
    assert_eq!(r.total_size, 600);
    assert_eq!(r.total_files, 3);
    assert_eq!(r.total_dirs, 2);
    assert_eq!(r.large_files[0].path, "/s/b");
    assert_eq!(r.top_dirs[0].path, "/s/y");
    assert_eq!(r.top_dirs[0].size, 50);
}

#[test]
fn sha256_digest_of_contents() {
    let d = compute_file_hash(b"abc");
    let hex: String = d.iter().map(|b| format!("{:02x}", b)).collect();
    assert_eq!(hex, "ba7816bf8f01cfea414140de5dae2223b00361a396177a9cb410ff61f20015ad");
}

#[test]
fn duplicate_candidates_share_a_size() {
    let files = vec![("/a".to_string(), 1), ("/b".to_string(), 2), ("/c".to_string(), 1)];
    assert_eq!(duplicate_candidates(&files), vec!["/a".to_string(), "/c".to_string()]);
}

#[test]
fn duplicates_are_grouped_by_digest() {
    let hashed = vec![
        ("/z".to_string(), Some(vec![1u8])),
        ("/a".to_string(), Some(vec![1u8])),
        ("/m".to_string(), Some(vec![2u8])),
        ("/u".to_string(), None),
        ("/b".to_string(), Some(vec![2u8])),
        ("/q".to_string(), Some(vec![3u8])),
    ];
    let g = find_duplicates(hashed);
    assert_eq!(g, vec![vec!["/a".to_string(), "/z".to_string()], vec!["/b".to_string(), "/m".to_string()]]);
}

#[test]
fn archive_formats_by_extension() {
    assert!(matches!(archive_format("x.ZIP").1, Some(ArchiveFormat::Zip)));
    assert!(matches!(archive_format("x.tgz").1, Some(ArchiveFormat::TarGz)));
    assert!(matches!(archive_format("x.gz").1, Some(ArchiveFormat::TarGz)));
    assert!(matches!(archive_format("x.tar").1, Some(ArchiveFormat::Tar)));
    assert!(archive_format("x.rar").1.is_none());
}

#[test]
fn packing_into_an_unknown_format_fails() {
    let srcs = vec![PackSource { path: "/p/a.txt".to_string(), is_dir: false, walked: vec![] }];
    match pack_files(&srcs, "/out/a.rar") {
        Err(PackError::UnsupportedFormat(e)) => assert_eq!(e, "rar"),
        _ => panic!("expected an unsupported format"),
    }
}

#[test]
fn packing_a_file_names_it_by_its_file_name() {
    let srcs = vec![PackSource { path: "/p/a.txt".to_string(), is_dir: false, walked: vec![] }];
    let plan = pack_files(&srcs, "/out/a.zip").ok().unwrap();
    assert!(matches!(plan.format, ArchiveFormat::Zip));
    assert_eq!(plan.entries.len(), 1);
    assert_eq!(plan.entries[0].name, "a.txt");
    assert_eq!(plan.entries[0].source, "/p/a.txt");
}

#[test]
fn finding_by_name_ignores_case() {
    let found = vec![
        FoundEntry { path: "/r/Report.TXT".to_string(), meta: Some((false, 5, 0)) },
        FoundEntry { path: "/r/other".to_string(), meta: Some((false, 5, 0)) },
        FoundEntry { path: "/r/sub".to_string(), meta: Some((true, 4096, 0)) },
    ];
    let r = find_files(&found, "report");
    assert_eq!(r.len(), 1);
    assert_eq!(r[0].name, "Report.TXT");
    assert_eq!(r[0].size, 5);
    let d = find_files(&found, "SUB");
    assert_eq!(d.len(), 1);
    assert!(d[0].is_dir);
    assert_eq!(d[0].size, 0);
}
