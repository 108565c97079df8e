use hermes_tail::fs::archive::{ArchiveError, ArchiveFs};
use hermes_tail::fs::FileEntry;
use hermes_tail::path::{extension, file_name, join, parent, strip_prefix};
use hermes_tail::text::{parse_usize, trim_exec, words_exec};
use hermes_tail::theme::{Color, Theme};
use hermes_tail::viewer::{code_lines_of, format_of, markdown_lines_of, FileFormat, ViewerState};

#[test]
fn path_parts() {
    assert_eq!(parent("/a/b").as_deref(), Some("/a"));
    assert_eq!(parent("/a").as_deref(), Some("/"));
    assert_eq!(parent("/"), None);
    assert_eq!(join("/a", "b"), "/a/b");
    assert_eq!(join("/a/", "b"), "/a/b");
    assert_eq!(join("/a", "/b"), "/b");
    assert_eq!(join("/a", ""), "/a/");
    assert_eq!(file_name("/a/b.txt").as_deref(), Some("b.txt"));
    assert_eq!(file_name("/a/.."), None);
    assert_eq!(extension("x.tar.gz").as_deref(), Some("gz"));
    assert_eq!(extension(".bashrc"), None);
    assert_eq!(strip_prefix("/a/b/c", "/a").as_deref(), Some("b/c"));
    assert_eq!(strip_prefix("/ab/c", "/a"), None);
}

#[test]
fn words_trim_and_numbers() {
    let cs: Vec<char> = "  one\ttwo  three ".chars().collect();
    let w: Vec<String> = words_exec(&cs).iter().map(|v| v.iter().collect()).collect();
    assert_eq!(w, vec!["one", "two", "three"]);
    assert_eq!(trim_exec(&cs).iter().collect::<String>(), "one\ttwo  three");
    let n: Vec<char> = "123".chars().collect();
    assert_eq!(parse_usize(&n), Some(123));
    let bad: Vec<char> = "12a".chars().collect();
    assert_eq!(parse_usize(&bad), None);
    let empty: Vec<char> = vec![];
    assert_eq!(parse_usize(&empty), None);
}

#[test]
fn sizes_in_larger_units() {
    assert_eq!(FileEntry::format_size(1024), "1.0 K");
    assert_eq!(FileEntry::format_size(1536), "1.5 K");
    assert_eq!(FileEntry::format_size(1024 * 1024), "1.0 M");
    assert_eq!(FileEntry::format_size(3 * 1024 * 1024 * 1024), "3.0 G");
    assert_eq!(FileEntry::format_size(5 * 1024u64.pow(4)), "5.0 T");
    assert_eq!(FileEntry::format_size(2048 * 1024u64.pow(4)), "2048.0 T");
    let d = FileEntry { name: "d".to_string(), path: "/d".to_string(), is_dir: true, size: 9, modified: 0, permissions: 0 };
    assert_eq!(d.display_size(), "<DIR>");
}

#[test]
fn themes_by_name() {
    assert!(matches!(Theme::from_name("DARK").active_border, Color::Cyan));
    assert!(matches!(Theme::from_name("dark").statusbar_bg, Color::Rgb(30, 30, 30)));
    assert!(matches!(Theme::from_name("default").active_bg, Color::Blue));
    assert!(matches!(Theme::classic().active_cursor_bg, Color::Yellow));
}

#[test]
fn formats_by_extension() {
    assert!(matches!(format_of("/x/README.MD"), FileFormat::Markdown));
    assert!(matches!(format_of("/x/app.log"), FileFormat::Log));
    assert!(matches!(format_of("/x/main.RS"), FileFormat::Code(ref e) if e == "rs"));
    assert!(matches!(format_of("/x/notes"), FileFormat::Text));
}

#[test]
fn markdown_headings_and_lists() {
    let ls = markdown_lines_of("# Title\n\nsome *text*");
    assert_eq!(ls[0].raw, "# Title");
    assert!(matches!(ls[0].styled[1].0, Color::Magenta));
    assert!(ls.iter().any(|l| l.raw == "some text"));
}

#[test]
fn code_is_highlighted_line_by_line() {
    let ls = code_lines_of("fn main() {}\nlet x = 1;\n", "rs").unwrap();
    assert_eq!(ls.len(), 2);
    assert_eq!(ls[0].raw.trim_end(), "fn main() {}");
    assert!(ls[0].styled.len() > 1);
    let text: String = ls[0].styled.iter().map(|s| s.1.clone()).collect();
    assert_eq!(text, "fn main() {}");
}

#[test]
fn a_log_is_followed_from_its_end() {
    let mut v = ViewerState::new("/x/app.log".to_string(), "l1\nl2\nl3", 8, 100, 2).ok().unwrap();
    assert!(v.is_tail_active);
    assert_eq!(v.scroll, 1);
    assert_eq!(v.last_offset, 8);
    v.append_new_content("l4\nl5", 100);
    assert_eq!(v.lines.len(), 5);
    assert_eq!(v.scroll, 3);
    v.scroll_up();
    v.scroll_up();
    assert_eq!(v.scroll, 1);
    v.page_down(10);
    assert_eq!(v.scroll, 3);
}

#[test]
fn long_lines_are_wrapped() {
    let long = "word ".repeat(40);
    let v = ViewerState::new("/x/a.txt".to_string(), long.trim_end(), 199, 50, 10).ok().unwrap();
    assert!(v.lines.len() > 1);
    assert_eq!(v.scroll, 0);
    assert!(!v.is_tail_active);
    let mut w = v;
    w.toggle_wrap(long.trim_end(), 199, 50).unwrap();
    assert!(!w.wrap);
    assert_eq!(w.lines.len(), 1);
}

fn archive() -> ArchiveFs {
    let e = |name: &str, path: &str, is_dir: bool| FileEntry {
        name: name.to_string(),
        path: path.to_string(),
        is_dir,
        size: 1,
        modified: 0,
        permissions: 0,
    };
    ArchiveFs::new(
        "/t/x.tar".to_string(),
        vec![e("a", "a.txt", false), e("d", "d/", true), e("b", "d/b.txt", false), e("c", "d/e/c.txt", false)],
    )
    .ok()
    .unwrap()
}

#[test]
fn archive_listing_shows_children() {
    let fs = archive();
    let names: Vec<String> = fs.list("/").iter().map(|e| e.name.clone()).collect();
    assert_eq!(names, vec!["a.txt", "d"]);
    let inner: Vec<String> = fs.list("d").iter().map(|e| e.name.clone()).collect();
    assert_eq!(inner, vec!["b.txt", "e"]);
    assert!(fs.is_dir("d/e"));
    assert!(!fs.is_dir("a.txt"));
    assert!(fs.has_path("d/e/c.txt"));
    assert!(!fs.has_path("zz"));
}

#[test]
fn archive_errors() {
    assert!(matches!(ArchiveFs::new("/t/x.rar".to_string(), vec![]), Err(ArchiveError::UnsupportedFormat)));
    let fs = archive();
    let names = vec!["a.txt".to_string(), "d/".to_string(), "d/b.txt".to_string()];
    match fs.extraction_plan(&names, "missing", "/out") {
        Err(e) => assert_eq!(e.message(), "File not found in archive: \"missing\""),
        Ok(_) => panic!("expected an error"),
    }
    let plan = fs.extraction_plan(&names, "d/b.txt", "/out/b.txt").ok().unwrap();
    assert_eq!(plan, vec![(2, "/out/b.txt".to_string())]);
    let plan = fs.extraction_plan(&names, "a.txt", "/out/a.txt").ok().unwrap();
    assert_eq!(plan, vec![(0, "/out/a.txt".to_string())]);
    let plan = fs.extraction_plan(&names, "d", "/out/d").ok().unwrap();
    assert_eq!(plan, vec![(1, "/out/d".to_string()), (2, "/out/d/b.txt".to_string())]);
    assert_eq!(fs.move_entry().err().unwrap().message(), "Moving within archives not supported yet");
    assert_eq!(fs.mkdir().err().unwrap().message(), "Creating directories in archives not supported yet");
}

#[test]
fn notes_are_stamped_with_the_time() {
    let mut s = hermes_tail::config::NotesStore::default();
    s.set_note("/a".to_string(), "m".to_string(), vec![]);
    assert!(s.get_note("/a").unwrap().updated_at > 1_600_000_000);
}

#[test]
fn modification_times_are_shown_to_the_minute() {
    let e = FileEntry { name: "f".to_string(), path: "/f".to_string(), is_dir: false, size: 1, modified: 1_700_000_000, permissions: 0 };
    let t = e.display_modified();
    assert_eq!(t.chars().count(), 16);
    assert_eq!(t.chars().nth(4), Some('-'));
    assert_eq!(t.chars().nth(13), Some(':'));
}

#[test]
fn a_missing_member_is_named_as_a_path() {
    let fs = ArchiveFs::new("/t/x.zip".to_string(), vec![]).ok().unwrap();
    let names = vec!["a.txt".to_string()];
    match fs.extraction_plan(&names, "it's", "/out") {
        Err(e) => assert_eq!(e.message(), format!("File not found in archive: {:?}", std::path::Path::new("it's"))),
        Ok(_) => panic!("expected an error"),
    }
}
