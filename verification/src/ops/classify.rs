//! Grouping files by the kind their extension names.

use vstd::prelude::*;
use crate::text::{to_lower, lowercase, chars_of, push_str};
use crate::path::{extension, extension_of, file_name, file_name_of};
use crate::report::{concat_all, lemma_concat_push, count_text, push_count};
use crate::fs::{size_text, FileEntry};

verus! {

#[derive(Debug, Clone, Copy, PartialEq, Eq, Structural)]
pub enum FileType {
    Image,
    Video,
    Audio,
    Document,
    Code,
    Archive,
    Data,
    Other,
}

pub open spec fn image_exts() -> Seq<Seq<char>> {
    seq!["jpg"@, "jpeg"@, "png"@, "gif"@, "bmp"@, "webp"@, "svg"@, "tiff"@, "ico"@, "heic"@]
}

pub open spec fn video_exts() -> Seq<Seq<char>> {
    seq!["mp4"@, "mkv"@, "avi"@, "mov"@, "flv"@, "wmv"@, "webm"@, "m4v"@, "mpg"@, "mpeg"@]
}

pub open spec fn audio_exts() -> Seq<Seq<char>> {
    seq!["mp3"@, "flac"@, "wav"@, "ogg"@, "aac"@, "wma"@, "m4a"@, "opus"@, "aiff"@]
}

pub open spec fn document_exts() -> Seq<Seq<char>> {
    seq!["pdf"@, "doc"@, "docx"@, "ppt"@, "pptx"@, "xls"@, "xlsx"@, "txt"@, "md"@, "rst"@, "pages"@]
}

pub open spec fn code_exts() -> Seq<Seq<char>> {
    seq!["rs"@, "py"@, "js"@, "ts"@, "jsx"@, "tsx"@, "go"@, "c"@, "cpp"@, "h"@, "java"@, "rb"@, "php"@, "swift"@, "kt"@]
}

pub open spec fn archive_exts() -> Seq<Seq<char>> {
    seq!["zip"@, "tar"@, "gz"@, "bz2"@, "rar"@, "7z"@, "xz"@, "zst"@]
}

pub open spec fn data_exts() -> Seq<Seq<char>> {
    seq!["json"@, "yaml"@, "yml"@, "toml"@, "csv"@, "xml"@, "sql"@, "db"@, "sqlite"@]
}

/// The kind a lowercase extension names; the first list that holds it wins.
pub open spec fn type_of_ext(e: Seq<char>) -> FileType {
    if image_exts().contains(e) {
        FileType::Image
    } else if video_exts().contains(e) {
        FileType::Video
    } else if audio_exts().contains(e) {
        FileType::Audio
    } else if document_exts().contains(e) {
        FileType::Document
    } else if code_exts().contains(e) {
        FileType::Code
    } else if archive_exts().contains(e) {
        FileType::Archive
    } else if data_exts().contains(e) {
        FileType::Data
    } else {
        FileType::Other
    }
}

fn in_list(e: &String, list: &[&str]) -> (r: bool)
    ensures
        r == list@.map_values(|s: &str| s@).contains(e@),
{
    let mut i: usize = 0;
    while i < list.len()
        invariant
            i <= list.len(),
            forall|k: int| 0 <= k < i ==> list@[k]@ != e@,
        decreases list.len() - i,
    {
        if e.eq(&String::from_str(list[i])) {
            assert(list@.map_values(|s: &str| s@)[i as int] == e@);
            return true;
        }
        i = i + 1;
    }
    proof {
        let m = list@.map_values(|s: &str| s@);
        if m.contains(e@) {
            let k = choose|k: int| 0 <= k < m.len() && #[trigger] m[k] == e@;
            assert(list@[k]@ == e@);
        }
    }
    false
}

/// The kind of file an extension names, ignoring case.
pub fn get_file_type(ext: &str) -> (t: FileType)
    ensures
        t == type_of_ext(lowercase(ext@)),
{
    let e = to_lower(ext);
    let images: [&str; 10] = ["jpg", "jpeg", "png", "gif", "bmp", "webp", "svg", "tiff", "ico", "heic"];
    let videos: [&str; 10] = ["mp4", "mkv", "avi", "mov", "flv", "wmv", "webm", "m4v", "mpg", "mpeg"];
    let audios: [&str; 9] = ["mp3", "flac", "wav", "ogg", "aac", "wma", "m4a", "opus", "aiff"];
    let documents: [&str; 11] = ["pdf", "doc", "docx", "ppt", "pptx", "xls", "xlsx", "txt", "md", "rst", "pages"];
    let codes: [&str; 15] = ["rs", "py", "js", "ts", "jsx", "tsx", "go", "c", "cpp", "h", "java", "rb", "php", "swift", "kt"];
    let archives: [&str; 8] = ["zip", "tar", "gz", "bz2", "rar", "7z", "xz", "zst"];
    let data: [&str; 9] = ["json", "yaml", "yml", "toml", "csv", "xml", "sql", "db", "sqlite"];
    assert(images@.map_values(|s: &str| s@) =~= image_exts());
    assert(videos@.map_values(|s: &str| s@) =~= video_exts());
    assert(audios@.map_values(|s: &str| s@) =~= audio_exts());
    assert(documents@.map_values(|s: &str| s@) =~= document_exts());
    assert(codes@.map_values(|s: &str| s@) =~= code_exts());
    assert(archives@.map_values(|s: &str| s@) =~= archive_exts());
    assert(data@.map_values(|s: &str| s@) =~= data_exts());
    if in_list(&e, &images) {
        FileType::Image
    } else if in_list(&e, &videos) {
        FileType::Video
    } else if in_list(&e, &audios) {
        FileType::Audio
    } else if in_list(&e, &documents) {
        FileType::Document
    } else if in_list(&e, &codes) {
        FileType::Code
    } else if in_list(&e, &archives) {
        FileType::Archive
    } else if in_list(&e, &data) {
        FileType::Data
    } else {
        FileType::Other
    }
}

/// The lowercase extension of a path, or nothing.
pub open spec fn ext_text(path: Seq<char>) -> Seq<char> {
    match extension_of(path) {
        Some(e) => e,
        None => Seq::empty(),
    }
}

/// The kind of file at `path`: its extension lowercased (as the walk does) and looked up.
pub open spec fn kind_of_path(path: Seq<char>) -> FileType {
    type_of_ext(lowercase(lowercase(ext_text(path))))
}

/// Sum of sizes, saturating at `u64::MAX` at each step.
pub open spec fn sat_total(files: Seq<(String, u64)>) -> nat
    decreases files.len(),
{
    if files.len() == 0 {
        0
    } else {
        let t = sat_total(files.drop_last()) + files.last().1;
        if t > u64::MAX { u64::MAX as nat } else { t as nat }
    }
}

/// The kinds in the order the report lists them.
pub open spec fn all_types() -> Seq<FileType> {
    seq![FileType::Image, FileType::Video, FileType::Audio, FileType::Document, FileType::Code,
        FileType::Archive, FileType::Data, FileType::Other]
}

pub open spec fn kind_name_text(t: FileType) -> Seq<char> {
    match t {
        FileType::Image => "이미지"@,
        FileType::Video => "동영상"@,
        FileType::Audio => "음악"@,
        FileType::Document => "문서"@,
        FileType::Code => "코드"@,
        FileType::Archive => "압축"@,
        FileType::Data => "데이터"@,
        FileType::Other => "기타"@,
    }
}

fn kind_name(t: FileType) -> (s: &'static str)
    ensures
        s@ == kind_name_text(t),
{
    match t {
        FileType::Image => "이미지",
        FileType::Video => "동영상",
        FileType::Audio => "음악",
        FileType::Document => "문서",
        FileType::Code => "코드",
        FileType::Archive => "압축",
        FileType::Data => "데이터",
        FileType::Other => "기타",
    }
}

/// The files of one kind.
pub struct FileGroup {
    pub kind_name: &'static str,
    pub file_type: FileType,
    pub files: Vec<(String, u64)>,
    pub total_size: u64,
    pub count: usize,
}

pub struct ClassifyReport {
    pub root: String,
    pub groups: Vec<FileGroup>,
    pub total_files: usize,
    pub total_size: u64,
}

/// The files of kind `t`, in the order found.
pub open spec fn files_of_kind(files: Seq<(String, u64)>, t: FileType) -> Seq<(String, u64)> {
    files.filter(|f: (String, u64)| kind_of_path(f.0@) == t)
}

/// The kinds that have files, in report order.
pub open spec fn present_types(files: Seq<(String, u64)>) -> Seq<FileType> {
    all_types().filter(|t: FileType| files_of_kind(files, t).len() > 0)
}

/// `g` is the group of kind `t` over `files`.
pub open spec fn is_group(g: FileGroup, t: FileType, files: Seq<(String, u64)>) -> bool {
    &&& g.file_type == t
    &&& g.kind_name@ == kind_name_text(t)
    &&& g.files@ == files_of_kind(files, t)
    &&& g.total_size == sat_total(files_of_kind(files, t))
    &&& g.count == files_of_kind(files, t).len()
}

fn kind_of(path: &String) -> (t: FileType)
    ensures
        t == kind_of_path(path@),
{
    let e = match extension(path.as_str()) {
        Some(e) => e,
        None => String::new(),
    };
    let lower = to_lower(e.as_str());
    get_file_type(lower.as_str())
}

/// Groups the regular files found under `root` (each with its size) by kind. Kinds without
/// files are left out; sizes add up saturating at `u64::MAX`.
pub fn classify_files(root: String, files: Vec<(String, u64)>) -> (r: ClassifyReport)
    ensures
        r.root == root,
        r.total_files == files@.len(),
        r.total_size == sat_total(files@),
        r.groups@.len() == present_types(files@).len(),
        forall|i: int| 0 <= i < r.groups@.len() ==> is_group(#[trigger] r.groups@[i], present_types(files@)[i], files@),
{
    let mut kinds: Vec<FileType> = Vec::new();
    let mut total: u64 = 0;
    let mut i: usize = 0;
    while i < files.len()
        invariant
            i <= files.len(),
            kinds@.len() == i,
            forall|k: int| 0 <= k < i ==> kinds@[k] == kind_of_path(#[trigger] files@[k].0@),
            total == sat_total(files@.take(i as int)),
        decreases files.len() - i,
    {
        kinds.push(kind_of(&files[i].0));
        proof {
            assert(files@.take(i + 1).drop_last() =~= files@.take(i as int));
        }
        total = if total > u64::MAX - files[i].1 { u64::MAX } else { total + files[i].1 };
        i = i + 1;
    }
    assert(files@.take(files.len() as int) =~= files@);
    let order: [FileType; 8] = [FileType::Image, FileType::Video, FileType::Audio, FileType::Document,
        FileType::Code, FileType::Archive, FileType::Data, FileType::Other];
    assert(order@ =~= all_types());
    let mut groups: Vec<FileGroup> = Vec::new();
    let ghost present = |t: FileType| files_of_kind(files@, t).len() > 0;
    let mut g: usize = 0;
    while g < 8
        invariant
            g <= 8,
            order@ == all_types(),
            kinds@.len() == files@.len(),
            forall|k: int| 0 <= k < files@.len() ==> kinds@[k] == kind_of_path(#[trigger] files@[k].0@),
            present == (|t: FileType| files_of_kind(files@, t).len() > 0),
            groups@.len() == all_types().take(g as int).filter(present).len(),
            forall|q: int| 0 <= q < groups@.len() ==> is_group(#[trigger] groups@[q], all_types().take(g as int).filter(present)[q], files@),
        decreases 8 - g,
    {
        let t = order[g];
        let mut picked: Vec<(String, u64)> = Vec::new();
        let mut sum: u64 = 0;
        let ghost pred = |f: (String, u64)| kind_of_path(f.0@) == t;
        let mut j: usize = 0;
        while j < files.len()
            invariant
                j <= files.len(),
                kinds@.len() == files@.len(),
                forall|k: int| 0 <= k < files@.len() ==> kinds@[k] == kind_of_path(#[trigger] files@[k].0@),
                pred == (|f: (String, u64)| kind_of_path(f.0@) == t),
                picked@ == files@.take(j as int).filter(pred),
                sum == sat_total(files@.take(j as int).filter(pred)),
            decreases files.len() - j,
        {
            proof {
                files@.take(j as int).lemma_filter_push(files@[j as int], pred);
                assert(files@.take(j + 1) =~= files@.take(j as int).push(files@[j as int]));
            }
            if kinds[j] == t {
                let ghost before = picked@;
                picked.push((files[j].0.clone(), files[j].1));
                sum = if sum > u64::MAX - files[j].1 { u64::MAX } else { sum + files[j].1 };
                proof {
                    assert(picked@.drop_last() =~= before);
                }
            }
            j = j + 1;
        }
        proof {
            assert(files@.take(files.len() as int) =~= files@);
            assert(all_types().take(g + 1) =~= all_types().take(g as int).push(t));
            all_types().take(g as int).lemma_filter_push(t, present);
        }
        if picked.len() > 0 {
            let n = picked.len();
            let ghost before = groups@;
            groups.push(FileGroup { kind_name: kind_name(t), file_type: t, files: picked, total_size: sum, count: n });
            proof {
                assert forall|q: int| 0 <= q < groups@.len() implies is_group(#[trigger] groups@[q], all_types().take(g + 1).filter(present)[q], files@) by {
                    if q < before.len() {
                        assert(groups@[q] == before[q]);
                    }
                }
            }
        }
        g = g + 1;
    }
    proof {
        assert(all_types().take(8) =~= all_types());
    }
    ClassifyReport { root, groups, total_files: files.len(), total_size: total }
}

/// One listed file of a group: its file name and size.
pub open spec fn file_line(f: (String, u64)) -> Seq<char> {
    "  - "@ + (match file_name_of(f.0@) { Some(n) => n, None => Seq::empty() }) + " ("@ + size_text(f.1 as nat) + ")\n"@
}

pub open spec fn group_head(g: FileGroup) -> Seq<char> {
    "■ "@ + g.kind_name@ + " ("@ + count_text(g.count as nat) + " 파일, "@ + size_text(g.total_size as nat) + ")\n"@
}

/// The lines for the first five files of a group.
pub open spec fn group_files_text(g: FileGroup) -> Seq<char> {
    concat_all(g.files@.take(if g.files@.len() < 5 { g.files@.len() as int } else { 5 }).map_values(|f: (String, u64)| file_line(f)))
}

pub open spec fn group_tail(g: FileGroup) -> Seq<char> {
    (if g.count > 5 { "  ... 외 "@ + count_text((g.count - 5) as nat) + " 파일\n"@ } else { Seq::empty() }) + "\n"@
}

pub open spec fn group_text(g: FileGroup) -> Seq<char> {
    group_head(g) + group_files_text(g) + group_tail(g)
}

/// The text of a classification report.
pub open spec fn classify_report_text(r: ClassifyReport) -> Seq<char> {
    "경로: "@ + r.root@ + "\n총 파일: "@ + count_text(r.total_files as nat) + "\n전체 크기: "@ + size_text(r.total_size as nat) + "\n\n"@
        + concat_all(r.groups@.map_values(|g: FileGroup| group_text(g)))
}

fn push_group_head(out: &mut String, g: &FileGroup)
    ensures
        final(out)@ == old(out)@ + group_head(*g),
{
    push_str(out, "■ ");
    push_str(out, g.kind_name);
    push_str(out, " (");
    push_count(out, g.count);
    push_str(out, " 파일, ");
    push_str(out, FileEntry::format_size(g.total_size).as_str());
    push_str(out, ")\n");
    assert(out@ =~= old(out)@ + group_head(*g));
}

fn push_file_line(out: &mut String, f: &(String, u64))
    ensures
        final(out)@ == old(out)@ + file_line(*f),
{
    push_str(out, "  - ");
    match file_name(f.0.as_str()) {
        Some(name) => push_str(out, name.as_str()),
        None => {},
    }
    push_str(out, " (");
    push_str(out, FileEntry::format_size(f.1).as_str());
    push_str(out, ")\n");
    assert(out@ =~= old(out)@ + file_line(*f));
}

fn push_group_files(out: &mut String, g: &FileGroup)
    ensures
        final(out)@ == old(out)@ + group_files_text(*g),
{
    let ghost head = out@;
    let n = if g.files.len() < 5 { g.files.len() } else { 5 };
    let ghost lines = g.files@.take(n as int).map_values(|f: (String, u64)| file_line(f));
    let mut i: usize = 0;
    assert(lines.take(0) =~= Seq::<Seq<char>>::empty());
    while i < n
        invariant
            n <= g.files.len(),
            i <= n,
            lines == g.files@.take(n as int).map_values(|f: (String, u64)| file_line(f)),
            out@ == head + concat_all(lines.take(i as int)),
        decreases n - i,
    {
        push_file_line(out, &g.files[i]);
        proof {
            assert(lines.take(i + 1) =~= lines.take(i as int).push(lines[i as int]));
            lemma_concat_push(lines.take(i as int), lines[i as int]);
        }
        i = i + 1;
    }
    assert(lines.take(n as int) =~= lines);
}

fn push_group(out: &mut String, g: &FileGroup)
    ensures
        final(out)@ == old(out)@ + group_text(*g),
{
    push_group_head(out, g);
    push_group_files(out, g);
    if g.count > 5 {
        push_str(out, "  ... 외 ");
        push_count(out, g.count - 5);
        push_str(out, " 파일\n");
    }
    push_str(out, "\n");
    assert(out@ =~= old(out)@ + group_text(*g));
}

/// The text of a classification report: totals, then each group with up to 5 of its files.
pub fn format_report(report: &ClassifyReport) -> (s: String)
    ensures
        s@ == classify_report_text(*report),
{
    let mut s = String::new();
    push_str(&mut s, "경로: ");
    push_str(&mut s, report.root.as_str());
    push_str(&mut s, "\n총 파일: ");
    push_count(&mut s, report.total_files);
    push_str(&mut s, "\n전체 크기: ");
    push_str(&mut s, FileEntry::format_size(report.total_size).as_str());
    push_str(&mut s, "\n\n");
    let ghost head = s@;
    let ghost parts = report.groups@.map_values(|g: FileGroup| group_text(g));
    let mut i: usize = 0;
    assert(parts.take(0) =~= Seq::<Seq<char>>::empty());
    while i < report.groups.len()
        invariant
            i <= report.groups.len(),
            parts == report.groups@.map_values(|g: FileGroup| group_text(g)),
            s@ == head + concat_all(parts.take(i as int)),
        decreases report.groups.len() - i,
    {
        push_group(&mut s, &report.groups[i]);
        proof {
            assert(parts.take(i + 1) =~= parts.take(i as int).push(parts[i as int]));
            lemma_concat_push(parts.take(i as int), parts[i as int]);
        }
        i = i + 1;
    }
    assert(parts.take(report.groups.len() as int) =~= parts);
    s
}

} // verus!
