//! Packing files into an archive: the format a destination's extension names, and the
//! entries (with their names inside the archive) that go into it.

use vstd::prelude::*;
use crate::text::{to_lower, lowercase};
use crate::path::{extension, parent, parent_of, file_name, file_name_of, strip_prefix, strip_prefix_of};
use crate::ops::classify::ext_text;

verus! {

#[derive(Debug, Clone, Copy, PartialEq, Eq, Structural)]
pub enum ArchiveFormat {
    Zip,
    Tar,
    TarGz,
}

/// The archive format a lowercase extension names.
pub open spec fn format_of_ext(e: Seq<char>) -> Option<ArchiveFormat> {
    if e == "zip"@ {
        Some(ArchiveFormat::Zip)
    } else if e == "tar"@ {
        Some(ArchiveFormat::Tar)
    } else if e == "gz"@ || e == "tgz"@ {
        Some(ArchiveFormat::TarGz)
    } else {
        None
    }
}

/// The lowercase extension of a path, empty when it has none.
pub open spec fn archive_ext(path: Seq<char>) -> Seq<char> {
    lowercase(ext_text(path))
}

fn str_is(s: &String, lit: &str) -> (r: bool)
    ensures
        r == (s@ == lit@),
{
    s.eq(&String::from_str(lit))
}

/// The lowercase extension of `path` and the archive format it names.
pub fn archive_format(path: &str) -> (r: (String, Option<ArchiveFormat>))
    ensures
        r.0@ == archive_ext(path@),
        r.1 == format_of_ext(archive_ext(path@)),
{
    let e = match extension(path) {
        Some(e) => e,
        None => String::new(),
    };
    let lower = to_lower(e.as_str());
    let f = if str_is(&lower, "zip") {
        Some(ArchiveFormat::Zip)
    } else if str_is(&lower, "tar") {
        Some(ArchiveFormat::Tar)
    } else if str_is(&lower, "gz") || str_is(&lower, "tgz") {
        Some(ArchiveFormat::TarGz)
    } else {
        None
    };
    (lower, f)
}

/// Something to pack: its path; whether it is a directory; for a directory, every path a
/// walk of it yields (the directory itself first), each with whether it is a directory.
pub struct PackSource {
    pub path: String,
    pub is_dir: bool,
    pub walked: Vec<(String, bool)>,
}

/// One entry of the archive: the file or directory it comes from and its name inside.
pub struct PackEntry {
    pub source: String,
    pub name: String,
    pub is_dir: bool,
}

pub struct PackPlan {
    pub format: ArchiveFormat,
    pub entries: Vec<PackEntry>,
}

#[derive(Debug)]
pub enum PackError {
    /// The destination's extension names no archive format; holds the extension.
    UnsupportedFormat(String),
    /// A file to pack has no file name.
    InvalidSource,
    /// A walked path does not lie under the packed directory's parent.
    PrefixNotFound,
}

impl PackError {
    pub open spec fn message_text(self) -> Seq<char> {
        match self {
            PackError::UnsupportedFormat(e) => "Unsupported archive format for packing: "@ + e@,
            PackError::InvalidSource => "Invalid source path"@,
            PackError::PrefixNotFound => "prefix not found"@,
        }
    }

    pub fn message(&self) -> (s: String)
        ensures
            s@ == self.message_text(),
    {
        match self {
            PackError::UnsupportedFormat(e) => {
                let mut s = String::from_str("Unsupported archive format for packing: ");
                s.append(e.as_str());
                s
            },
            PackError::InvalidSource => String::from_str("Invalid source path"),
            PackError::PrefixNotFound => String::from_str("prefix not found"),
        }
    }
}

/// An entry as plain values: source path, name, directory or not.
pub type EntryView = (Seq<char>, Seq<char>, bool);

pub open spec fn entry_view(e: PackEntry) -> EntryView {
    (e.source@, e.name@, e.is_dir)
}

/// The directory whose contents a packed directory's names are relative to.
pub open spec fn pack_base(src: Seq<char>) -> Seq<char> {
    match parent_of(src) {
        Some(p) => p,
        None => Seq::empty(),
    }
}

/// The entries for walked paths, named relative to `base`; `None` when one is not under it.
pub open spec fn walked_entries(walked: Seq<(String, bool)>, base: Seq<char>) -> Option<Seq<EntryView>>
    decreases walked.len(),
{
    if walked.len() == 0 {
        Some(Seq::empty())
    } else {
        match walked_entries(walked.drop_last(), base) {
            None => None,
            Some(rest) => match strip_prefix_of(walked.last().0@, base) {
                None => None,
                Some(n) => Some(rest.push((walked.last().0@, n, walked.last().1))),
            },
        }
    }
}

/// The entries one source adds: a directory gives every walked path, named from the
/// directory's parent on; a file gives itself under its file name.
pub open spec fn source_entries(src: PackSource) -> Result<Seq<EntryView>, PackError> {
    if src.is_dir {
        match walked_entries(src.walked@, pack_base(src.path@)) {
            Some(es) => Ok(es),
            None => Err(PackError::PrefixNotFound),
        }
    } else {
        match file_name_of(src.path@) {
            Some(n) => Ok(seq![(src.path@, n, false)]),
            None => Err(PackError::InvalidSource),
        }
    }
}

/// The entries of all sources in order, or the error of the first source that fails.
pub open spec fn pack_entries(srcs: Seq<PackSource>) -> Result<Seq<EntryView>, PackError>
    decreases srcs.len(),
{
    if srcs.len() == 0 {
        Ok(Seq::empty())
    } else {
        match pack_entries(srcs.drop_last()) {
            Err(e) => Err(e),
            Ok(rest) => match source_entries(srcs.last()) {
                Err(e) => Err(e),
                Ok(es) => Ok(rest + es),
            },
        }
    }
}

fn add_source(out: &mut Vec<PackEntry>, src: &PackSource) -> (ok: Result<(), PackError>)
    ensures
        match source_entries(*src) {
            Ok(es) => ok is Ok && final(out)@.map_values(|e: PackEntry| entry_view(e)) == old(out)@.map_values(
                |e: PackEntry| entry_view(e),
            ) + es,
            Err(e) => ok == Err::<(), PackError>(e),
        },
{
    let ghost start = out@.map_values(|e: PackEntry| entry_view(e));
    if src.is_dir {
        let base = match parent(src.path.as_str()) {
            Some(p) => p,
            None => String::new(),
        };
        let mut i: usize = 0;
        while i < src.walked.len()
            invariant
                i <= src.walked.len(),
                src.is_dir,
                base@ == pack_base(src.path@),
                start == old(out)@.map_values(|e: PackEntry| entry_view(e)),
                walked_entries(src.walked@.take(i as int), base@) matches Some(es)
                    && out@.map_values(|e: PackEntry| entry_view(e)) == start + es,
            decreases src.walked.len() - i,
        {
            let w = &src.walked[i];
            proof {
                assert(src.walked@.take(i + 1).drop_last() =~= src.walked@.take(i as int));
                assert(src.walked@.take(i + 1).last() == *w);
            }
            match strip_prefix(w.0.as_str(), base.as_str()) {
                Some(n) => {
                    let ghost before = out@;
                    out.push(PackEntry { source: w.0.clone(), name: n, is_dir: w.1 });
                    proof {
                        assert(out@.map_values(|e: PackEntry| entry_view(e)) =~= before.map_values(
                            |e: PackEntry| entry_view(e),
                        ).push(entry_view(out@.last())));
                    }
                },
                None => {
                    proof {
                        lemma_walked_none_stays(src.walked@, base@, i + 1);
                    }
                    return Err(PackError::PrefixNotFound);
                },
            }
            i = i + 1;
        }
        proof {
            assert(src.walked@.take(src.walked.len() as int) =~= src.walked@);
        }
        Ok(())
    } else {
        match file_name(src.path.as_str()) {
            Some(n) => {
                let ghost before = out@;
                out.push(PackEntry { source: src.path.clone(), name: n, is_dir: false });
                proof {
                    assert(out@.map_values(|e: PackEntry| entry_view(e)) =~= before.map_values(
                        |e: PackEntry| entry_view(e),
                    ) + seq![(src.path@, n@, false)]);
                }
                Ok(())
            },
            None => Err(PackError::InvalidSource),
        }
    }
}

proof fn lemma_walked_none_stays(walked: Seq<(String, bool)>, base: Seq<char>, n: int)
    requires
        0 <= n <= walked.len(),
        walked_entries(walked.take(n), base) is None,
    ensures
        walked_entries(walked, base) is None,
    decreases walked.len() - n,
{
    if n < walked.len() {
        assert(walked.take(n + 1).drop_last() =~= walked.take(n));
        lemma_walked_none_stays(walked, base, n + 1);
    } else {
        assert(walked.take(n) =~= walked);
    }
}

proof fn lemma_pack_err_stays(srcs: Seq<PackSource>, n: int, e: PackError)
    requires
        0 <= n <= srcs.len(),
        pack_entries(srcs.take(n)) == Err::<Seq<EntryView>, PackError>(e),
    ensures
        pack_entries(srcs) == Err::<Seq<EntryView>, PackError>(e),
    decreases srcs.len() - n,
{
    if n < srcs.len() {
        assert(srcs.take(n + 1).drop_last() =~= srcs.take(n));
        lemma_pack_err_stays(srcs, n + 1, e);
    } else {
        assert(srcs.take(n) =~= srcs);
    }
}

/// What packing `srcs` into `dst_path` writes: the format that the destination's extension
/// names (`zip`, `tar`, `gz` or `tgz`, in any case), and the entries of every source in
/// order. Fails for any other extension, for a file without a file name, and for a walked
/// path outside its directory's parent.
pub fn pack_files(srcs: &Vec<PackSource>, dst_path: &str) -> (r: Result<PackPlan, PackError>)
    ensures
        format_of_ext(archive_ext(dst_path@)) is None ==> (r matches Err(PackError::UnsupportedFormat(e))
            && e@ == archive_ext(dst_path@)),
        format_of_ext(archive_ext(dst_path@)) matches Some(f) ==> match pack_entries(srcs@) {
            Ok(es) => r matches Ok(plan) && plan.format == f
                && plan.entries@.map_values(|e: PackEntry| entry_view(e)) == es,
            Err(e) => r matches Err(e2) && e2 == e,
        },
{
    let (ext, fmt) = archive_format(dst_path);
    let format = match fmt {
        Some(f) => f,
        None => return Err(PackError::UnsupportedFormat(ext)),
    };
    let mut entries: Vec<PackEntry> = Vec::new();
    let mut i: usize = 0;
    assert(srcs@.take(0) =~= Seq::<PackSource>::empty());
    while i < srcs.len()
        invariant
            i <= srcs.len(),
            format_of_ext(archive_ext(dst_path@)) == Some(format),
            pack_entries(srcs@.take(i as int)) matches Ok(es)
                && entries@.map_values(|e: PackEntry| entry_view(e)) == es,
        decreases srcs.len() - i,
    {
        proof {
            assert(srcs@.take(i + 1).drop_last() =~= srcs@.take(i as int));
            assert(srcs@.take(i + 1).last() == srcs@[i as int]);
        }
        match add_source(&mut entries, &srcs[i]) {
            Ok(()) => {},
            Err(e) => {
                proof {
                    lemma_pack_err_stays(srcs@, i + 1, e);
                }
                return Err(e);
            },
        }
        i = i + 1;
    }
    assert(srcs@.take(srcs.len() as int) =~= srcs@);
    Ok(PackPlan { format, entries })
}

} // verus!
