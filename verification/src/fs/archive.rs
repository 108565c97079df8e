//! Browsing the entries of an archive as a directory tree.

use vstd::prelude::*;
use crate::fs::FileEntry;
use crate::text::{chars_of, string_of};
use crate::path::{PathParts, path_parts, path_key_of, same_path, same_path_exec, path_starts_with,
    starts_with_path, join, join_of, strip_prefix, strip_prefix_of};
use crate::ops::archive::{format_of_ext, archive_ext, archive_format};
use crate::text::{starts_with, starts_with_exec};

verus! {

/// An archive opened for browsing: its path and the entries it holds, each with its path
/// inside the archive.
pub struct ArchiveFs {
    pub archive_path: String,
    pub entries: Vec<FileEntry>,
}

#[derive(Debug)]
pub enum ArchiveError {
    UnsupportedFormat,
    /// Nothing in the archive is or lies under the path; holds the path as quoted text.
    NotFound(String),
    MoveUnsupported,
    DeleteUnsupported,
    MkdirUnsupported,
    RenameUnsupported,
}

impl ArchiveError {
    pub open spec fn message_text(self) -> Seq<char> {
        match self {
            ArchiveError::UnsupportedFormat => "Unsupported archive format"@,
            ArchiveError::NotFound(q) => "File not found in archive: "@ + q@,
            ArchiveError::MoveUnsupported => "Moving within archives not supported yet"@,
            ArchiveError::DeleteUnsupported => "Deleting from archives not supported yet"@,
            ArchiveError::MkdirUnsupported => "Creating directories in archives not supported yet"@,
            ArchiveError::RenameUnsupported => "Renaming in archives not supported yet"@,
        }
    }

    pub fn message(&self) -> (s: String)
        ensures
            s@ == self.message_text(),
    {
        match self {
            ArchiveError::UnsupportedFormat => String::from_str("Unsupported archive format"),
            ArchiveError::NotFound(q) => {
                let mut s = String::from_str("File not found in archive: ");
                s.append(q.as_str());
                s
            },
            ArchiveError::MoveUnsupported => String::from_str("Moving within archives not supported yet"),
            ArchiveError::DeleteUnsupported => String::from_str("Deleting from archives not supported yet"),
            ArchiveError::MkdirUnsupported => String::from_str("Creating directories in archives not supported yet"),
            ArchiveError::RenameUnsupported => String::from_str("Renaming in archives not supported yet"),
        }
    }
}

/// What `format!("{:?}", Path::new(s))` gives: the path quoted, with escapes.
pub uninterp spec fn debug_quoted(s: Seq<char>) -> Seq<char>;

/// std's `Debug` formatting of the path `Path::new(s)` (the text in double quotes, with
/// special characters escaped), as a member path is shown in messages. The result is
/// named, not spelled out.
#[verifier::external_body]
fn debug_quote(s: &str) -> (r: String)
    ensures
        r@ == debug_quoted(s@),
{
    format!("{:?}", std::path::Path::new(s))
}

/// An entry as plain values: name, path, directory or not, size, modification time,
/// permissions.
pub open spec fn fe_view(e: FileEntry) -> (Seq<char>, Seq<char>, bool, u64, i64, u32) {
    (e.name@, e.path@, e.is_dir, e.size, e.modified, e.permissions)
}

/// The text of a component as `Component::as_os_str` gives it.
pub open spec fn comp_text(k: (u8, Seq<char>)) -> Seq<char> {
    if k.0 == 1 {
        seq!['/']
    } else if k.0 == 2 {
        seq!['.']
    } else if k.0 == 3 {
        seq!['.', '.']
    } else {
        k.1
    }
}

/// The directory whose children a listing of `path` shows: the archive's top for the
/// empty path and for `/`.
pub open spec fn list_target(path: Seq<char>) -> Seq<char> {
    if same_path(path, Seq::empty()) || same_path(path, seq!['/']) {
        Seq::empty()
    } else {
        path
    }
}

/// The listing of `target` over `entries`, with the directory names already shown.
/// An entry directly inside shows as itself, renamed to its last component; an entry
/// deeper inside shows its first component as a directory, once.
pub open spec fn listed(entries: Seq<FileEntry>, target: Seq<char>)
    -> (Seq<(Seq<char>, Seq<char>, bool, u64, i64, u32)>, Set<Seq<char>>)
    decreases entries.len(),
{
    if entries.len() == 0 {
        (Seq::empty(), Set::empty())
    } else {
        let (res, seen) = listed(entries.drop_last(), target);
        let e = entries.last();
        if !path_starts_with(e.path@, target) {
            (res, seen)
        } else {
            let rel = path_key_of(e.path@).skip(path_key_of(target).len() as int);
            if rel.len() == 0 {
                (res, seen)
            } else {
                let first = comp_text(rel[0]);
                if first.len() == 0 {
                    (res, seen)
                } else if rel.len() == 1 {
                    (res.push((first, e.path@, e.is_dir, e.size, e.modified, e.permissions)),
                        if e.is_dir { seen.insert(first) } else { seen })
                } else if seen.contains(first) {
                    (res, seen)
                } else {
                    (res.push((first, join_of(target, first), true, 0u64, e.modified, 0u32)), seen.insert(first))
                }
            }
        }
    }
}

/// An archive member `name` is what `src` names: `src` itself or inside it, compared as text.
pub open spec fn member_of(name: Seq<char>, src: Seq<char>) -> bool {
    name == src || starts_with(name, src.push('/'))
}

/// Where member `name` goes when `src` is extracted to `dst`: `dst` itself for `src` (a file
/// extracts to the path it is copied to), else `dst` joined with the rest of `name` after
/// `src` (`dst` itself when `src` is not a prefix of it as a path).
pub open spec fn extract_target_of(name: Seq<char>, src: Seq<char>, dst: Seq<char>) -> Seq<char> {
    match strip_prefix_of(name, src) {
        Some(r) => if r.len() == 0 { dst } else { join_of(dst, r) },
        None => dst,
    }
}

/// The members of `names` that extracting `src` takes, each with its index and target.
pub open spec fn extraction_of(names: Seq<String>, src: Seq<char>, dst: Seq<char>) -> Seq<(usize, Seq<char>)>
    decreases names.len(),
{
    if names.len() == 0 {
        Seq::empty()
    } else {
        let rest = extraction_of(names.drop_last(), src, dst);
        let n = names.last()@;
        if member_of(n, src) {
            rest.push(((names.len() - 1) as usize, extract_target_of(n, src, dst)))
        } else {
            rest
        }
    }
}

impl ArchiveFs {
    /// Opens an archive for browsing with the entries read from it; the format is the one
    /// its extension names (`zip`, `tar`, `gz`, `tgz`), and no other is accepted.
    pub fn new(path: String, entries: Vec<FileEntry>) -> (r: Result<ArchiveFs, ArchiveError>)
        ensures
            format_of_ext(archive_ext(path@)) is None <==> r is Err,
            r matches Err(e) ==> e is UnsupportedFormat,
            r matches Ok(a) ==> a.archive_path == path && a.entries@ == entries@,
    {
        let (_e, fmt) = archive_format(path.as_str());
        match fmt {
            Some(_) => Ok(ArchiveFs { archive_path: path, entries }),
            None => Err(ArchiveError::UnsupportedFormat),
        }
    }

    /// The entries directly inside `path` (see `listed`).
    pub fn list(&self, path: &str) -> (r: Vec<FileEntry>)
        ensures
            r@.map_values(|e: FileEntry| fe_view(e)) == listed(self.entries@, list_target(path@)).0,
    {
        let root_like = same_path_exec(path, "") || same_path_exec(path, "/");
        proof {
            reveal_strlit("");
            reveal_strlit("/");
            assert(""@ =~= Seq::<char>::empty());
            assert("/"@ =~= seq!['/']);
        }
        let target = if root_like { String::new() } else { String::from_str(path) };
        let tparts = path_parts(target.as_str());
        let n0 = tparts.parts.len();
        let mut res: Vec<FileEntry> = Vec::new();
        let mut seen: Vec<Vec<char>> = Vec::new();
        let mut i: usize = 0;
        while i < self.entries.len()
            invariant
                i <= self.entries.len(),
                target@ == list_target(path@),
                tparts.key() == path_key_of(target@),
                n0 == tparts.parts.len(),
                res@.map_values(|e: FileEntry| fe_view(e)) == listed(self.entries@.take(i as int), target@).0,
                seen@.map_values(|v: Vec<char>| v@).to_set() == listed(self.entries@.take(i as int), target@).1,
            decreases self.entries.len() - i,
        {
            let e = &self.entries[i];
            let ghost pre = self.entries@.take(i as int);
            proof {
                assert(self.entries@.take(i + 1).drop_last() =~= pre);
                assert(self.entries@.take(i + 1).last() == *e);
            }
            let eparts = path_parts(e.path.as_str());
            if starts_with_path(e.path.as_str(), target.as_str()) && eparts.parts.len() > n0 {
                let c = &eparts.parts[n0];
                let first: Vec<char> = if c.0 == 1 {
                    let mut v = Vec::new();
                    v.push('/');
                    v
                } else if c.0 == 2 {
                    let mut v = Vec::new();
                    v.push('.');
                    v
                } else if c.0 == 3 {
                    let mut v = Vec::new();
                    v.push('.');
                    v.push('.');
                    v
                } else {
                    c.1.clone()
                };
                let ghost rel = path_key_of(e.path@).skip(path_key_of(target@).len() as int);
                proof {
                    assert(rel[0] == eparts.key()[n0 as int]);
                    assert(first@ =~= comp_text(rel[0]));
                }
                if first.len() > 0 {
                    if eparts.parts.len() == n0 + 1 {
                        let ghost before = res@;
                        let ghost sbefore = seen@;
                        let fv = first.clone();
                        res.push(FileEntry {
                            name: string_of(&first),
                            path: e.path.clone(),
                            is_dir: e.is_dir,
                            size: e.size,
                            modified: e.modified,
                            permissions: e.permissions,
                        });
                        if e.is_dir {
                            seen.push(fv);
                        }
                        proof {
                            assert(res@.map_values(|e: FileEntry| fe_view(e)) =~= before.map_values(
                                |e: FileEntry| fe_view(e),
                            ).push(fe_view(res@.last())));
                            if e.is_dir {
                                assert(seen@.map_values(|v: Vec<char>| v@) =~= sbefore.map_values(|v: Vec<char>| v@).push(first@));
                                sbefore.map_values(|v: Vec<char>| v@).lemma_push_to_set_commute(first@);
                                assert(seen@.map_values(|v: Vec<char>| v@).to_set() =~= sbefore.map_values(|v: Vec<char>| v@).to_set().insert(first@));
                            }
                        }
                    } else if !contains_chars(&seen, &first) {
                        let ghost before = res@;
                        let ghost sbefore = seen@;
                        let fv = first.clone();
                        let fs = string_of(&first);
                        res.push(FileEntry {
                            name: string_of(&first),
                            path: join(target.as_str(), fs.as_str()),
                            is_dir: true,
                            size: 0,
                            modified: e.modified,
                            permissions: 0,
                        });
                        seen.push(fv);
                        proof {
                            assert(res@.map_values(|e: FileEntry| fe_view(e)) =~= before.map_values(
                                |e: FileEntry| fe_view(e),
                            ).push(fe_view(res@.last())));
                            assert(seen@.map_values(|v: Vec<char>| v@) =~= sbefore.map_values(|v: Vec<char>| v@).push(first@));
                            sbefore.map_values(|v: Vec<char>| v@).lemma_push_to_set_commute(first@);
                            assert(seen@.map_values(|v: Vec<char>| v@).to_set() =~= sbefore.map_values(|v: Vec<char>| v@).to_set().insert(first@));
                        }
                    }
                }
            }
            i = i + 1;
        }
        proof {
            assert(self.entries@.take(self.entries.len() as int) =~= self.entries@);
        }
        res
    }

    /// Some entry is `path` or lies under it.
    pub fn has_path(&self, path: &str) -> (r: bool)
        ensures
            r == exists|i: int| 0 <= i < self.entries@.len()
                && (same_path(#[trigger] self.entries@[i].path@, path@) || path_starts_with(self.entries@[i].path@, path@)),
    {
        let mut i: usize = 0;
        while i < self.entries.len()
            invariant
                i <= self.entries.len(),
                forall|j: int| 0 <= j < i ==> !(same_path(#[trigger] self.entries@[j].path@, path@)
                    || path_starts_with(self.entries@[j].path@, path@)),
            decreases self.entries.len() - i,
        {
            let p = self.entries[i].path.as_str();
            if same_path_exec(p, path) || starts_with_path(p, path) {
                return true;
            }
            i = i + 1;
        }
        false
    }

    /// The archive's top (the empty path or `/`), a directory entry named `path`, or any
    /// path with an entry strictly under it.
    pub fn is_dir(&self, path: &str) -> (r: bool)
        ensures
            r == (same_path(path@, Seq::empty()) || same_path(path@, seq!['/'])
                || (exists|i: int| 0 <= i < self.entries@.len()
                    && same_path(#[trigger] self.entries@[i].path@, path@) && self.entries@[i].is_dir)
                || (exists|i: int| 0 <= i < self.entries@.len()
                    && path_starts_with(#[trigger] self.entries@[i].path@, path@)
                    && !same_path(self.entries@[i].path@, path@))),
    {
        proof {
            reveal_strlit("");
            reveal_strlit("/");
            assert(""@ =~= Seq::<char>::empty());
            assert("/"@ =~= seq!['/']);
        }
        if same_path_exec(path, "") || same_path_exec(path, "/") {
            return true;
        }
        let mut found = false;
        let mut i: usize = 0;
        while i < self.entries.len()
            invariant
                i <= self.entries.len(),
                found == exists|j: int| 0 <= j < i
                    && same_path(#[trigger] self.entries@[j].path@, path@) && self.entries@[j].is_dir,
            decreases self.entries.len() - i,
        {
            if same_path_exec(self.entries[i].path.as_str(), path) && self.entries[i].is_dir {
                found = true;
            }
            i = i + 1;
        }
        if found {
            return true;
        }
        let mut j: usize = 0;
        while j < self.entries.len()
            invariant
                j <= self.entries.len(),
                forall|q: int| 0 <= q < j ==> !(path_starts_with(#[trigger] self.entries@[q].path@, path@)
                    && !same_path(self.entries@[q].path@, path@)),
            decreases self.entries.len() - j,
        {
            let p = self.entries[j].path.as_str();
            if starts_with_path(p, path) && !same_path_exec(p, path) {
                return true;
            }
            j = j + 1;
        }
        false
    }

    /// Which members extracting `src` into `dst` takes (by index into `names`, the member
    /// names in archive order) and where each goes; fails when none is `src` or inside it.
    pub fn extraction_plan(&self, names: &Vec<String>, src: &str, dst: &str) -> (r: Result<Vec<(usize, String)>, ArchiveError>)
        ensures
            extraction_of(names@, src@, dst@).len() == 0 <==> r is Err,
            r matches Err(e) ==> (e matches ArchiveError::NotFound(q) && q@ == debug_quoted(src@)),
            r matches Ok(v) ==> v@.map_values(|x: (usize, String)| (x.0, x.1@)) == extraction_of(names@, src@, dst@),
    {
        let sc = chars_of(src);
        let mut prefix = sc.clone();
        prefix.push('/');
        let mut out: Vec<(usize, String)> = Vec::new();
        let mut i: usize = 0;
        while i < names.len()
            invariant
                i <= names.len(),
                sc@ == src@,
                prefix@ == src@.push('/'),
                out@.map_values(|x: (usize, String)| (x.0, x.1@)) == extraction_of(names@.take(i as int), src@, dst@),
            decreases names.len() - i,
        {
            proof {
                assert(names@.take(i + 1).drop_last() =~= names@.take(i as int));
                assert(names@.take(i + 1).last() == names@[i as int]);
            }
            let nc = chars_of(names[i].as_str());
            if chars_equal(&nc, &sc) || starts_with_exec(&nc, &prefix) {
                let t = match strip_prefix(names[i].as_str(), src) {
                    Some(r) => if chars_of(r.as_str()).len() == 0 { String::from_str(dst) } else { join(dst, r.as_str()) },
                    None => String::from_str(dst),
                };
                let ghost before = out@;
                out.push((i, t));
                proof {
                    assert(out@.map_values(|x: (usize, String)| (x.0, x.1@)) =~= before.map_values(
                        |x: (usize, String)| (x.0, x.1@),
                    ).push((i, t@)));
                }
            }
            i = i + 1;
        }
        proof {
            assert(names@.take(names.len() as int) =~= names@);
        }
        if out.len() == 0 {
            return Err(ArchiveError::NotFound(debug_quote(src)));
        }
        Ok(out)
    }

    pub fn move_entry(&self) -> (r: Result<(), ArchiveError>)
        ensures
            r matches Err(e) && e is MoveUnsupported,
    {
        Err(ArchiveError::MoveUnsupported)
    }

    pub fn delete(&self) -> (r: Result<(), ArchiveError>)
        ensures
            r matches Err(e) && e is DeleteUnsupported,
    {
        Err(ArchiveError::DeleteUnsupported)
    }

    pub fn mkdir(&self) -> (r: Result<(), ArchiveError>)
        ensures
            r matches Err(e) && e is MkdirUnsupported,
    {
        Err(ArchiveError::MkdirUnsupported)
    }

    pub fn rename(&self) -> (r: Result<(), ArchiveError>)
        ensures
            r matches Err(e) && e is RenameUnsupported,
    {
        Err(ArchiveError::RenameUnsupported)
    }
}

fn chars_equal(a: &Vec<char>, b: &Vec<char>) -> (r: bool)
    ensures
        r == (a@ == b@),
{
    if a.len() != b.len() {
        return false;
    }
    let mut i: usize = 0;
    while i < a.len()
        invariant
            i <= a.len(),
            a.len() == b.len(),
            forall|j: int| 0 <= j < i ==> a@[j] == b@[j],
        decreases a.len() - i,
    {
        if a[i] != b[i] {
            return false;
        }
        i = i + 1;
    }
    assert(a@ =~= b@);
    true
}

fn contains_chars(v: &Vec<Vec<char>>, x: &Vec<char>) -> (r: bool)
    ensures
        r == v@.map_values(|w: Vec<char>| w@).to_set().contains(x@),
{
    let mut i: usize = 0;
    while i < v.len()
        invariant
            i <= v.len(),
            forall|j: int| 0 <= j < i ==> (#[trigger] v@[j])@ != x@,
        decreases v.len() - i,
    {
        if chars_equal(&v[i], x) {
            assert(v@.map_values(|w: Vec<char>| w@)[i as int] == x@);
            return true;
        }
        i = i + 1;
    }
    proof {
        let m = v@.map_values(|w: Vec<char>| w@);
        if m.to_set().contains(x@) {
            let j = choose|j: int| 0 <= j < m.len() && m[j] == x@;
            assert(v@[j]@ == x@);
        }
    }
    false
}

} // verus!
