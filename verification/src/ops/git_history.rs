//! A summary of a Git repository's history, read from the output of `git` commands.

use vstd::prelude::*;
use crate::text::{chars_of, string_of, push_str, lines_of, lines_exec, trim, trim_exec, split_char, split_exec,
    seqs_view, words, words_exec, join_sep, join_range, parse_usize_of, parse_usize};
use crate::report::{concat_all, lemma_concat_push, count_text, push_count};
use crate::order::{is_stable_order, stable_order, key_index, lemma_key_index_none, lemma_key_index_at, lemma_key_index_range};
use crate::ops::storage::at_most;

verus! {

#[derive(Clone, Debug)]
pub struct CommitInfo {
    pub hash: String,
    pub date: String,
    pub author: String,
    pub message: String,
}

pub struct GitReport {
    pub root: String,
    pub branch: String,
    pub total_commits: usize,
    pub last_commit_date: String,
    pub recent_commits: Vec<CommitInfo>,
    pub top_authors: Vec<(String, usize)>,
    pub hot_files: Vec<(String, usize)>,
}

/// What the `git` commands printed, each `None` when the command failed: the current
/// branch, the number of commits, the date of the last commit, the last 20 commits
/// (`%h|%ad|%an|%s`), the commit count per author (`shortlog -sn`), and the files each
/// commit changed (`log --name-only`).
pub struct GitOutputs {
    pub branch: Option<String>,
    pub commit_count: Option<String>,
    pub last_commit_date: Option<String>,
    pub log: Option<String>,
    pub shortlog: Option<String>,
    pub changed_files: Option<String>,
}

#[derive(Debug, Clone, Copy, PartialEq, Eq, Structural)]
pub enum GitError {
    /// A `git` command that the report needs failed.
    CommandFailed,
}

impl GitError {
    pub fn message(&self) -> (s: String)
        ensures
            s@ == "Git command failed"@,
    {
        String::from_str("Git command failed")
    }
}

pub open spec fn commit_view(c: CommitInfo) -> (Seq<char>, Seq<char>, Seq<char>, Seq<char>) {
    (c.hash@, c.date@, c.author@, c.message@)
}

/// The commit a log line describes: its first four `|`-separated fields, when it has them.
pub open spec fn commit_of_line(l: Seq<char>) -> Option<(Seq<char>, Seq<char>, Seq<char>, Seq<char>)> {
    let parts = split_char(l, '|');
    if parts.len() >= 4 {
        Some((parts[0], parts[1], parts[2], parts[3]))
    } else {
        None
    }
}

/// The commits of the lines that describe one, in order.
pub open spec fn commits_from(lines: Seq<Seq<char>>) -> Seq<(Seq<char>, Seq<char>, Seq<char>, Seq<char>)>
    decreases lines.len(),
{
    if lines.len() == 0 {
        Seq::empty()
    } else {
        let rest = commits_from(lines.drop_last());
        match commit_of_line(lines.last()) {
            Some(c) => rest.push(c),
            None => rest,
        }
    }
}

/// Reads the commits from `git log --pretty=format:%h|%ad|%an|%s` output; a line with
/// fewer than four fields is skipped, fields after the fourth are dropped.
pub fn parse_commits(output: &str) -> (r: Vec<CommitInfo>)
    ensures
        r@.map_values(|c: CommitInfo| commit_view(c)) == commits_from(lines_of(output@)),
{
    let cs = chars_of(output);
    let lines = lines_exec(&cs);
    let ghost ls = seqs_view(lines@);
    let mut r: Vec<CommitInfo> = Vec::new();
    let mut i: usize = 0;
    while i < lines.len()
        invariant
            i <= lines.len(),
            ls == seqs_view(lines@),
            ls == lines_of(output@),
            r@.map_values(|c: CommitInfo| commit_view(c)) == commits_from(ls.take(i as int)),
        decreases lines.len() - i,
    {
        proof {
            assert(ls.take(i + 1).drop_last() =~= ls.take(i as int));
            assert(ls.take(i + 1).last() == lines@[i as int]@);
        }
        let parts = split_exec(&lines[i], '|');
        if parts.len() >= 4 {
            let c = CommitInfo {
                hash: string_of(&parts[0]),
                date: string_of(&parts[1]),
                author: string_of(&parts[2]),
                message: string_of(&parts[3]),
            };
            let ghost before = r@;
            r.push(c);
            proof {
                assert(r@.map_values(|c: CommitInfo| commit_view(c)) =~= before.map_values(|c: CommitInfo| commit_view(c)).push(
                    commit_view(c),
                ));
            }
        }
        i = i + 1;
    }
    assert(ls.take(lines.len() as int) =~= ls);
    r
}

/// The author and count a `shortlog -sn` line gives: its first word as a count, the
/// other words joined by single spaces as the name; nothing when the line has fewer than
/// two words or its first word is not a count.
pub open spec fn author_of_line(l: Seq<char>) -> Option<(Seq<char>, nat)> {
    let ws = words(trim(l));
    if ws.len() >= 2 && parse_usize_of(ws[0]) is Some {
        Some((join_sep(ws.subrange(1, ws.len() as int), ' '), parse_usize_of(ws[0])->0))
    } else {
        None
    }
}

pub open spec fn authors_from(lines: Seq<Seq<char>>) -> Seq<(Seq<char>, nat)>
    decreases lines.len(),
{
    if lines.len() == 0 {
        Seq::empty()
    } else {
        let rest = authors_from(lines.drop_last());
        match author_of_line(lines.last()) {
            Some(a) => rest.push(a),
            None => rest,
        }
    }
}

pub open spec fn counted_view(v: Seq<(String, usize)>) -> Seq<(Seq<char>, nat)> {
    v.map_values(|a: (String, usize)| (a.0@, a.1 as nat))
}

/// The first `n` lines (all of them when there are fewer).
pub open spec fn first_lines(lines: Seq<Seq<char>>, n: nat) -> Seq<Seq<char>> {
    lines.take(at_most(n, lines.len()) as int)
}

/// Reads the contributors from `git shortlog -sn` output: of its first 10 lines, those
/// that name a count and an author.
pub fn parse_authors(output: &str) -> (r: Vec<(String, usize)>)
    ensures
        counted_view(r@) == authors_from(first_lines(lines_of(output@), 10)),
{
    let cs = chars_of(output);
    let lines = lines_exec(&cs);
    let ghost ls = seqs_view(lines@);
    let n = if lines.len() < 10 { lines.len() } else { 10 };
    let mut r: Vec<(String, usize)> = Vec::new();
    let mut i: usize = 0;
    while i < n
        invariant
            n <= lines.len(),
            n == at_most(10, ls.len()),
            i <= n,
            ls == seqs_view(lines@),
            counted_view(r@) == authors_from(ls.take(i as int)),
        decreases n - i,
    {
        proof {
            assert(ls.take(i + 1).drop_last() =~= ls.take(i as int));
            assert(ls.take(i + 1).last() == lines@[i as int]@);
        }
        let t = trim_exec(&lines[i]);
        let ws = words_exec(&t);
        if ws.len() >= 2 {
            match parse_usize(&ws[0]) {
                Some(count) => {
                    let name = join_range(&ws, 1, ws.len(), ' ');
                    let ghost before = r@;
                    r.push((string_of(&name), count));
                    proof {
                        assert(seqs_view(ws@)[0] == ws@[0]@);
                        assert(counted_view(r@) =~= counted_view(before).push((name@, count as nat)));
                    }
                },
                None => {
                    assert(seqs_view(ws@)[0] == ws@[0]@);
                },
            }
        }
        i = i + 1;
    }
    r
}

/// The changed paths a `log --name-only` output lists: its lines, trimmed, without the
/// empty ones.
pub open spec fn changed_paths(lines: Seq<Seq<char>>) -> Seq<Seq<char>>
    decreases lines.len(),
{
    if lines.len() == 0 {
        Seq::empty()
    } else {
        let rest = changed_paths(lines.drop_last());
        let t = trim(lines.last());
        if t.len() > 0 {
            rest.push(t)
        } else {
            rest
        }
    }
}

/// Each distinct path with the number of times it occurs, in the order of first occurrence.
pub open spec fn path_counts(ps: Seq<Seq<char>>) -> Seq<(Seq<char>, nat)>
    decreases ps.len(),
{
    if ps.len() == 0 {
        Seq::empty()
    } else {
        let g = path_counts(ps.drop_last());
        let p = ps.last();
        match key_index(g, p) {
            Some(k) => g.update(k, (p, g[k].1 + 1)),
            None => g.push((p, 1nat)),
        }
    }
}

pub open spec fn count_keys(pc: Seq<(Seq<char>, nat)>) -> Seq<usize> {
    pc.map_values(|x: (Seq<char>, nat)| x.1 as usize)
}

/// `out` lists the 10 most often changed paths with their counts, most first; paths
/// with equal counts in the order they first occur.
pub open spec fn is_hot_list(out: Seq<(Seq<char>, nat)>, pc: Seq<(Seq<char>, nat)>) -> bool {
    exists|perm: Seq<usize>|
        #[trigger] is_stable_order(count_keys(pc), perm, true)
            && out.len() == at_most(10, pc.len())
            && forall|i: int| 0 <= i < out.len() ==> out[i] == pc[perm[i] as int]
}

fn chars_eq(a: &Vec<char>, b: &Vec<char>) -> (r: bool)
    ensures
        r == (a@ == b@),
{
    if a.len() != b.len() {
        return false;
    }
    let mut i: usize = 0;
    while i < a.len()
        invariant
            i <= a.len(),
            a.len() == b.len(),
            forall|j: int| 0 <= j < i ==> a@[j] == b@[j],
        decreases a.len() - i,
    {
        if a[i] != b[i] {
            return false;
        }
        i = i + 1;
    }
    assert(a@ =~= b@);
    true
}

pub open spec fn pairs_view(v: Seq<(Vec<char>, usize)>) -> Seq<(Seq<char>, nat)> {
    v.map_values(|x: (Vec<char>, usize)| (x.0@, x.1 as nat))
}

proof fn lemma_counts_bounded(ps: Seq<Seq<char>>)
    ensures
        forall|k: int| 0 <= k < path_counts(ps).len() ==> (#[trigger] path_counts(ps)[k]).1 <= ps.len(),
    decreases ps.len(),
{
    if ps.len() > 0 {
        lemma_counts_bounded(ps.drop_last());
        lemma_key_index_range(path_counts(ps.drop_last()), ps.last());
    }
}

/// Counts how often each path occurs (see `path_counts`).
fn count_paths(ps: &Vec<Vec<char>>) -> (r: Vec<(Vec<char>, usize)>)
    ensures
        pairs_view(r@) == path_counts(seqs_view(ps@)),
{
    let ghost sv = seqs_view(ps@);
    let mut g: Vec<(Vec<char>, usize)> = Vec::new();
    let mut i: usize = 0;
    while i < ps.len()
        invariant
            i <= ps.len(),
            sv == seqs_view(ps@),
            pairs_view(g@) == path_counts(sv.take(i as int)),
        decreases ps.len() - i,
    {
        let ghost pc = path_counts(sv.take(i as int));
        let ghost p = sv[i as int];
        proof {
            assert(sv.take(i + 1).drop_last() =~= sv.take(i as int));
            assert(sv.take(i + 1).last() == p);
            lemma_counts_bounded(sv.take(i as int));
        }
        let mut k: usize = 0;
        while k < g.len() && !chars_eq(&g[k].0, &ps[i])
            invariant
                k <= g@.len(),
                pairs_view(g@) == pc,
                i < ps.len(),
                p == ps@[i as int]@,
                forall|q: int| 0 <= q < k ==> (#[trigger] pc[q]).0 != p,
            decreases g@.len() - k,
        {
            assert(pairs_view(g@)[k as int] == (g@[k as int].0@, g@[k as int].1 as nat));
            k = k + 1;
        }
        let ghost before = g@;
        if k < g.len() {
            proof {
                assert(pairs_view(g@)[k as int] == (g@[k as int].0@, g@[k as int].1 as nat));
                lemma_key_index_at(pc, p, k as int);
                assert(pc[k as int].1 <= i);
            }
            let c = g[k].1;
            g.set(k, (ps[i].clone(), c + 1));
            proof {
                assert(pairs_view(g@) =~= pc.update(k as int, (p, pc[k as int].1 + 1)));
            }
        } else {
            proof {
                lemma_key_index_none(pc, p);
            }
            g.push((ps[i].clone(), 1));
            proof {
                assert(pairs_view(g@) =~= pc.push((p, 1nat)));
            }
        }
        i = i + 1;
    }
    assert(sv.take(ps.len() as int) =~= sv);
    g
}

/// Reads the most often changed files from `git log --name-only --pretty=format:` output:
/// the 10 paths that occur most often, with their counts, most first. Paths with equal
/// counts come in the order they first occur in the log.
pub fn parse_hot_files(output: &str) -> (r: Vec<(String, usize)>)
    ensures
        is_hot_list(counted_view(r@), path_counts(changed_paths(lines_of(output@)))),
{
    let cs = chars_of(output);
    let lines = lines_exec(&cs);
    let ghost ls = seqs_view(lines@);
    let mut ps: Vec<Vec<char>> = Vec::new();
    let mut i: usize = 0;
    while i < lines.len()
        invariant
            i <= lines.len(),
            ls == seqs_view(lines@),
            seqs_view(ps@) == changed_paths(ls.take(i as int)),
        decreases lines.len() - i,
    {
        proof {
            assert(ls.take(i + 1).drop_last() =~= ls.take(i as int));
            assert(ls.take(i + 1).last() == lines@[i as int]@);
        }
        let t = trim_exec(&lines[i]);
        if t.len() > 0 {
            let ghost before = ps@;
            let ghost tv = t@;
            ps.push(t);
            proof {
                assert(seqs_view(ps@) =~= seqs_view(before).push(tv));
            }
        }
        i = i + 1;
    }
    assert(ls.take(lines.len() as int) =~= ls);
    let pairs = count_paths(&ps);
    let ghost pc = pairs_view(pairs@);
    let mut keys: Vec<usize> = Vec::new();
    let mut j: usize = 0;
    while j < pairs.len()
        invariant
            j <= pairs.len(),
            pc == pairs_view(pairs@),
            keys@ == count_keys(pc.take(j as int)),
        decreases pairs.len() - j,
    {
        keys.push(pairs[j].1);
        j = j + 1;
        assert(keys@ =~= count_keys(pc.take(j as int)));
    }
    assert(pc.take(pairs.len() as int) =~= pc);
    let perm = stable_order(&keys, true);
    let n = if pairs.len() < 10 { pairs.len() } else { 10 };
    let mut r: Vec<(String, usize)> = Vec::new();
    let mut q: usize = 0;
    while q < n
        invariant
            n <= pairs.len(),
            pc == pairs_view(pairs@),
            perm@.len() == pairs.len(),
            forall|x: int| 0 <= x < perm@.len() ==> (#[trigger] perm@[x]) < pairs.len(),
            q <= n,
            r@.len() == q,
            forall|x: int| 0 <= x < q ==> (#[trigger] counted_view(r@)[x]) == pc[perm@[x] as int],
        decreases n - q,
    {
        let p = perm[q];
        let ghost before = r@;
        r.push((string_of(&pairs[p].0), pairs[p].1));
        proof {
            assert forall|x: int| 0 <= x < q + 1 implies (#[trigger] counted_view(r@)[x]) == pc[perm@[x] as int] by {
                if x < q {
                    assert(counted_view(r@)[x] == counted_view(before)[x]);
                }
            }
        }
        q = q + 1;
    }
    assert(is_stable_order(count_keys(pc), perm@, true));
    r
}

/// The trimmed output of a command, or `unknown` when it failed.
pub open spec fn or_unknown(o: Option<String>) -> Seq<char> {
    match o {
        Some(s) => trim(s@),
        None => "unknown"@,
    }
}

fn or_unknown_exec(o: &Option<String>) -> (r: String)
    ensures
        r@ == or_unknown(*o),
{
    match o {
        Some(s) => {
            let cs = chars_of(s.as_str());
            let t = trim_exec(&cs);
            string_of(&t)
        },
        None => String::from_str("unknown"),
    }
}

/// The number of commits: the trimmed count as a number, 0 when it is not one.
pub open spec fn commit_total(s: Seq<char>) -> nat {
    match parse_usize_of(trim(s)) {
        Some(v) => v,
        None => 0,
    }
}

/// The report is what the outputs say (see `GitOutputs`).
pub open spec fn is_git_report(r: GitReport, root: String, o: GitOutputs) -> bool {
    &&& r.root == root
    &&& r.branch@ == or_unknown(o.branch)
    &&& r.total_commits == commit_total(o.commit_count->0@)
    &&& r.last_commit_date@ == or_unknown(o.last_commit_date)
    &&& r.recent_commits@.map_values(|c: CommitInfo| commit_view(c)) == commits_from(lines_of(o.log->0@))
    &&& counted_view(r.top_authors@) == authors_from(first_lines(lines_of(o.shortlog->0@), 10))
    &&& is_hot_list(counted_view(r.hot_files@), path_counts(changed_paths(lines_of(o.changed_files->0@))))
}

/// Summarises the history of the repository at `root` from what the `git` commands printed.
/// Fails when the commit count, the log, the shortlog or the changed-files listing is
/// missing; a missing branch or last date reads `unknown`.
pub fn analyze_git_history(root: String, outputs: GitOutputs) -> (r: Result<GitReport, GitError>)
    ensures
        (outputs.commit_count is None || outputs.log is None || outputs.shortlog is None
            || outputs.changed_files is None) <==> r is Err,
        r matches Ok(rep) ==> is_git_report(rep, root, outputs),
{
    let branch = or_unknown_exec(&outputs.branch);
    let count_text_opt = match &outputs.commit_count {
        Some(s) => s,
        None => return Err(GitError::CommandFailed),
    };
    let cc = chars_of(count_text_opt.as_str());
    let ct = trim_exec(&cc);
    let total: usize = match parse_usize(&ct) {
        Some(v) => v,
        None => 0,
    };
    let date = or_unknown_exec(&outputs.last_commit_date);
    let commits = match &outputs.log {
        Some(s) => parse_commits(s.as_str()),
        None => return Err(GitError::CommandFailed),
    };
    let authors = match &outputs.shortlog {
        Some(s) => parse_authors(s.as_str()),
        None => return Err(GitError::CommandFailed),
    };
    let hot = match &outputs.changed_files {
        Some(s) => parse_hot_files(s.as_str()),
        None => return Err(GitError::CommandFailed),
    };
    Ok(GitReport {
        root,
        branch,
        total_commits: total,
        last_commit_date: date,
        recent_commits: commits,
        top_authors: authors,
        hot_files: hot,
    })
}

pub open spec fn commit_line(c: CommitInfo) -> Seq<char> {
    "  "@ + c.hash@ + " ("@ + c.date@ + "): "@ + c.author@ + " - "@ + c.message@ + "\n"@
}

pub open spec fn author_line(a: (String, usize)) -> Seq<char> {
    "  "@ + a.0@ + ": "@ + count_text(a.1 as nat) + " 커밋\n"@
}

pub open spec fn hot_line(a: (String, usize)) -> Seq<char> {
    "  "@ + a.0@ + " ("@ + count_text(a.1 as nat) + " 번)\n"@
}

pub open spec fn commits_block(c: Seq<CommitInfo>) -> Seq<char> {
    if c.len() == 0 {
        Seq::empty()
    } else {
        "■ 최근 커밋 (20개)\n"@ + concat_all(c.map_values(|x: CommitInfo| commit_line(x))) + "\n"@
    }
}

pub open spec fn authors_block(a: Seq<(String, usize)>) -> Seq<char> {
    if a.len() == 0 {
        Seq::empty()
    } else {
        "■ 주요 기여자\n"@ + concat_all(a.map_values(|x: (String, usize)| author_line(x))) + "\n"@
    }
}

pub open spec fn hot_block(a: Seq<(String, usize)>) -> Seq<char> {
    if a.len() == 0 {
        Seq::empty()
    } else {
        "■ 자주 변경된 파일 (Top 10)\n"@ + concat_all(a.map_values(|x: (String, usize)| hot_line(x)))
    }
}

/// The text of a Git report.
pub open spec fn git_report_text(r: GitReport) -> Seq<char> {
    "경로: "@ + r.root@ + "\n브랜치: "@ + r.branch@ + "\n총 커밋: "@ + count_text(r.total_commits as nat)
        + "\n마지막 커밋: "@ + r.last_commit_date@ + "\n\n"@ + commits_block(r.recent_commits@)
        + authors_block(r.top_authors@) + hot_block(r.hot_files@)
}

fn push_commit_line(out: &mut String, c: &CommitInfo)
    ensures
        final(out)@ == old(out)@ + commit_line(*c),
{
    push_str(out, "  ");
    push_str(out, c.hash.as_str());
    push_str(out, " (");
    push_str(out, c.date.as_str());
    push_str(out, "): ");
    push_str(out, c.author.as_str());
    push_str(out, " - ");
    push_str(out, c.message.as_str());
    push_str(out, "\n");
    assert(out@ =~= old(out)@ + commit_line(*c));
}

fn push_commits(out: &mut String, c: &Vec<CommitInfo>)
    ensures
        final(out)@ == old(out)@ + commits_block(c@),
{
    if c.len() == 0 {
        assert(old(out)@ + Seq::<char>::empty() =~= old(out)@);
        return;
    }
    push_str(out, "■ 최근 커밋 (20개)\n");
    let ghost head = out@;
    let ghost parts = c@.map_values(|x: CommitInfo| commit_line(x));
    let mut i: usize = 0;
    assert(parts.take(0) =~= Seq::<Seq<char>>::empty());
    while i < c.len()
        invariant
            i <= c.len(),
            parts == c@.map_values(|x: CommitInfo| commit_line(x)),
            out@ == head + concat_all(parts.take(i as int)),
        decreases c.len() - i,
    {
        push_commit_line(out, &c[i]);
        proof {
            assert(parts.take(i + 1) =~= parts.take(i as int).push(parts[i as int]));
            lemma_concat_push(parts.take(i as int), parts[i as int]);
        }
        i = i + 1;
    }
    assert(parts.take(c.len() as int) =~= parts);
    push_str(out, "\n");
    assert(out@ =~= old(out)@ + commits_block(c@));
}

fn push_counted_line(out: &mut String, a: &(String, usize), hot: bool)
    ensures
        final(out)@ == old(out)@ + if hot { hot_line(*a) } else { author_line(*a) },
{
    push_str(out, "  ");
    push_str(out, a.0.as_str());
    if hot {
        push_str(out, " (");
        push_count(out, a.1);
        push_str(out, " 번)\n");
        assert(out@ =~= old(out)@ + hot_line(*a));
    } else {
        push_str(out, ": ");
        push_count(out, a.1);
        push_str(out, " 커밋\n");
        assert(out@ =~= old(out)@ + author_line(*a));
    }
}

fn push_authors(out: &mut String, a: &Vec<(String, usize)>)
    ensures
        final(out)@ == old(out)@ + authors_block(a@),
{
    if a.len() == 0 {
        assert(old(out)@ + Seq::<char>::empty() =~= old(out)@);
        return;
    }
    push_str(out, "■ 주요 기여자\n");
    let ghost head = out@;
    let ghost parts = a@.map_values(|x: (String, usize)| author_line(x));
    let mut i: usize = 0;
    assert(parts.take(0) =~= Seq::<Seq<char>>::empty());
    while i < a.len()
        invariant
            i <= a.len(),
            parts == a@.map_values(|x: (String, usize)| author_line(x)),
            out@ == head + concat_all(parts.take(i as int)),
        decreases a.len() - i,
    {
        push_counted_line(out, &a[i], false);
        proof {
            assert(parts.take(i + 1) =~= parts.take(i as int).push(parts[i as int]));
            lemma_concat_push(parts.take(i as int), parts[i as int]);
        }
        i = i + 1;
    }
    assert(parts.take(a.len() as int) =~= parts);
    push_str(out, "\n");
    assert(out@ =~= old(out)@ + authors_block(a@));
}

fn push_hot(out: &mut String, a: &Vec<(String, usize)>)
    ensures
        final(out)@ == old(out)@ + hot_block(a@),
{
    if a.len() == 0 {
        assert(old(out)@ + Seq::<char>::empty() =~= old(out)@);
        return;
    }
    push_str(out, "■ 자주 변경된 파일 (Top 10)\n");
    let ghost head = out@;
    let ghost parts = a@.map_values(|x: (String, usize)| hot_line(x));
    let mut i: usize = 0;
    assert(parts.take(0) =~= Seq::<Seq<char>>::empty());
    while i < a.len()
        invariant
            i <= a.len(),
            parts == a@.map_values(|x: (String, usize)| hot_line(x)),
            out@ == head + concat_all(parts.take(i as int)),
        decreases a.len() - i,
    {
        push_counted_line(out, &a[i], true);
        proof {
            assert(parts.take(i + 1) =~= parts.take(i as int).push(parts[i as int]));
            lemma_concat_push(parts.take(i as int), parts[i as int]);
        }
        i = i + 1;
    }
    assert(parts.take(a.len() as int) =~= parts);
    assert(out@ =~= old(out)@ + hot_block(a@));
}

/// The text of a Git report: the summary, the recent commits, the contributors and the
/// most often changed files.
pub fn format_report(report: &GitReport) -> (s: String)
    ensures
        s@ == git_report_text(*report),
{
    let mut s = String::new();
    push_str(&mut s, "경로: ");
    push_str(&mut s, report.root.as_str());
    push_str(&mut s, "\n브랜치: ");
    push_str(&mut s, report.branch.as_str());
    push_str(&mut s, "\n총 커밋: ");
    push_count(&mut s, report.total_commits);
    push_str(&mut s, "\n마지막 커밋: ");
    push_str(&mut s, report.last_commit_date.as_str());
    push_str(&mut s, "\n\n");
    push_commits(&mut s, &report.recent_commits);
    push_authors(&mut s, &report.top_authors);
    push_hot(&mut s, &report.hot_files);
    assert(s@ =~= git_report_text(*report));
    s
}

} // verus!
