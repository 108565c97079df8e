//! Settings, file notes and saved operation sequences (macros).

use vstd::prelude::*;
use crate::commands::{PlannedOp, copy_ops};
use crate::text::{chars_of, string_of, words, words_exec, seqs_view};
use crate::order::{lex_le, lemma_lex_antisym, stable_order, is_stable_order, index_listed};

verus! {

#[derive(Debug, Clone)]
pub struct Config {
    pub ui: UiConfig,
    pub behavior: BehaviorConfig,
    pub bookmarks: Vec<Bookmark>,
    pub history: HistoryConfig,
}

/// The folders the panels showed when the program last quit.
#[derive(Debug, Clone)]
pub struct HistoryConfig {
    pub last_left_path: Option<String>,
    pub last_right_path: Option<String>,
}

#[derive(Debug, Clone)]
pub struct UiConfig {
    pub show_hidden: bool,
    pub use_icons: bool,
    pub color_scheme: String,
}

#[derive(Debug, Clone)]
pub struct BehaviorConfig {
    pub confirm_delete: bool,
    pub default_sort: String,
}

#[derive(Debug, Clone)]
pub struct Bookmark {
    pub name: String,
    pub path: String,
}

impl Default for HistoryConfig {
    fn default() -> (h: HistoryConfig)
        ensures
            h.last_left_path is None,
            h.last_right_path is None,
    {
        HistoryConfig { last_left_path: None, last_right_path: None }
    }
}

impl Default for Config {
    /// Hidden files not shown, icons on, the default scheme; deleting asks first; sorted by
    /// name; no bookmarks, no history.
    fn default() -> (c: Config)
        ensures
            !c.ui.show_hidden,
            c.ui.use_icons,
            c.ui.color_scheme@ == "default"@,
            c.behavior.confirm_delete,
            c.behavior.default_sort@ == "name"@,
            c.bookmarks@.len() == 0,
            c.history.last_left_path is None,
            c.history.last_right_path is None,
    {
        Config {
            ui: UiConfig { show_hidden: false, use_icons: true, color_scheme: String::from_str("default") },
            behavior: BehaviorConfig { confirm_delete: true, default_sort: String::from_str("name") },
            bookmarks: Vec::new(),
            history: HistoryConfig::default(),
        }
    }
}

/// A file's note: its text, its tags and when it was last set (seconds since the Unix epoch).
#[derive(Debug, Clone)]
pub struct FileNote {
    pub memo: String,
    pub tags: Vec<String>,
    pub updated_at: i64,
}

/// The current time in seconds since the Unix epoch.
#[verifier::external_body]
fn now_seconds() -> i64 {
    chrono::Local::now().timestamp()
}

/// The tags of a note: its words that start with `#`, without their leading `#`s.
pub open spec fn tags_of(words: Seq<Seq<char>>) -> Seq<Seq<char>>
    decreases words.len(),
{
    if words.len() == 0 {
        Seq::empty()
    } else {
        let rest = tags_of(words.drop_last());
        let w = words.last();
        if w.len() > 0 && w[0] == '#' {
            rest.push(drop_hashes(w))
        } else {
            rest
        }
    }
}

/// `w` without its leading `#`s.
pub open spec fn drop_hashes(w: Seq<char>) -> Seq<char>
    decreases w.len(),
{
    if w.len() > 0 && w[0] == '#' {
        drop_hashes(w.drop_first())
    } else {
        w
    }
}

fn drop_hashes_exec(w: &Vec<char>) -> (r: Vec<char>)
    ensures
        r@ == drop_hashes(w@),
{
    let mut i: usize = 0;
    assert(w@.skip(0) =~= w@);
    while i < w.len() && w[i] == '#'
        invariant
            i <= w.len(),
            drop_hashes(w@) == drop_hashes(w@.skip(i as int)),
        decreases w.len() - i,
    {
        assert(w@.skip(i as int).drop_first() =~= w@.skip(i + 1));
        i = i + 1;
    }
    let mut r: Vec<char> = Vec::new();
    let mut k: usize = i;
    while k < w.len()
        invariant
            i <= k <= w.len(),
            r@ == w@.subrange(i as int, k as int),
        decreases w.len() - k,
    {
        r.push(w[k]);
        k = k + 1;
        assert(r@ =~= w@.subrange(i as int, k as int));
    }
    assert(r@ =~= w@.skip(i as int));
    r
}

/// The tags written in a note (see `tags_of`).
pub fn note_tags(memo: &str) -> (r: Vec<String>)
    ensures
        r@.map_values(|s: String| s@) == tags_of(words(memo@)),
{
    let cs = chars_of(memo);
    let ws = words_exec(&cs);
    let ghost wv = seqs_view(ws@);
    let mut r: Vec<String> = Vec::new();
    let mut i: usize = 0;
    while i < ws.len()
        invariant
            i <= ws.len(),
            wv == seqs_view(ws@),
            r@.map_values(|s: String| s@) == tags_of(wv.take(i as int)),
        decreases ws.len() - i,
    {
        proof {
            assert(wv.take(i + 1).drop_last() =~= wv.take(i as int));
            assert(wv.take(i + 1).last() == ws@[i as int]@);
        }
        if ws[i].len() > 0 && ws[i][0] == '#' {
            let t = drop_hashes_exec(&ws[i]);
            let ghost before = r@;
            r.push(string_of(&t));
            assert(r@.map_values(|s: String| s@) =~= before.map_values(|s: String| s@).push(t@));
        }
        i = i + 1;
    }
    assert(wv.take(ws.len() as int) =~= wv);
    r
}

/// The keys of key/value pairs.
pub open spec fn keys_of<V>(ps: Seq<(String, V)>) -> Seq<Seq<char>> {
    ps.map_values(|p: (String, V)| p.0@)
}

/// No key occurs twice.
pub open spec fn distinct_keys<V>(ps: Seq<(String, V)>) -> bool {
    forall|i: int, j: int| 0 <= i < j < ps.len() ==> ps[i].0@ != ps[j].0@
}

/// The pairs as a map from key text to value.
pub open spec fn pairs_map<V>(ps: Seq<(String, V)>) -> Map<Seq<char>, V>
    decreases ps.len(),
{
    if ps.len() == 0 {
        Map::empty()
    } else {
        pairs_map(ps.drop_last()).insert(ps.last().0@, ps.last().1)
    }
}

proof fn lemma_pairs_map_dom<V>(ps: Seq<(String, V)>)
    ensures
        pairs_map(ps).dom() == keys_of(ps).to_set(),
        pairs_map(ps).dom().finite(),
    decreases ps.len(),
{
    if ps.len() > 0 {
        lemma_pairs_map_dom(ps.drop_last());
        assert(keys_of(ps) =~= keys_of(ps.drop_last()).push(ps.last().0@));
        keys_of(ps.drop_last()).lemma_push_to_set_commute(ps.last().0@);
    } else {
        assert(keys_of(ps).to_set() =~= Set::<Seq<char>>::empty());
    }
}

proof fn lemma_pairs_map_at<V>(ps: Seq<(String, V)>, i: int)
    requires
        distinct_keys(ps),
        0 <= i < ps.len(),
    ensures
        pairs_map(ps).dom().contains(ps[i].0@),
        pairs_map(ps)[ps[i].0@] == ps[i].1,
    decreases ps.len(),
{
    if i < ps.len() - 1 {
        lemma_pairs_map_at(ps.drop_last(), i);
    }
}

proof fn lemma_pairs_map_update<V>(ps: Seq<(String, V)>, i: int, p: (String, V))
    requires
        distinct_keys(ps),
        0 <= i < ps.len(),
        p.0@ == ps[i].0@,
    ensures
        pairs_map(ps.update(i, p)) == pairs_map(ps).insert(ps[i].0@, p.1),
        distinct_keys(ps.update(i, p)),
    decreases ps.len(),
{
    let qs = ps.update(i, p);
    if i == ps.len() - 1 {
        assert(qs.drop_last() =~= ps.drop_last());
        assert(pairs_map(qs) =~= pairs_map(ps).insert(ps[i].0@, p.1));
    } else {
        lemma_pairs_map_update(ps.drop_last(), i, p);
        assert(qs.drop_last() =~= ps.drop_last().update(i, p));
        assert(pairs_map(qs) =~= pairs_map(ps).insert(ps[i].0@, p.1));
    }
}

fn find_key<V>(ps: &Vec<(String, V)>, key: &str) -> (r: Option<usize>)
    ensures
        match r {
            Some(i) => i < ps@.len() && ps@[i as int].0@ == key@,
            None => forall|i: int| 0 <= i < ps@.len() ==> (#[trigger] ps@[i]).0@ != key@,
        },
{
    let k = String::from_str(key);
    let mut i: usize = 0;
    while i < ps.len()
        invariant
            i <= ps.len(),
            k@ == key@,
            forall|j: int| 0 <= j < i ==> (#[trigger] ps@[j]).0@ != key@,
        decreases ps.len() - i,
    {
        if ps[i].0.eq(&k) {
            return Some(i);
        }
        i = i + 1;
    }
    None
}

/// The keys in ascending order, each once (keys assumed distinct).
fn sorted_keys<V>(ps: &Vec<(String, V)>) -> (r: Vec<String>)
    requires
        distinct_keys(ps@),
    ensures
        r@.len() == ps@.len(),
        r@.map_values(|s: String| s@).to_set() == keys_of(ps@).to_set(),
        forall|i: int, j: int| #![trigger r@[i], r@[j]] 0 <= i < j < r@.len() ==> lex_le(r@[i]@, r@[j]@) && r@[i]@ != r@[j]@,
{
    let mut keys: Vec<Vec<char>> = Vec::new();
    let mut i: usize = 0;
    while i < ps.len()
        invariant
            i <= ps.len(),
            keys@.len() == i,
            forall|j: int| 0 <= j < i ==> (#[trigger] keys@[j])@ == ps@[j].0@,
        decreases ps.len() - i,
    {
        keys.push(chars_of(ps[i].0.as_str()));
        i = i + 1;
    }
    let perm = stable_order(&keys, false);
    let mut r: Vec<String> = Vec::new();
    let mut q: usize = 0;
    while q < perm.len()
        invariant
            q <= perm.len(),
            keys@.len() == ps@.len(),
            forall|j: int| 0 <= j < keys@.len() ==> (#[trigger] keys@[j])@ == ps@[j].0@,
            is_stable_order(keys@, perm@, false),
            r@.len() == q,
            forall|j: int| 0 <= j < q ==> (#[trigger] r@[j]) == ps@[perm@[j] as int].0,
        decreases perm.len() - q,
    {
        let p = perm[q];
        r.push(ps[p].0.clone());
        q = q + 1;
    }
    proof {
        let rv = r@.map_values(|s: String| s@);
        let kv = keys_of(ps@);
        assert forall|x: Seq<char>| rv.to_set().contains(x) <==> kv.to_set().contains(x) by {
            if rv.to_set().contains(x) {
                let j = choose|j: int| 0 <= j < rv.len() && rv[j] == x;
                assert(kv[perm@[j] as int] == x);
            }
            if kv.to_set().contains(x) {
                let j = choose|j: int| 0 <= j < kv.len() && kv[j] == x;
                assert(index_listed(perm@, j));
                let t = choose|t: int| 0 <= t < perm@.len() && perm@[t] == j;
                assert(rv[t] == x);
            }
        }
        assert(rv.to_set() =~= kv.to_set());
        assert forall|i: int, j: int| 0 <= i < j < r@.len() implies lex_le(r@[i]@, r@[j]@) && r@[i]@ != r@[j]@ by {
            assert(keys@[perm@[i] as int]@ == r@[i]@);
            assert(keys@[perm@[j] as int]@ == r@[j]@);
            assert(perm@[i] != perm@[j]);
        }
    }
    r
}

/// Saved sequences of operations by name.
pub struct MacrosStore {
    macros: Vec<(String, Vec<PlannedOp>)>,
}

impl View for MacrosStore {
    type V = Map<Seq<char>, Seq<PlannedOp>>;

    closed spec fn view(&self) -> Map<Seq<char>, Seq<PlannedOp>> {
        pairs_map(self.macros@).map_values(|v: Vec<PlannedOp>| v@)
    }
}

impl MacrosStore {
    #[verifier::type_invariant]
    spec fn names_distinct(self) -> bool {
        distinct_keys(self.macros@)
    }

    /// No macros.
    pub fn default() -> (s: MacrosStore)
        ensures
            s@ == Map::<Seq<char>, Seq<PlannedOp>>::empty(),
    {
        let s = MacrosStore { macros: Vec::new() };
        assert(s@ =~= Map::<Seq<char>, Seq<PlannedOp>>::empty());
        s
    }

    /// Saves `ops` under `name`, replacing what was saved under it.
    pub fn add(&mut self, name: String, ops: Vec<PlannedOp>)
        ensures
            final(self)@ == old(self)@.insert(name@, ops@),
    {
        proof {
            use_type_invariant(&*self);
        }
        let ghost before = self.macros@;
        let mut v: Vec<(String, Vec<PlannedOp>)> = Vec::new();
        std::mem::swap(&mut v, &mut self.macros);
        assert(v@ == before);
        match find_key(&v, name.as_str()) {
            Some(i) => {
                v.set(i, (name, ops));
                proof {
                    assert(v@ =~= before.update(i as int, v@[i as int]));
                    lemma_pairs_map_update(before, i as int, v@[i as int]);
                }
            },
            None => {
                v.push((name, ops));
                proof {
                    assert(v@.drop_last() =~= before);
                }
            },
        }
        self.macros = v;
        proof {
            assert(self@ =~= old(self)@.insert(name@, ops@));
        }
    }

    /// The operations saved under `name`.
    pub fn get(&self, name: &str) -> (r: Option<&Vec<PlannedOp>>)
        ensures
            self@.dom().contains(name@) <==> r is Some,
            r matches Some(v) ==> v@ == self@[name@],
    {
        proof {
            use_type_invariant(self);
            lemma_pairs_map_dom(self.macros@);
        }
        match find_key(&self.macros, name) {
            Some(i) => {
                proof {
                    lemma_pairs_map_at(self.macros@, i as int);
                }
                Some(&self.macros[i].1)
            },
            None => {
                proof {
                    if keys_of(self.macros@).contains(name@) {
                        let j = choose|j: int| 0 <= j < keys_of(self.macros@).len() && keys_of(self.macros@)[j] == name@;
                        assert(self.macros@[j].0@ == name@);
                    }
                }
                None
            },
        }
    }

    /// The names, in ascending order.
    pub fn list(&self) -> (r: Vec<String>)
        ensures
            r@.map_values(|s: String| s@).to_set() == self@.dom(),
            r@.len() == self@.dom().len(),
            forall|i: int, j: int| 0 <= i < j < r@.len() ==> lex_le(r@[i]@, r@[j]@) && r@[i]@ != r@[j]@,
    {
        proof {
            use_type_invariant(self);
            lemma_pairs_map_dom(self.macros@);
        }
        let r = sorted_keys(&self.macros);
        proof {
            let rv = r@.map_values(|s: String| s@);
            assert forall|i: int, j: int| 0 <= i < j < rv.len() implies rv[i] != rv[j] by {
                assert(rv[i] == r@[i]@ && rv[j] == r@[j]@);
                assert(r@[i]@ != r@[j]@);
            }
            rv.unique_seq_to_set();
        }
        r
    }

    /// All saved macros as name and operations.
    pub fn entries(&self) -> (r: Vec<(String, Vec<PlannedOp>)>)
        ensures
            pairs_map(r@).map_values(|v: Vec<PlannedOp>| v@) == self@,
            distinct_keys(r@),
    {
        proof {
            use_type_invariant(self);
        }
        let mut r: Vec<(String, Vec<PlannedOp>)> = Vec::new();
        let mut i: usize = 0;
        while i < self.macros.len()
            invariant
                i <= self.macros.len(),
                distinct_keys(self.macros@),
                r@.len() == i,
                forall|j: int| 0 <= j < i ==> (#[trigger] r@[j]).0 == self.macros@[j].0 && r@[j].1@ == self.macros@[j].1@,
            decreases self.macros.len() - i,
        {
            r.push((self.macros[i].0.clone(), copy_ops(&self.macros[i].1)));
            i = i + 1;
        }
        proof {
            lemma_pairs_map_views(r@, self.macros@);
        }
        r
    }

    /// The store holding `pairs`; a later pair for the same name replaces an earlier one.
    pub fn from_entries(pairs: Vec<(String, Vec<PlannedOp>)>) -> (s: MacrosStore)
        ensures
            s@ == pairs_map(pairs@).map_values(|v: Vec<PlannedOp>| v@),
    {
        let mut s = MacrosStore::default();
        let mut i: usize = 0;
        assert(pairs@.take(0) =~= Seq::<(String, Vec<PlannedOp>)>::empty());
        assert(s@ =~= pairs_map(pairs@.take(0)).map_values(|v: Vec<PlannedOp>| v@));
        while i < pairs.len()
            invariant
                i <= pairs.len(),
                s@ == pairs_map(pairs@.take(i as int)).map_values(|v: Vec<PlannedOp>| v@),
            decreases pairs.len() - i,
        {
            s.add(pairs[i].0.clone(), copy_ops(&pairs[i].1));
            proof {
                assert(pairs@.take(i + 1).drop_last() =~= pairs@.take(i as int));
                assert(pairs@.take(i + 1).last() == pairs@[i as int]);
                assert(s@ =~= pairs_map(pairs@.take(i + 1)).map_values(|v: Vec<PlannedOp>| v@));
            }
            i = i + 1;
        }
        assert(pairs@.take(pairs.len() as int) =~= pairs@);
        s
    }
}

proof fn lemma_pairs_map_views(r: Seq<(String, Vec<PlannedOp>)>, m: Seq<(String, Vec<PlannedOp>)>)
    requires
        r.len() == m.len(),
        forall|j: int| 0 <= j < r.len() ==> (#[trigger] r[j]).0 == m[j].0 && r[j].1@ == m[j].1@,
    ensures
        pairs_map(r).map_values(|v: Vec<PlannedOp>| v@) == pairs_map(m).map_values(|v: Vec<PlannedOp>| v@),
        distinct_keys(m) ==> distinct_keys(r),
    decreases r.len(),
{
    if r.len() > 0 {
        lemma_pairs_map_views(r.drop_last(), m.drop_last());
        assert(r.last().1@ == m.last().1@);
        assert(r.last().0 == m.last().0);
        let f = |v: Vec<PlannedOp>| v@;
        assert(pairs_map(r).map_values(f) =~= pairs_map(r.drop_last()).map_values(f).insert(r.last().0@, r.last().1@));
        assert(pairs_map(m).map_values(f) =~= pairs_map(m.drop_last()).map_values(f).insert(m.last().0@, m.last().1@));
        assert(pairs_map(r).map_values(|v: Vec<PlannedOp>| v@) =~= pairs_map(m).map_values(|v: Vec<PlannedOp>| v@));
    } else {
        assert(pairs_map(r).map_values(|v: Vec<PlannedOp>| v@) =~= pairs_map(m).map_values(|v: Vec<PlannedOp>| v@));
    }
}

/// A note as plain values: text, tags, time.
pub open spec fn note_view(n: FileNote) -> (Seq<char>, Seq<Seq<char>>, i64) {
    (n.memo@, n.tags@.map_values(|t: String| t@), n.updated_at)
}

/// Notes on files, by path.
pub struct NotesStore {
    notes: Vec<(String, FileNote)>,
}

impl View for NotesStore {
    type V = Map<Seq<char>, (Seq<char>, Seq<Seq<char>>, i64)>;

    closed spec fn view(&self) -> Map<Seq<char>, (Seq<char>, Seq<Seq<char>>, i64)> {
        pairs_map(self.notes@).map_values(|n: FileNote| note_view(n))
    }
}

fn copy_strings(v: &Vec<String>) -> (r: Vec<String>)
    ensures
        r@ == v@,
{
    let mut r: Vec<String> = Vec::new();
    let mut i: usize = 0;
    while i < v.len()
        invariant
            i <= v.len(),
            r@ == v@.take(i as int),
        decreases v.len() - i,
    {
        r.push(v[i].clone());
        i = i + 1;
        assert(r@ =~= v@.take(i as int));
    }
    assert(v@.take(v.len() as int) =~= v@);
    r
}

fn copy_note(n: &FileNote) -> (r: FileNote)
    ensures
        note_view(r) == note_view(*n),
{
    FileNote { memo: n.memo.clone(), tags: copy_strings(&n.tags), updated_at: n.updated_at }
}

proof fn lemma_note_views(r: Seq<(String, FileNote)>, m: Seq<(String, FileNote)>)
    requires
        r.len() == m.len(),
        forall|j: int| 0 <= j < r.len() ==> (#[trigger] r[j]).0 == m[j].0 && note_view(r[j].1) == note_view(m[j].1),
    ensures
        pairs_map(r).map_values(|n: FileNote| note_view(n)) == pairs_map(m).map_values(|n: FileNote| note_view(n)),
        distinct_keys(m) ==> distinct_keys(r),
    decreases r.len(),
{
    let f = |n: FileNote| note_view(n);
    if r.len() > 0 {
        lemma_note_views(r.drop_last(), m.drop_last());
        assert(r.last().0 == m.last().0);
        assert(pairs_map(r).map_values(f) =~= pairs_map(r.drop_last()).map_values(f).insert(r.last().0@, note_view(r.last().1)));
        assert(pairs_map(m).map_values(f) =~= pairs_map(m.drop_last()).map_values(f).insert(m.last().0@, note_view(m.last().1)));
    } else {
        assert(pairs_map(r).map_values(f) =~= pairs_map(m).map_values(f));
    }
}

impl NotesStore {
    #[verifier::type_invariant]
    spec fn paths_distinct(self) -> bool {
        distinct_keys(self.notes@)
    }

    /// No notes.
    pub fn default() -> (s: NotesStore)
        ensures
            s@ == Map::<Seq<char>, (Seq<char>, Seq<Seq<char>>, i64)>::empty(),
    {
        let s = NotesStore { notes: Vec::new() };
        assert(s@ =~= Map::<Seq<char>, (Seq<char>, Seq<Seq<char>>, i64)>::empty());
        s
    }

    /// The note on the file at `path`.
    pub fn get_note(&self, path: &str) -> (r: Option<&FileNote>)
        ensures
            self@.dom().contains(path@) <==> r is Some,
            r matches Some(n) ==> note_view(*n) == self@[path@],
    {
        proof {
            use_type_invariant(self);
            lemma_pairs_map_dom(self.notes@);
        }
        match find_key(&self.notes, path) {
            Some(i) => {
                proof {
                    lemma_pairs_map_at(self.notes@, i as int);
                }
                Some(&self.notes[i].1)
            },
            None => {
                proof {
                    if keys_of(self.notes@).contains(path@) {
                        let j = choose|j: int| 0 <= j < keys_of(self.notes@).len() && keys_of(self.notes@)[j] == path@;
                        assert(self.notes@[j].0@ == path@);
                    }
                }
                None
            },
        }
    }

    fn put(&mut self, path: String, note: FileNote)
        ensures
            final(self)@ == old(self)@.insert(path@, note_view(note)),
    {
        proof {
            use_type_invariant(&*self);
        }
        let ghost before = self.notes@;
        let ghost nv = note_view(note);
        let mut v: Vec<(String, FileNote)> = Vec::new();
        std::mem::swap(&mut v, &mut self.notes);
        assert(v@ == before);
        match find_key(&v, path.as_str()) {
            Some(i) => {
                v.set(i, (path, note));
                proof {
                    assert(v@ =~= before.update(i as int, v@[i as int]));
                    lemma_pairs_map_update(before, i as int, v@[i as int]);
                }
            },
            None => {
                v.push((path, note));
                proof {
                    assert(v@.drop_last() =~= before);
                }
            },
        }
        self.notes = v;
        proof {
            assert(self@ =~= old(self)@.insert(path@, nv));
        }
    }

    /// Sets the note on the file at `path`, stamped with the current time.
    pub fn set_note(&mut self, path: String, memo: String, tags: Vec<String>)
        ensures
            final(self)@ == old(self)@.insert(path@, (memo@, tags@.map_values(|s: String| s@), final(self)@[path@].2)),
    {
        let note = FileNote { memo, tags, updated_at: now_seconds() };
        let ghost t = note.updated_at;
        self.put(path, note);
    }

    /// All notes as path and note.
    pub fn entries(&self) -> (r: Vec<(String, FileNote)>)
        ensures
            pairs_map(r@).map_values(|n: FileNote| note_view(n)) == self@,
            distinct_keys(r@),
    {
        proof {
            use_type_invariant(self);
        }
        let mut r: Vec<(String, FileNote)> = Vec::new();
        let mut i: usize = 0;
        while i < self.notes.len()
            invariant
                i <= self.notes.len(),
                distinct_keys(self.notes@),
                r@.len() == i,
                forall|j: int| 0 <= j < i ==> (#[trigger] r@[j]).0 == self.notes@[j].0 && note_view(r@[j].1) == note_view(self.notes@[j].1),
            decreases self.notes.len() - i,
        {
            r.push((self.notes[i].0.clone(), copy_note(&self.notes[i].1)));
            i = i + 1;
        }
        proof {
            lemma_note_views(r@, self.notes@);
        }
        r
    }

    /// The store holding `pairs`; a later note on the same path replaces an earlier one.
    pub fn from_entries(pairs: Vec<(String, FileNote)>) -> (s: NotesStore)
        ensures
            s@ == pairs_map(pairs@).map_values(|n: FileNote| note_view(n)),
    {
        let mut s = NotesStore::default();
        let mut i: usize = 0;
        assert(pairs@.take(0) =~= Seq::<(String, FileNote)>::empty());
        assert(s@ =~= pairs_map(pairs@.take(0)).map_values(|n: FileNote| note_view(n)));
        while i < pairs.len()
            invariant
                i <= pairs.len(),
                s@ == pairs_map(pairs@.take(i as int)).map_values(|n: FileNote| note_view(n)),
            decreases pairs.len() - i,
        {
            s.put(pairs[i].0.clone(), copy_note(&pairs[i].1));
            proof {
                assert(pairs@.take(i + 1).drop_last() =~= pairs@.take(i as int));
                assert(pairs@.take(i + 1).last() == pairs@[i as int]);
                assert(s@ =~= pairs_map(pairs@.take(i + 1)).map_values(|n: FileNote| note_view(n)));
            }
            i = i + 1;
        }
        assert(pairs@.take(pairs.len() as int) =~= pairs@);
        s
    }
}

} // verus!
