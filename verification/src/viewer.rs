//! The file viewer: a file's text as styled lines, word wrapping, scrolling and following a
//! growing log.

use vstd::prelude::*;
use vstd::utf8::encode_utf8;
use crate::theme::Color;
use crate::text::{to_lower, lowercase, chars_of, string_of, lines_of, lines_exec, seqs_view, is_ws, is_ws_exec};
use crate::path::extension;
use crate::ops::classify::ext_text;
use pulldown_cmark::{Event, Tag, TagEnd};

verus! {

/// One styled piece of a line: colour, text, bold.
pub type Segment = (Color, String, bool);

/// A line as shown: its plain text and its styled pieces.
#[derive(Clone)]
pub struct LineContent {
    pub raw: String,
    pub styled: Vec<(Color, String, bool)>,
}

pub open spec fn seg_view(s: (Color, String, bool)) -> (Color, Seq<char>, bool) {
    (s.0, s.1@, s.2)
}

/// A line as plain values.
pub open spec fn line_view(l: LineContent) -> (Seq<char>, Seq<(Color, Seq<char>, bool)>) {
    (l.raw@, l.styled@.map_values(|s: (Color, String, bool)| seg_view(s)))
}

pub open spec fn lines_view(ls: Seq<LineContent>) -> Seq<(Seq<char>, Seq<(Color, Seq<char>, bool)>)> {
    ls.map_values(|l: LineContent| line_view(l))
}

/// A line of plain text in white.
pub open spec fn plain_line(t: Seq<char>) -> (Seq<char>, Seq<(Color, Seq<char>, bool)>) {
    (t, seq![(Color::White, t, false)])
}

pub fn plain_line_of(t: &Vec<char>) -> (l: LineContent)
    ensures
        line_view(l) == plain_line(t@),
{
    let mut styled: Vec<(Color, String, bool)> = Vec::new();
    styled.push((Color::White, string_of(t), false));
    let l = LineContent { raw: string_of(t), styled };
    assert(line_view(l).1 =~= seq![(Color::White, t@, false)]);
    l
}

/// The lines of `text`, each plain.
pub open spec fn plain_lines(text: Seq<char>) -> Seq<(Seq<char>, Seq<(Color, Seq<char>, bool)>)> {
    lines_of(text).map_values(|t: Seq<char>| plain_line(t))
}

pub fn plain_lines_of(text: &str) -> (r: Vec<LineContent>)
    ensures
        lines_view(r@) == plain_lines(text@),
{
    let cs = chars_of(text);
    let ls = lines_exec(&cs);
    let mut r: Vec<LineContent> = Vec::new();
    let mut i: usize = 0;
    while i < ls.len()
        invariant
            i <= ls.len(),
            seqs_view(ls@) == lines_of(text@),
            lines_view(r@) == seqs_view(ls@).take(i as int).map_values(|t: Seq<char>| plain_line(t)),
        decreases ls.len() - i,
    {
        let l = plain_line_of(&ls[i]);
        let ghost before = r@;
        r.push(l);
        proof {
            let sv = seqs_view(ls@);
            assert(sv.take(i + 1) =~= sv.take(i as int).push(sv[i as int]));
            assert(lines_view(r@) =~= lines_view(before).push(line_view(l)));
        }
        i = i + 1;
    }
    proof {
        assert(seqs_view(ls@).take(ls.len() as int) =~= seqs_view(ls@));
    }
    r
}

#[derive(Debug, Clone)]
pub enum FileFormat {
    Markdown,
    Log,
    Code(String),
    Text,
    Binary,
}

pub open spec fn code_exts() -> Seq<Seq<char>> {
    seq!["rs"@, "js"@, "ts"@, "py"@, "c"@, "cpp"@, "h"@, "hpp"@, "go"@, "toml"@, "yaml"@, "json"@, "html"@, "css"@]
}

/// The format a lowercase extension names; a code format keeps the extension.
pub open spec fn format_matches(f: FileFormat, e: Seq<char>) -> bool {
    if e == "md"@ || e == "markdown"@ {
        f is Markdown
    } else if e == "log"@ {
        f is Log
    } else if code_exts().contains(e) {
        f matches FileFormat::Code(x) && x@ == e
    } else {
        f is Text
    }
}

fn is_one_of(e: &String, list: &[&str]) -> (r: bool)
    ensures
        r == list@.map_values(|s: &str| s@).contains(e@),
{
    let mut i: usize = 0;
    while i < list.len()
        invariant
            i <= list.len(),
            forall|k: int| 0 <= k < i ==> list@[k]@ != e@,
        decreases list.len() - i,
    {
        if e.eq(&String::from_str(list[i])) {
            assert(list@.map_values(|s: &str| s@)[i as int] == e@);
            return true;
        }
        i = i + 1;
    }
    proof {
        let m = list@.map_values(|s: &str| s@);
        if m.contains(e@) {
            let k = choose|k: int| 0 <= k < m.len() && #[trigger] m[k] == e@;
            assert(list@[k]@ == e@);
        }
    }
    false
}

/// The format of the file at `path`, from its extension in any case.
pub fn format_of(path: &str) -> (f: FileFormat)
    ensures
        format_matches(f, lowercase(ext_text(path@))),
{
    let e = match extension(path) {
        Some(e) => e,
        None => String::new(),
    };
    let lower = to_lower(e.as_str());
    let md: [&str; 2] = ["md", "markdown"];
    let log: [&str; 1] = ["log"];
    let code: [&str; 14] = ["rs", "js", "ts", "py", "c", "cpp", "h", "hpp", "go", "toml", "yaml", "json", "html", "css"];
    assert(md@.map_values(|s: &str| s@) =~= seq!["md"@, "markdown"@]);
    assert(log@.map_values(|s: &str| s@) =~= seq!["log"@]);
    assert(code@.map_values(|s: &str| s@) =~= code_exts());
    let is_md = is_one_of(&lower, &md);
    proof {
        let m = seq!["md"@, "markdown"@];
        if m.contains(lower@) {
            let k = choose|k: int| 0 <= k < m.len() && m[k] == lower@;
            assert(k == 0 || k == 1);
        }
        if lower@ == "md"@ {
            assert(m[0] == lower@);
        }
        if lower@ == "markdown"@ {
            assert(m[1] == lower@);
        }
        let g = seq!["log"@];
        if g.contains(lower@) {
            let k = choose|k: int| 0 <= k < g.len() && g[k] == lower@;
            assert(k == 0);
        }
        if lower@ == "log"@ {
            assert(g[0] == lower@);
        }
    }
    if is_md {
        FileFormat::Markdown
    } else if is_one_of(&lower, &log) {
        FileFormat::Log
    } else if is_one_of(&lower, &code) {
        FileFormat::Code(lower)
    } else {
        FileFormat::Text
    }
}

/// The pieces of `s` as `str::split_inclusive(char::is_whitespace)` gives them: each ends
/// with a whitespace character, except perhaps the last.
pub open spec fn ws_pieces(s: Seq<char>) -> Seq<Seq<char>>
    decreases s.len(),
{
    if s.len() == 0 {
        Seq::empty()
    } else {
        let p = ws_pieces(s.drop_last());
        if p.len() > 0 && !is_ws(p.last().last()) {
            p.update(p.len() - 1, p.last().push(s.last()))
        } else {
            p.push(seq![s.last()])
        }
    }
}

/// The words of a line's pieces, each carrying its piece's colour and weight.
pub open spec fn line_words(styled: Seq<(Color, Seq<char>, bool)>) -> Seq<(Color, Seq<char>, bool)>
    decreases styled.len(),
{
    if styled.len() == 0 {
        Seq::empty()
    } else {
        let s = styled.last();
        line_words(styled.drop_last()) + ws_pieces(s.1).map_values(|w: Seq<char>| (s.0, w, s.2))
    }
}

/// Filling words into lines of at most `ww` characters: a word that would pass the limit
/// starts a new line. Gives the finished lines, the current line and its width.
pub open spec fn wrap_fold(items: Seq<(Color, Seq<char>, bool)>, ww: nat)
    -> (Seq<Seq<(Color, Seq<char>, bool)>>, Seq<(Color, Seq<char>, bool)>, nat)
    decreases items.len(),
{
    if items.len() == 0 {
        (Seq::empty(), Seq::empty(), 0)
    } else {
        let (done, cur, w) = wrap_fold(items.drop_last(), ww);
        let it = items.last();
        let n = it.1.len();
        if w + n > ww {
            (done.push(cur), seq![it], n)
        } else {
            (done, cur.push(it), w + n)
        }
    }
}

/// A line made of pieces only, with no plain text.
pub open spec fn piece_line(p: Seq<(Color, Seq<char>, bool)>) -> (Seq<char>, Seq<(Color, Seq<char>, bool)>) {
    (Seq::empty(), p)
}

/// The lines one line becomes under wrapping at `width` columns: wrapped at `width - 4`
/// characters when its text is longer (in bytes) than that and that is more than 10.
pub open spec fn wrap_line(l: (Seq<char>, Seq<(Color, Seq<char>, bool)>), width: nat) -> Seq<(Seq<char>, Seq<(Color, Seq<char>, bool)>)> {
    let ww: nat = if width >= 4 { (width - 4) as nat } else { 0 };
    if (encode_utf8(l.0).len() as usize) > ww && ww > 10 {
        let (done, cur, w) = wrap_fold(line_words(l.1), ww);
        done.push(cur).map_values(|p: Seq<(Color, Seq<char>, bool)>| piece_line(p))
    } else {
        seq![l]
    }
}

/// All lines wrapped, in order.
pub open spec fn wrap_all(ls: Seq<(Seq<char>, Seq<(Color, Seq<char>, bool)>)>, width: nat) -> Seq<(Seq<char>, Seq<(Color, Seq<char>, bool)>)>
    decreases ls.len(),
{
    if ls.len() == 0 {
        Seq::empty()
    } else {
        wrap_all(ls.drop_last(), width) + wrap_line(ls.last(), width)
    }
}

/// The whitespace-ended pieces of `text` (see `ws_pieces`).
fn ws_pieces_exec(text: &Vec<char>) -> (r: Vec<Vec<char>>)
    ensures
        seqs_view(r@) == ws_pieces(text@),
{
    let mut done: Vec<Vec<char>> = Vec::new();
    let mut cur: Vec<char> = Vec::new();
    let mut i: usize = 0;
    assert(text@.take(0) =~= Seq::<char>::empty());
    while i < text.len()
        invariant
            i <= text.len(),
            ws_pieces(text@.take(i as int)) == if cur@.len() > 0 { seqs_view(done@).push(cur@) } else { seqs_view(done@) },
            cur@.len() > 0 ==> !is_ws(cur@.last()),
            cur@.len() == 0 ==> (seqs_view(done@).len() == 0 || is_ws(seqs_view(done@).last().last())),
            forall|k: int| 0 <= k < done@.len() ==> (#[trigger] done@[k])@.len() > 0,
        decreases text.len() - i,
    {
        let c = text[i];
        let ghost pre = text@.take(i as int);
        proof {
            assert(text@.take(i + 1).drop_last() =~= pre);
            assert(text@.take(i + 1).last() == c);
        }
        let ghost dv = seqs_view(done@);
        let ghost cv = cur@;
        cur.push(c);
        if is_ws_exec(c) {
            let finished = cur;
            let ghost fv = finished@;
            done.push(finished);
            cur = Vec::new();
            proof {
                assert(seqs_view(done@) =~= dv.push(fv));
                if cv.len() > 0 {
                    let p = ws_pieces(pre);
                    assert(p == dv.push(cv));
                    assert(seqs_view(done@) =~= p.update(p.len() - 1, p.last().push(c)));
                } else {
                    assert(fv =~= seq![c]);
                }
            }
        } else {
            proof {
                if cv.len() > 0 {
                    let p = ws_pieces(pre);
                    assert(p == dv.push(cv));
                    assert(dv.push(cur@) =~= p.update(p.len() - 1, p.last().push(c)));
                } else {
                    assert(cur@ =~= seq![c]);
                }
            }
        }
        i = i + 1;
    }
    assert(text@.take(text.len() as int) =~= text@);
    if cur.len() > 0 {
        done.push(cur);
    }
    done
}

pub open spec fn segs_view(v: Seq<(Color, String, bool)>) -> Seq<(Color, Seq<char>, bool)> {
    v.map_values(|s: (Color, String, bool)| seg_view(s))
}

/// The words of a line's pieces (see `line_words`).
fn line_words_exec(styled: &Vec<(Color, String, bool)>) -> (r: Vec<(Color, Vec<char>, bool)>)
    ensures
        r@.map_values(|x: (Color, Vec<char>, bool)| (x.0, x.1@, x.2)) == line_words(segs_view(styled@)),
{
    let ghost sv = segs_view(styled@);
    let mut r: Vec<(Color, Vec<char>, bool)> = Vec::new();
    let mut i: usize = 0;
    while i < styled.len()
        invariant
            i <= styled.len(),
            sv == segs_view(styled@),
            r@.map_values(|x: (Color, Vec<char>, bool)| (x.0, x.1@, x.2)) == line_words(sv.take(i as int)),
        decreases styled.len() - i,
    {
        let s = &styled[i];
        let cs = chars_of(s.1.as_str());
        let ps = ws_pieces_exec(&cs);
        let ghost start = r@.map_values(|x: (Color, Vec<char>, bool)| (x.0, x.1@, x.2));
        let ghost ws = seqs_view(ps@).map_values(|w: Seq<char>| (s.0, w, s.2));
        let mut j: usize = 0;
        while j < ps.len()
            invariant
                j <= ps.len(),
                ws == seqs_view(ps@).map_values(|w: Seq<char>| (s.0, w, s.2)),
                r@.map_values(|x: (Color, Vec<char>, bool)| (x.0, x.1@, x.2)) == start + ws.take(j as int),
            decreases ps.len() - j,
        {
            let ghost before = r@;
            r.push((s.0, ps[j].clone(), s.2));
            proof {
                assert(ws.take(j + 1) =~= ws.take(j as int).push(ws[j as int]));
                assert(r@.map_values(|x: (Color, Vec<char>, bool)| (x.0, x.1@, x.2)) =~= before.map_values(
                    |x: (Color, Vec<char>, bool)| (x.0, x.1@, x.2),
                ).push(ws[j as int]));
            }
            j = j + 1;
        }
        proof {
            assert(ws.take(ps.len() as int) =~= ws);
            assert(sv.take(i + 1).drop_last() =~= sv.take(i as int));
            assert(sv.take(i + 1).last() == sv[i as int]);
            assert(sv[i as int] == seg_view(*s));
        }
        i = i + 1;
    }
    assert(sv.take(styled.len() as int) =~= sv);
    r
}

fn segs_of(p: &Vec<(Color, Vec<char>, bool)>) -> (r: Vec<(Color, String, bool)>)
    ensures
        segs_view(r@) == p@.map_values(|x: (Color, Vec<char>, bool)| (x.0, x.1@, x.2)),
{
    let mut r: Vec<(Color, String, bool)> = Vec::new();
    let mut i: usize = 0;
    while i < p.len()
        invariant
            i <= p.len(),
            segs_view(r@) == p@.take(i as int).map_values(|x: (Color, Vec<char>, bool)| (x.0, x.1@, x.2)),
        decreases p.len() - i,
    {
        let ghost before = r@;
        r.push((p[i].0, string_of(&p[i].1), p[i].2));
        proof {
            assert(p@.take(i + 1) =~= p@.take(i as int).push(p@[i as int]));
            assert(segs_view(r@) =~= segs_view(before).push(seg_view(r@.last())));
        }
        i = i + 1;
    }
    assert(p@.take(p.len() as int) =~= p@);
    r
}

fn piece_line_of(p: &Vec<(Color, Vec<char>, bool)>) -> (l: LineContent)
    ensures
        line_view(l) == piece_line(p@.map_values(|x: (Color, Vec<char>, bool)| (x.0, x.1@, x.2))),
{
    LineContent { raw: String::new(), styled: segs_of(p) }
}

fn copy_line(l: &LineContent) -> (r: LineContent)
    ensures
        line_view(r) == line_view(*l),
{
    let mut styled: Vec<(Color, String, bool)> = Vec::new();
    let mut i: usize = 0;
    while i < l.styled.len()
        invariant
            i <= l.styled.len(),
            segs_view(styled@) == segs_view(l.styled@.take(i as int)),
        decreases l.styled.len() - i,
    {
        let ghost before = styled@;
        styled.push((l.styled[i].0, l.styled[i].1.clone(), l.styled[i].2));
        proof {
            assert(l.styled@.take(i + 1) =~= l.styled@.take(i as int).push(l.styled@[i as int]));
            assert(segs_view(styled@) =~= segs_view(before).push(seg_view(l.styled@[i as int])));
        }
        i = i + 1;
    }
    assert(l.styled@.take(l.styled.len() as int) =~= l.styled@);
    LineContent { raw: l.raw.clone(), styled }
}

/// The lines one line becomes under wrapping (see `wrap_line`).
fn wrap_one(l: &LineContent, width: usize) -> (r: Vec<LineContent>)
    ensures
        lines_view(r@) == wrap_line(line_view(*l), width as nat),
{
    let ww: usize = if width >= 4 { width - 4 } else { 0 };
    let blen = l.raw.as_str().len();
    assert(blen == encode_utf8(l.raw@).len() as usize);
    let mut r: Vec<LineContent> = Vec::new();
    if !(blen > ww && ww > 10) {
        r.push(copy_line(l));
        assert(lines_view(r@) =~= seq![line_view(*l)]);
        return r;
    }
    let items = line_words_exec(&l.styled);
    let ghost iv = items@.map_values(|x: (Color, Vec<char>, bool)| (x.0, x.1@, x.2));
    let mut cur: Vec<(Color, Vec<char>, bool)> = Vec::new();
    let mut w: usize = 0;
    let mut k: usize = 0;
    while k < items.len()
        invariant
            k <= items.len(),
            ww > 10,
            iv == items@.map_values(|x: (Color, Vec<char>, bool)| (x.0, x.1@, x.2)),
            wrap_fold(iv.take(k as int), ww as nat).0 == lines_view(r@).map_values(|x: (Seq<char>, Seq<(Color, Seq<char>, bool)>)| x.1),
            forall|q: int| 0 <= q < r@.len() ==> (#[trigger] r@[q]).raw@ == Seq::<char>::empty(),
            wrap_fold(iv.take(k as int), ww as nat).1 == cur@.map_values(|x: (Color, Vec<char>, bool)| (x.0, x.1@, x.2)),
            wrap_fold(iv.take(k as int), ww as nat).2 == w,
            w <= ww || (cur@.len() == 1 && w == cur@[0].1@.len()),
        decreases items.len() - k,
    {
        let it = &items[k];
        let n = it.1.len();
        proof {
            assert(iv.take(k + 1).drop_last() =~= iv.take(k as int));
            assert(iv.take(k + 1).last() == iv[k as int]);
        }
        if w > ww || n > ww - w {
            let ghost rbefore = r@;
            r.push(piece_line_of(&cur));
            cur = Vec::new();
            cur.push((it.0, it.1.clone(), it.2));
            w = n;
            proof {
                assert(lines_view(r@) =~= lines_view(rbefore).push(line_view(r@.last())));
                assert(lines_view(r@).map_values(|x: (Seq<char>, Seq<(Color, Seq<char>, bool)>)| x.1) =~=
                    lines_view(rbefore).map_values(|x: (Seq<char>, Seq<(Color, Seq<char>, bool)>)| x.1).push(line_view(r@.last()).1));
                assert forall|q: int| 0 <= q < r@.len() implies (#[trigger] r@[q]).raw@ == Seq::<char>::empty() by {
                    if q < rbefore.len() {
                        assert(r@[q] == rbefore[q]);
                    }
                }
                assert(cur@.map_values(|x: (Color, Vec<char>, bool)| (x.0, x.1@, x.2)) =~= seq![iv[k as int]]);
            }
        } else {
            let ghost cbefore = cur@;
            cur.push((it.0, it.1.clone(), it.2));
            w = w + n;
            proof {
                assert(cur@.map_values(|x: (Color, Vec<char>, bool)| (x.0, x.1@, x.2)) =~= cbefore.map_values(
                    |x: (Color, Vec<char>, bool)| (x.0, x.1@, x.2),
                ).push(iv[k as int]));
            }
        }
        k = k + 1;
    }
    let ghost rbefore = r@;
    r.push(piece_line_of(&cur));
    proof {
        assert(iv.take(items.len() as int) =~= iv);
        let (done, c, _w) = wrap_fold(iv, ww as nat);
        assert(lines_view(r@) =~= done.push(c).map_values(|p: Seq<(Color, Seq<char>, bool)>| piece_line(p))) by {
            assert forall|q: int| 0 <= q < r@.len() implies lines_view(r@)[q] == done.push(c).map_values(
                |p: Seq<(Color, Seq<char>, bool)>| piece_line(p),
            )[q] by {
                if q < rbefore.len() {
                    assert(r@[q] == rbefore[q]);
                    assert(lines_view(rbefore).map_values(|x: (Seq<char>, Seq<(Color, Seq<char>, bool)>)| x.1)[q] == done[q]);
                }
            }
        }
    }
    r
}

/// Every line wrapped (see `wrap_all`).
pub fn wrap_lines(ls: &Vec<LineContent>, width: usize) -> (r: Vec<LineContent>)
    ensures
        lines_view(r@) == wrap_all(lines_view(ls@), width as nat),
{
    let mut r: Vec<LineContent> = Vec::new();
    let mut i: usize = 0;
    while i < ls.len()
        invariant
            i <= ls.len(),
            lines_view(r@) == wrap_all(lines_view(ls@).take(i as int), width as nat),
        decreases ls.len() - i,
    {
        let part = wrap_one(&ls[i], width);
        let ghost before = r@;
        let mut j: usize = 0;
        while j < part.len()
            invariant
                j <= part.len(),
                lines_view(r@) == lines_view(before) + lines_view(part@).take(j as int),
            decreases part.len() - j,
        {
            let ghost rb = r@;
            r.push(copy_line(&part[j]));
            proof {
                assert(lines_view(part@).take(j + 1) =~= lines_view(part@).take(j as int).push(line_view(part@[j as int])));
                assert(lines_view(r@) =~= lines_view(rb).push(line_view(r@.last())));
            }
            j = j + 1;
        }
        proof {
            assert(lines_view(part@).take(part.len() as int) =~= lines_view(part@));
            let lv = lines_view(ls@);
            assert(lv.take(i + 1).drop_last() =~= lv.take(i as int));
            assert(lv.take(i + 1).last() == line_view(ls@[i as int]));
        }
        i = i + 1;
    }
    assert(lines_view(ls@).take(ls.len() as int) =~= lines_view(ls@));
    r
}

/// The file shown in the viewer: its lines, the first line on screen, its format, how much
/// of the file has been read, whether new text is followed, whether lines are wrapped,
/// and how many lines fit on screen.
pub struct ViewerState {
    pub path: String,
    pub lines: Vec<LineContent>,
    pub scroll: usize,
    pub format: FileFormat,
    pub last_offset: u64,
    pub is_tail_active: bool,
    pub wrap: bool,
    pub viewport_height: usize,
}

/// The first line shown when the end of `n` lines is on a screen of `h` lines.
pub open spec fn bottom_scroll(n: nat, h: nat) -> nat {
    if n > h {
        (n - h) as nat
    } else {
        0
    }
}

impl ViewerState {
    /// Shows the last screenful of lines.
    pub fn scroll_to_bottom(&mut self)
        ensures
            *final(self) == (ViewerState { scroll: bottom_scroll(old(self).lines@.len(), old(self).viewport_height as nat) as usize, ..*old(self) }),
    {
        if self.lines.len() > self.viewport_height {
            self.scroll = self.lines.len() - self.viewport_height;
        } else {
            self.scroll = 0;
        }
    }

    pub fn scroll_up(&mut self)
        ensures
            *final(self) == (ViewerState { scroll: if old(self).scroll > 0 { (old(self).scroll - 1) as usize } else { 0 }, ..*old(self) }),
    {
        self.scroll = if self.scroll > 0 { self.scroll - 1 } else { 0 };
    }

    /// One line further, but no further than the last screenful.
    pub fn scroll_down(&mut self)
        ensures
            *final(self) == (ViewerState {
                scroll: if old(self).scroll < bottom_scroll(old(self).lines@.len(), old(self).viewport_height as nat) {
                    (old(self).scroll + 1) as usize
                } else {
                    bottom_scroll(old(self).lines@.len(), old(self).viewport_height as nat) as usize
                },
                ..*old(self)
            }),
    {
        let max = if self.lines.len() > self.viewport_height { self.lines.len() - self.viewport_height } else { 0 };
        if self.scroll < max {
            self.scroll = self.scroll + 1;
        } else {
            self.scroll = max;
        }
    }

    pub fn page_up(&mut self, size: usize)
        ensures
            *final(self) == (ViewerState { scroll: if old(self).scroll > size { (old(self).scroll - size) as usize } else { 0 }, ..*old(self) }),
    {
        self.scroll = if self.scroll > size { self.scroll - size } else { 0 };
    }

    /// `size` lines further, but no further than the last screenful.
    pub fn page_down(&mut self, size: usize)
        requires
            old(self).scroll + size <= usize::MAX,
        ensures
            *final(self) == (ViewerState {
                scroll: if old(self).scroll + size < bottom_scroll(old(self).lines@.len(), old(self).viewport_height as nat) {
                    (old(self).scroll + size) as usize
                } else {
                    bottom_scroll(old(self).lines@.len(), old(self).viewport_height as nat) as usize
                },
                ..*old(self)
            }),
    {
        let max = if self.lines.len() > self.viewport_height { self.lines.len() - self.viewport_height } else { 0 };
        let next = self.scroll + size;
        self.scroll = if next < max { next } else { max };
    }

    /// Adds the lines of `new_text` (wrapped when wrapping is on) after the others, and
    /// keeps the end in view when following and the view was at most two lines above it.
    pub fn append_new_content(&mut self, new_text: &str, width: usize)
        requires
            old(self).scroll + old(self).viewport_height <= usize::MAX,
        ensures
            lines_view(final(self).lines@) == lines_view(old(self).lines@) + if old(self).wrap {
                wrap_all(plain_lines(new_text@), width as nat)
            } else {
                plain_lines(new_text@)
            },
            final(self).scroll == if old(self).is_tail_active && old(self).scroll + old(self).viewport_height
                >= (if old(self).lines@.len() >= 2 { old(self).lines@.len() - 2 } else { 0 }) {
                bottom_scroll(final(self).lines@.len(), old(self).viewport_height as nat) as usize
            } else {
                old(self).scroll
            },
            final(self).viewport_height == old(self).viewport_height,
            final(self).is_tail_active == old(self).is_tail_active,
            final(self).wrap == old(self).wrap,
            final(self).last_offset == old(self).last_offset,
            final(self).path == old(self).path,
    {
        let plain = plain_lines_of(new_text);
        let added = if self.wrap { wrap_lines(&plain, width) } else { plain };
        let n = self.lines.len();
        let floor = if n >= 2 { n - 2 } else { 0 };
        let at_bottom = self.scroll + self.viewport_height >= floor;
        let ghost before = self.lines@;
        let mut i: usize = 0;
        while i < added.len()
            invariant
                i <= added.len(),
                lines_view(self.lines@) == lines_view(before) + lines_view(added@).take(i as int),
                self.scroll == old(self).scroll,
                self.viewport_height == old(self).viewport_height,
                self.is_tail_active == old(self).is_tail_active,
                self.wrap == old(self).wrap,
                self.last_offset == old(self).last_offset,
                self.path == old(self).path,
            decreases added.len() - i,
        {
            let ghost rb = self.lines@;
            self.lines.push(copy_line(&added[i]));
            proof {
                assert(lines_view(added@).take(i + 1) =~= lines_view(added@).take(i as int).push(line_view(added@[i as int])));
                assert(lines_view(self.lines@) =~= lines_view(rb).push(line_view(self.lines@.last())));
            }
            i = i + 1;
        }
        assert(lines_view(added@).take(added.len() as int) =~= lines_view(added@));
        if self.is_tail_active && at_bottom {
            self.scroll_to_bottom();
        }
    }
}

/// The Markdown events the viewer reacts to.
#[derive(Debug, Clone, PartialEq, Eq)]
pub enum MdEvent {
    StartStrong,
    StartEmphasis,
    /// A heading of the given level (1 to 6) starts.
    StartHeading(u32),
    StartList,
    StartCodeBlock,
    EndStrong,
    EndEmphasis,
    EndHeading,
    EndCodeBlock,
    Text(String),
    Break,
    Other,
}

/// The events a CommonMark parser gives for a text.
pub uninterp spec fn md_events(content: Seq<char>) -> Seq<MdEvent>;

/// `pulldown_cmark::Parser` over `content`, each event told apart by kind; the events
/// are named, not spelled out.
#[verifier::external_body]
fn markdown_events(content: &str) -> (r: Vec<MdEvent>)
    ensures
        r@ == md_events(content@),
{
    pulldown_cmark::Parser::new(content).map(|e| match e {
        Event::Start(Tag::Strong) => MdEvent::StartStrong,
        Event::Start(Tag::Emphasis) => MdEvent::StartEmphasis,
        Event::Start(Tag::Heading { level, .. }) => MdEvent::StartHeading(level as u32),
        Event::Start(Tag::List(_)) => MdEvent::StartList,
        Event::Start(Tag::CodeBlock(_)) => MdEvent::StartCodeBlock,
        Event::End(TagEnd::Strong) => MdEvent::EndStrong,
        Event::End(TagEnd::Emphasis) => MdEvent::EndEmphasis,
        Event::End(TagEnd::Heading(_)) => MdEvent::EndHeading,
        Event::End(TagEnd::CodeBlock) => MdEvent::EndCodeBlock,
        Event::Text(t) => MdEvent::Text(t.to_string()),
        Event::SoftBreak | Event::HardBreak => MdEvent::Break,
        _ => MdEvent::Other,
    }).collect()
}

/// The state while turning Markdown events into lines.
pub struct MdState {
    pub lines: Seq<(Seq<char>, Seq<(Color, Seq<char>, bool)>)>,
    pub current: Seq<(Color, Seq<char>, bool)>,
    pub bold: bool,
    pub italic: bool,
    pub is_header: bool,
    pub level: u32,
}

/// The plain text of some pieces, one after another.
pub open spec fn seg_text(p: Seq<(Color, Seq<char>, bool)>) -> Seq<char>
    decreases p.len(),
{
    if p.len() == 0 {
        Seq::empty()
    } else {
        seg_text(p.drop_last()) + p.last().1
    }
}

/// The line the current pieces make (an empty line when there are none).
pub open spec fn finished_line(p: Seq<(Color, Seq<char>, bool)>) -> (Seq<char>, Seq<(Color, Seq<char>, bool)>) {
    (seg_text(p), p)
}

pub open spec fn hashes(n: nat) -> Seq<char> {
    Seq::new(n, |i: int| '#')
}

/// The colour of text: by heading level in a heading, yellow when bold, cyan when
/// italic, else white.
pub open spec fn md_color(st: MdState) -> Color {
    if st.is_header {
        if st.level == 1 { Color::Magenta } else if st.level == 2 { Color::Blue } else { Color::Cyan }
    } else if st.bold {
        Color::Yellow
    } else if st.italic {
        Color::Cyan
    } else {
        Color::White
    }
}

pub open spec fn md_flush(st: MdState) -> MdState {
    MdState { lines: st.lines.push(finished_line(st.current)), current: Seq::empty(), ..st }
}

pub open spec fn md_step(st: MdState, e: MdEvent) -> MdState {
    match e {
        MdEvent::StartStrong => MdState { bold: true, ..st },
        MdEvent::StartEmphasis => MdState { italic: true, ..st },
        MdEvent::StartHeading(level) => MdState {
            is_header: true,
            level,
            current: st.current.push((Color::Cyan, hashes(level as nat).push(' '), true)),
            ..st
        },
        MdEvent::StartList => MdState { current: st.current.push((Color::Yellow, "• "@, false)), ..st },
        MdEvent::StartCodeBlock => MdState { current: st.current.push((Color::Green, "```"@, false)), ..st },
        MdEvent::EndStrong => MdState { bold: false, ..st },
        MdEvent::EndEmphasis => MdState { italic: false, ..st },
        MdEvent::EndHeading => md_flush(MdState { is_header: false, ..st }),
        MdEvent::EndCodeBlock => md_flush(MdState { current: st.current.push((Color::Green, "```"@, false)), ..st }),
        MdEvent::Text(t) => MdState { current: st.current.push((md_color(st), t@, st.bold || st.is_header)), ..st },
        MdEvent::Break => md_flush(st),
        MdEvent::Other => st,
    }
}

pub open spec fn md_start() -> MdState {
    MdState { lines: Seq::empty(), current: Seq::empty(), bold: false, italic: false, is_header: false, level: 0 }
}

pub open spec fn md_fold(events: Seq<MdEvent>) -> MdState
    decreases events.len(),
{
    if events.len() == 0 {
        md_start()
    } else {
        md_step(md_fold(events.drop_last()), events.last())
    }
}

/// The lines a Markdown text shows as: every event applied, then the last line finished.
pub open spec fn markdown_lines(content: Seq<char>) -> Seq<(Seq<char>, Seq<(Color, Seq<char>, bool)>)> {
    md_flush(md_fold(md_events(content))).lines
}

fn flush_line(lines: &mut Vec<LineContent>, cur: &mut Vec<(Color, String, bool)>)
    ensures
        lines_view(final(lines)@) == lines_view(old(lines)@).push(finished_line(segs_view(old(cur)@))),
        final(cur)@.len() == 0,
{
    let mut raw = String::new();
    let mut i: usize = 0;
    while i < cur.len()
        invariant
            i <= cur.len(),
            raw@ == seg_text(segs_view(cur@.take(i as int))),
        decreases cur.len() - i,
    {
        raw.append(cur[i].1.as_str());
        proof {
            assert(segs_view(cur@.take(i + 1)).drop_last() =~= segs_view(cur@.take(i as int)));
        }
        i = i + 1;
    }
    assert(cur@.take(cur.len() as int) =~= cur@);
    let mut styled: Vec<(Color, String, bool)> = Vec::new();
    std::mem::swap(&mut styled, cur);
    let ghost before = lines@;
    lines.push(LineContent { raw, styled });
    assert(lines_view(lines@) =~= lines_view(before).push(line_view(lines@.last())));
}

fn repeat_hash(n: u32) -> (s: String)
    ensures
        s@ == hashes(n as nat).push(' '),
{
    let mut v: Vec<char> = Vec::new();
    let mut i: u32 = 0;
    while i < n
        invariant
            i <= n,
            v@ == hashes(i as nat),
        decreases n - i,
    {
        v.push('#');
        i = i + 1;
        assert(v@ =~= hashes(i as nat));
    }
    v.push(' ');
    string_of(&v)
}

/// The lines of a Markdown text (see `markdown_lines`).
pub fn markdown_lines_of(content: &str) -> (r: Vec<LineContent>)
    ensures
        lines_view(r@) == markdown_lines(content@),
{
    let events = markdown_events(content);
    let mut lines: Vec<LineContent> = Vec::new();
    let mut cur: Vec<(Color, String, bool)> = Vec::new();
    let mut bold = false;
    let mut italic = false;
    let mut is_header = false;
    let mut level: u32 = 0;
    let mut i: usize = 0;
    assert(events@.take(0) =~= Seq::<MdEvent>::empty());
    assert(lines_view(lines@) =~= Seq::<(Seq<char>, Seq<(Color, Seq<char>, bool)>)>::empty());
    assert(segs_view(cur@) =~= Seq::<(Color, Seq<char>, bool)>::empty());
    while i < events.len()
        invariant
            i <= events.len(),
            md_fold(events@.take(i as int)) == (MdState {
                lines: lines_view(lines@),
                current: segs_view(cur@),
                bold,
                italic,
                is_header,
                level,
            }),
        decreases events.len() - i,
    {
        let ghost st = md_fold(events@.take(i as int));
        proof {
            assert(events@.take(i + 1).drop_last() =~= events@.take(i as int));
            assert(events@.take(i + 1).last() == events@[i as int]);
        }
        let ghost cb = cur@;
        match &events[i] {
            MdEvent::StartStrong => {
                bold = true;
            },
            MdEvent::StartEmphasis => {
                italic = true;
            },
            MdEvent::StartHeading(l) => {
                is_header = true;
                level = *l;
                cur.push((Color::Cyan, repeat_hash(*l), true));
                assert(segs_view(cur@) =~= segs_view(cb).push((Color::Cyan, hashes(*l as nat).push(' '), true)));
            },
            MdEvent::StartList => {
                cur.push((Color::Yellow, String::from_str("• "), false));
                assert(segs_view(cur@) =~= segs_view(cb).push((Color::Yellow, "• "@, false)));
            },
            MdEvent::StartCodeBlock => {
                cur.push((Color::Green, String::from_str("```"), false));
                assert(segs_view(cur@) =~= segs_view(cb).push((Color::Green, "```"@, false)));
            },
            MdEvent::EndStrong => {
                bold = false;
            },
            MdEvent::EndEmphasis => {
                italic = false;
            },
            MdEvent::EndHeading => {
                is_header = false;
                flush_line(&mut lines, &mut cur);
                assert(segs_view(cur@) =~= Seq::<(Color, Seq<char>, bool)>::empty());
            },
            MdEvent::EndCodeBlock => {
                cur.push((Color::Green, String::from_str("```"), false));
                assert(segs_view(cur@) =~= segs_view(cb).push((Color::Green, "```"@, false)));
                flush_line(&mut lines, &mut cur);
                assert(segs_view(cur@) =~= Seq::<(Color, Seq<char>, bool)>::empty());
            },
            MdEvent::Text(t) => {
                let color = if is_header {
                    if level == 1 { Color::Magenta } else if level == 2 { Color::Blue } else { Color::Cyan }
                } else if bold {
                    Color::Yellow
                } else if italic {
                    Color::Cyan
                } else {
                    Color::White
                };
                cur.push((color, t.clone(), bold || is_header));
                assert(segs_view(cur@) =~= segs_view(cb).push((md_color(st), t@, st.bold || st.is_header)));
            },
            MdEvent::Break => {
                flush_line(&mut lines, &mut cur);
                assert(segs_view(cur@) =~= Seq::<(Color, Seq<char>, bool)>::empty());
            },
            MdEvent::Other => {},
        }
        i = i + 1;
    }
    assert(events@.take(events.len() as int) =~= events@);
    flush_line(&mut lines, &mut cur);
    lines
}

/// What syntax highlighting gives for a text in the language of an extension: for each
/// line (with its line ending), the line and its coloured pieces (red, green, blue, text);
/// nothing when highlighting fails. Named, not spelled out.
pub uninterp spec fn highlighted(content: Seq<char>, ext: Seq<char>) -> Option<Seq<(Seq<char>, Seq<(u8, u8, u8, Seq<char>)>)>>;

pub open spec fn hl_view(v: Seq<(String, Vec<(u8, u8, u8, String)>)>) -> Seq<(Seq<char>, Seq<(u8, u8, u8, Seq<char>)>)> {
    v.map_values(|l: (String, Vec<(u8, u8, u8, String)>)| (l.0@, l.1@.map_values(|p: (u8, u8, u8, String)| (p.0, p.1, p.2, p.3@))))
}

/// syntect's highlighting of `content` with the syntax for `ext` (plain text when none)
/// and the `base16-ocean.dark` theme, line by line; the result is named, not spelled out.
#[verifier::external_body]
fn highlight_text(content: &str, ext: &str) -> (r: Option<Vec<(String, Vec<(u8, u8, u8, String)>)>>)
    ensures
        match r {
            Some(v) => highlighted(content@, ext@) == Some(hl_view(v@)),
            None => highlighted(content@, ext@) is None,
        },
{
    let ps = syntect::parsing::SyntaxSet::load_defaults_newlines();
    let ts = syntect::highlighting::ThemeSet::load_defaults();
    let syntax = ps.find_syntax_by_extension(ext).unwrap_or_else(|| ps.find_syntax_plain_text());
    let mut h = syntect::easy::HighlightLines::new(syntax, &ts.themes["base16-ocean.dark"]);
    let mut out = Vec::new();
    for line in syntect::util::LinesWithEndings::from(content) {
        let ranges = h.highlight_line(line, &ps).ok()?;
        out.push((line.to_string(), ranges.into_iter().map(|(s, t)| (s.foreground.r, s.foreground.g, s.foreground.b, t.to_string())).collect()));
    }
    Some(out)
}

/// `s` without its newline characters.
pub open spec fn drop_newlines(s: Seq<char>) -> Seq<char> {
    s.filter(|c: char| c != '\n')
}

/// A highlighted line as shown: the line as it is, each piece in its colour without newlines.
pub open spec fn code_line(l: (Seq<char>, Seq<(u8, u8, u8, Seq<char>)>)) -> (Seq<char>, Seq<(Color, Seq<char>, bool)>) {
    (l.0, l.1.map_values(|p: (u8, u8, u8, Seq<char>)| (Color::Rgb(p.0, p.1, p.2), drop_newlines(p.3), false)))
}

fn drop_newlines_exec(s: &String) -> (r: String)
    ensures
        r@ == drop_newlines(s@),
{
    let cs = chars_of(s.as_str());
    let mut out: Vec<char> = Vec::new();
    let mut i: usize = 0;
    while i < cs.len()
        invariant
            i <= cs.len(),
            out@ == cs@.take(i as int).filter(|c: char| c != '\n'),
        decreases cs.len() - i,
    {
        proof {
            assert(cs@.take(i + 1) =~= cs@.take(i as int).push(cs@[i as int]));
            cs@.take(i as int).lemma_filter_push(cs@[i as int], |c: char| c != '\n');
        }
        if cs[i] != '\n' {
            out.push(cs[i]);
        }
        i = i + 1;
    }
    assert(cs@.take(cs.len() as int) =~= cs@);
    string_of(&out)
}

/// The lines of a text highlighted for the language of `ext`, or nothing when
/// highlighting fails.
pub fn code_lines_of(content: &str, ext: &str) -> (r: Option<Vec<LineContent>>)
    ensures
        match highlighted(content@, ext@) {
            Some(h) => r matches Some(v) && lines_view(v@) == h.map_values(|l: (Seq<char>, Seq<(u8, u8, u8, Seq<char>)>)| code_line(l)),
            None => r is None,
        },
{
    let h = match highlight_text(content, ext) {
        Some(h) => h,
        None => return None,
    };
    let ghost hv = hl_view(h@);
    let mut r: Vec<LineContent> = Vec::new();
    let mut i: usize = 0;
    while i < h.len()
        invariant
            i <= h.len(),
            hv == hl_view(h@),
            lines_view(r@) == hv.take(i as int).map_values(|l: (Seq<char>, Seq<(u8, u8, u8, Seq<char>)>)| code_line(l)),
        decreases h.len() - i,
    {
        let (line, ranges) = (&h[i].0, &h[i].1);
        let ghost pv = ranges@.map_values(|p: (u8, u8, u8, String)| (p.0, p.1, p.2, p.3@));
        let mut styled: Vec<(Color, String, bool)> = Vec::new();
        let mut j: usize = 0;
        while j < ranges.len()
            invariant
                j <= ranges.len(),
                pv == ranges@.map_values(|p: (u8, u8, u8, String)| (p.0, p.1, p.2, p.3@)),
                segs_view(styled@) == pv.take(j as int).map_values(|p: (u8, u8, u8, Seq<char>)| (Color::Rgb(p.0, p.1, p.2), drop_newlines(p.3), false)),
            decreases ranges.len() - j,
        {
            let p = &ranges[j];
            let ghost sb = styled@;
            styled.push((Color::Rgb(p.0, p.1, p.2), drop_newlines_exec(&p.3), false));
            proof {
                assert(pv.take(j + 1) =~= pv.take(j as int).push(pv[j as int]));
                assert(segs_view(styled@) =~= segs_view(sb).push(seg_view(styled@.last())));
            }
            j = j + 1;
        }
        assert(pv.take(ranges.len() as int) =~= pv);
        let ghost rb = r@;
        r.push(LineContent { raw: line.clone(), styled });
        proof {
            assert(hv.take(i + 1) =~= hv.take(i as int).push(hv[i as int]));
            assert(lines_view(r@) =~= lines_view(rb).push(line_view(r@.last())));
        }
        i = i + 1;
    }
    assert(hv.take(h.len() as int) =~= hv);
    Some(r)
}

/// The lines a text shows as in a format, before wrapping; nothing when highlighting fails.
pub open spec fn format_lines(f: FileFormat, content: Seq<char>) -> Option<Seq<(Seq<char>, Seq<(Color, Seq<char>, bool)>)>> {
    match f {
        FileFormat::Markdown => Some(markdown_lines(content)),
        FileFormat::Code(e) => match highlighted(content, e@) {
            Some(h) => Some(h.map_values(|l: (Seq<char>, Seq<(u8, u8, u8, Seq<char>)>)| code_line(l))),
            None => None,
        },
        _ => Some(plain_lines(content)),
    }
}

/// The lines shown: those of the format, wrapped at `width` when wrapping is on.
pub open spec fn shown_lines(f: FileFormat, content: Seq<char>, wrap: bool, width: nat) -> Option<Seq<(Seq<char>, Seq<(Color, Seq<char>, bool)>)>> {
    match format_lines(f, content) {
        Some(ls) => Some(if wrap { wrap_all(ls, width) } else { ls }),
        None => None,
    }
}

#[derive(Debug, Clone, Copy, PartialEq, Eq, Structural)]
pub enum ViewerError {
    /// The text could not be highlighted.
    HighlightFailed,
}

fn load_lines(f: &FileFormat, content: &str, wrap: bool, width: usize) -> (r: Option<Vec<LineContent>>)
    ensures
        match shown_lines(*f, content@, wrap, width as nat) {
            Some(ls) => r matches Some(v) && lines_view(v@) == ls,
            None => r is None,
        },
{
    let base = match f {
        FileFormat::Markdown => markdown_lines_of(content),
        FileFormat::Code(e) => match code_lines_of(content, e.as_str()) {
            Some(v) => v,
            None => return None,
        },
        _ => plain_lines_of(content),
    };
    if wrap {
        Some(wrap_lines(&base, width))
    } else {
        Some(base)
    }
}

impl ViewerState {
    /// Opens the file at `path` whose text is `content` (`file_len` bytes long) for a screen
    /// `width` columns wide and `height` lines high: wrapping on; a log is followed from its end.
    pub fn new(path: String, content: &str, file_len: u64, width: usize, height: usize) -> (r: Result<ViewerState, ViewerError>)
        ensures
            r is Ok <==> exists|f: FileFormat| format_matches(f, lowercase(ext_text(path@)))
                && #[trigger] shown_lines(f, content@, true, width as nat) is Some,
            r matches Ok(v) ==> {
                &&& v.path == path
                &&& format_matches(v.format, lowercase(ext_text(path@)))
                &&& shown_lines(v.format, content@, true, width as nat) matches Some(ls) && lines_view(v.lines@) == ls
                &&& v.wrap
                &&& v.last_offset == file_len
                &&& v.viewport_height == height
                &&& v.is_tail_active == (v.format is Log)
                &&& v.scroll == if v.format is Log { bottom_scroll(v.lines@.len(), height as nat) } else { 0 }
            },
    {
        let format = format_of(path.as_str());
        let lines = match load_lines(&format, content, true, width) {
            Some(l) => l,
            None => {
                proof {
                    assert forall|f: FileFormat| format_matches(f, lowercase(ext_text(path@)))
                        implies !(#[trigger] shown_lines(f, content@, true, width as nat) is Some) by {
                        lemma_format_unique(f, format, lowercase(ext_text(path@)));
                    }
                }
                return Err(ViewerError::HighlightFailed);
            },
        };
        let is_log = match format {
            FileFormat::Log => true,
            _ => false,
        };
        let mut v = ViewerState {
            path,
            lines,
            scroll: 0,
            format,
            last_offset: file_len,
            is_tail_active: is_log,
            wrap: true,
            viewport_height: height,
        };
        assert(v.lines@.len() == lines@.len());
        let n = v.lines.len();
        if is_log {
            let ghost before = v;
            v.scroll_to_bottom();
            assert(bottom_scroll(before.lines@.len(), height as nat) <= before.lines@.len());
            assert(v.lines == before.lines);
            assert(v.scroll as nat == bottom_scroll(v.lines@.len(), height as nat));
        }
        assert(shown_lines(v.format, content@, true, width as nat) is Some);
        Ok(v)
    }

    /// Turns wrapping on or off and shows the file's text `content` (now `file_len` bytes)
    /// again; on failure no lines are shown.
    pub fn toggle_wrap(&mut self, content: &str, file_len: u64, width: usize) -> (r: Result<(), ViewerError>)
        ensures
            final(self).wrap == !old(self).wrap,
            final(self).last_offset == file_len,
            match shown_lines(old(self).format, content@, !old(self).wrap, width as nat) {
                Some(ls) => r is Ok && lines_view(final(self).lines@) == ls,
                None => r is Err && final(self).lines@.len() == 0,
            },
            final(self).path == old(self).path,
            final(self).format == old(self).format,
            final(self).scroll == old(self).scroll,
            final(self).viewport_height == old(self).viewport_height,
            final(self).is_tail_active == old(self).is_tail_active,
    {
        self.wrap = !self.wrap;
        self.lines = Vec::new();
        self.last_offset = file_len;
        match load_lines(&self.format, content, self.wrap, width) {
            Some(l) => {
                self.lines = l;
                Ok(())
            },
            None => Err(ViewerError::HighlightFailed),
        }
    }
}

proof fn lemma_format_unique(f: FileFormat, g: FileFormat, e: Seq<char>)
    requires
        format_matches(f, e),
        format_matches(g, e),
    ensures
        forall|c: Seq<char>, w: bool, n: nat| #[trigger] shown_lines(f, c, w, n) == shown_lines(g, c, w, n),
{
    assert forall|c: Seq<char>, w: bool, n: nat| #[trigger] shown_lines(f, c, w, n) == shown_lines(g, c, w, n) by {
        assert(format_lines(f, c) == format_lines(g, c));
    }
}

} // verus!
