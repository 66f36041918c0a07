//! The terminal screen as the testers see it: input bytes made canonical
//! before the emulator reads them, the 256-color palette, and the text and
//! colors of the screen's cells.

use vstd::prelude::*;
use crate::text::{chars_of, find_from, find_from_spec, lemma_find_from_bounds, occurs_at, push_char, string_of_range, trim_end_index, trim_end_spec};

verus! {

/// One step of canonicalisation: the bytes that stand for `s[i]`. A line feed
/// that does not follow a carriage return gets one put before it.
pub open spec fn canonical_piece(s: Seq<u8>, i: int) -> Seq<u8> {
    if s[i] == 10u8 && !(i > 0 && s[i - 1] == 13u8) {
        seq![13u8, 10u8]
    } else {
        seq![s[i]]
    }
}

/// `s` with every bare line feed turned into carriage return + line feed;
/// carriage returns and `\r\n` pairs are kept as they are.
pub open spec fn canonical_spec(s: Seq<u8>) -> Seq<u8>
    decreases s.len(),
{
    if s.len() == 0 {
        s
    } else {
        canonical_spec(s.drop_last()) + canonical_piece(s, s.len() - 1)
    }
}

/// Every line feed of `s` follows a carriage return.
pub open spec fn line_feeds_follow_returns(s: Seq<u8>) -> bool {
    forall|i: int| 0 <= i < s.len() && #[trigger] s[i] == 10u8 ==> i > 0 && s[i - 1] == 13u8
}

/// Makes line endings canonical for the emulator (see [`canonical_spec`]).
pub fn canonicalize_bytes(bytes: &[u8]) -> (res: Vec<u8>)
    ensures
        res@ == canonical_spec(bytes@),
{
    let mut res: Vec<u8> = Vec::new();
    let mut i: usize = 0;
    while i < bytes.len()
        invariant
            i <= bytes@.len(),
            res@ == canonical_spec(bytes@.subrange(0, i as int)),
        decreases bytes@.len() - i,
    {
        let b = bytes[i];
        let ghost sub = bytes@.subrange(0, i + 1);
        assert(sub.drop_last() =~= bytes@.subrange(0, i as int));
        assert(canonical_piece(sub, i as int) == canonical_piece(bytes@, i as int));
        if b == 10u8 && !(i > 0 && bytes[i - 1] == 13u8) {
            res.push(13u8);
            res.push(10u8);
        } else {
            res.push(b);
        }
        i = i + 1;
        assert(res@ =~= canonical_spec(bytes@.subrange(0, i as int)));
    }
    assert(bytes@.subrange(0, bytes@.len() as int) =~= bytes@);
    res
}

/// Canonical bytes end with a carriage return exactly when the input does,
/// and every line feed in them follows a carriage return.
proof fn lemma_canonical_shape(s: Seq<u8>)
    ensures
        line_feeds_follow_returns(canonical_spec(s)),
        canonical_spec(s).len() > 0 <==> s.len() > 0,
        s.len() > 0 ==> canonical_spec(s).last() == s.last(),
        s.len() > 0 && s.last() == 13u8 ==> canonical_spec(s).last() == 13u8,
    decreases s.len(),
{
    if s.len() > 0 {
        let p = s.drop_last();
        lemma_canonical_shape(p);
        let c = canonical_spec(p);
        let piece = canonical_piece(s, s.len() - 1);
        assert(canonical_spec(s) == c + piece);
        assert forall|i: int|
            0 <= i < (c + piece).len() && #[trigger] (c + piece)[i] == 10u8 implies i > 0 && (c
            + piece)[i - 1] == 13u8 by {
            if i < c.len() {
                assert((c + piece)[i] == c[i]);
                assert((c + piece)[i - 1] == c[i - 1]);
            } else if piece.len() == 2 {
                if i == c.len() {
                    assert(piece[0] == 13u8);
                } else {
                    assert((c + piece)[i - 1] == piece[0]);
                }
            } else {
                assert(i == c.len());
                assert(s.last() == 10u8);
                assert(s[s.len() - 2] == 13u8);
                assert(p.last() == 13u8);
                assert(c.last() == 13u8);
                assert((c + piece)[i - 1] == c.last());
            }
        }
    }
}

/// Bytes whose line feeds all follow carriage returns are already canonical.
proof fn lemma_canonical_fixed(s: Seq<u8>)
    requires
        line_feeds_follow_returns(s),
    ensures
        canonical_spec(s) == s,
    decreases s.len(),
{
    if s.len() > 0 {
        let p = s.drop_last();
        assert forall|i: int| 0 <= i < p.len() && #[trigger] p[i] == 10u8 implies i > 0 && p[i - 1]
            == 13u8 by {
            assert(s[i] == p[i]);
        }
        lemma_canonical_fixed(p);
        assert(canonical_piece(s, s.len() - 1) =~= seq![s.last()]);
        assert(p + seq![s.last()] =~= s);
    }
}

/// Making line endings canonical twice changes nothing the second time.
pub proof fn law_canonicalize_idempotent(s: Seq<u8>)
    ensures
        canonical_spec(canonical_spec(s)) == canonical_spec(s),
        line_feeds_follow_returns(canonical_spec(s)),
{
    lemma_canonical_shape(s);
    lemma_canonical_fixed(canonical_spec(s));
}

/// The RGB color of entry `idx` of the 256-color palette: 8 standard colors
/// (intensity 128), 8 bright ones (255, with 64 for the dark components), a
/// 6x6x6 cube (0, or 55 + 40 per step) and 24 grays (8 + 10 per step).
pub open spec fn ansi_rgb_spec(idx: u8) -> (u8, u8, u8) {
    if idx < 8 {
        let i: u8 = if idx == 0 { 0 } else { 128 };
        match idx {
            0 => (0, 0, 0),
            1 => (i, 0, 0),
            2 => (0, i, 0),
            3 => (i, i, 0),
            4 => (0, 0, i),
            5 => (i, 0, i),
            6 => (0, i, i),
            _ => (i, i, i),
        }
    } else if idx < 16 {
        match idx {
            8 => (64, 64, 64),
            9 => (255, 64, 64),
            10 => (64, 255, 64),
            11 => (255, 255, 64),
            12 => (64, 64, 255),
            13 => (255, 64, 255),
            14 => (64, 255, 255),
            _ => (255, 255, 255),
        }
    } else if idx < 232 {
        let k = idx - 16;
        let r = k / 36;
        let g = (k % 36) / 6;
        let b = k % 6;
        (cube_level(r), cube_level(g), cube_level(b))
    } else {
        let gray = ((idx - 232) * 10 + 8) as u8;
        (gray, gray, gray)
    }
}

/// The component value of step `s` (0 to 5) of the color cube.
pub open spec fn cube_level(s: int) -> u8 {
    if s == 0 {
        0
    } else {
        (s * 40 + 55) as u8
    }
}

fn cube(s: u8) -> (v: u8)
    requires
        s < 6,
    ensures
        v == cube_level(s as int),
{
    if s == 0 {
        0
    } else {
        s * 40 + 55
    }
}

/// Converts an index of the 256-color palette to RGB (see [`ansi_rgb_spec`]).
pub fn ansi_to_rgb(idx: u8) -> (c: (u8, u8, u8))
    ensures
        c == ansi_rgb_spec(idx),
{
    if idx < 8 {
        let intensity: u8 = if idx == 0 { 0 } else { 128 };
        match idx {
            0 => (0, 0, 0),
            1 => (intensity, 0, 0),
            2 => (0, intensity, 0),
            3 => (intensity, intensity, 0),
            4 => (0, 0, intensity),
            5 => (intensity, 0, intensity),
            6 => (0, intensity, intensity),
            _ => (intensity, intensity, intensity),
        }
    } else if idx < 16 {
        let val: u8 = 255;
        match idx {
            8 => (64, 64, 64),
            9 => (val, 64, 64),
            10 => (64, val, 64),
            11 => (val, val, 64),
            12 => (64, 64, val),
            13 => (val, 64, val),
            14 => (64, val, val),
            _ => (val, val, val),
        }
    } else if idx < 232 {
        let k = idx - 16;
        let r = k / 36;
        let g = (k % 36) / 6;
        let b = k % 6;
        (cube(r), cube(g), cube(b))
    } else {
        let gray = (idx - 232) * 10 + 8;
        (gray, gray, gray)
    }
}

/// A cell color as the emulator reports it: the default color, an entry of
/// the 256-color palette, or a true color already in 8-bit components.
#[derive(Debug, Clone, Copy, PartialEq, Eq)]
pub enum TermColor {
    Default,
    Palette(u8),
    Rgb(u8, u8, u8),
}

/// The RGB value of a cell color; the default color is white.
pub open spec fn color_rgb_spec(c: TermColor) -> (u8, u8, u8) {
    match c {
        TermColor::Default => (255, 255, 255),
        TermColor::Palette(i) => ansi_rgb_spec(i),
        TermColor::Rgb(r, g, b) => (r, g, b),
    }
}

/// Converts a cell color to RGB (see [`color_rgb_spec`]).
pub fn convert_color(c: TermColor) -> (rgb: (u8, u8, u8))
    ensures
        rgb == color_rgb_spec(c),
{
    match c {
        TermColor::Default => (255, 255, 255),
        TermColor::Palette(i) => ansi_to_rgb(i),
        TermColor::Rgb(r, g, b) => (r, g, b),
    }
}

/// One cell of the screen as the emulator reports it: its text (one
/// character, or more when combining characters follow) and its colors.
#[derive(Debug, Clone)]
pub struct ScreenCell {
    pub text: String,
    pub fg: TermColor,
    pub bg: TermColor,
}

/// One cell as the testers use it: its first character and its colors.
#[derive(Debug, Clone, Copy, PartialEq, Eq)]
pub struct Cell {
    pub character: char,
    pub fg_r: u8,
    pub fg_g: u8,
    pub fg_b: u8,
    pub bg_r: u8,
    pub bg_g: u8,
    pub bg_b: u8,
}

impl Default for Cell {
    /// A blank cell: white on black.
    fn default() -> (c: Self)
        ensures
            c == (Cell {
                character: ' ',
                fg_r: 255,
                fg_g: 255,
                fg_b: 255,
                bg_r: 0,
                bg_g: 0,
                bg_b: 0,
            }),
    {
        Cell { character: ' ', fg_r: 255, fg_g: 255, fg_b: 255, bg_r: 0, bg_g: 0, bg_b: 0 }
    }
}

/// The character a cell shows: the first of its text, or a space.
pub open spec fn first_char(t: Seq<char>) -> char {
    if t.len() > 0 {
        t[0]
    } else {
        ' '
    }
}

/// The cell as the testers see it.
pub open spec fn cell_spec(c: ScreenCell) -> Cell {
    let (fr, fg, fb) = color_rgb_spec(c.fg);
    let (br, bg, bb) = color_rgb_spec(c.bg);
    Cell { character: first_char(c.text@), fg_r: fr, fg_g: fg, fg_b: fb, bg_r: br, bg_g: bg, bg_b: bb }
}

/// Where the visible lines start: the last `rows` lines are visible.
pub open spec fn visible_start(n: nat, rows: u16) -> int {
    if n > rows {
        n - rows
    } else {
        0
    }
}

/// The visible lines of a screen whose lines are `lines` and whose height is `rows`.
pub open spec fn visible_lines(lines: Seq<Vec<ScreenCell>>, rows: u16) -> Seq<Vec<ScreenCell>> {
    lines.subrange(visible_start(lines.len(), rows), lines.len() as int)
}

/// The characters a line shows, one per cell.
pub open spec fn line_glyphs(cells: Seq<ScreenCell>) -> Seq<char> {
    Seq::new(cells.len(), |i: int| first_char(cells[i].text@))
}

/// Lines joined with `\n` between them.
pub open spec fn join_lines(ls: Seq<Seq<char>>) -> Seq<char>
    decreases ls.len(),
{
    if ls.len() == 0 {
        Seq::empty()
    } else if ls.len() == 1 {
        ls[0]
    } else {
        join_lines(ls.drop_last()) + seq!['\n'] + ls.last()
    }
}

/// The screen as text: each visible line's characters without trailing
/// whitespace, joined with `\n`.
pub open spec fn render_spec(lines: Seq<Vec<ScreenCell>>, rows: u16) -> Seq<char> {
    let vis = visible_lines(lines, rows);
    join_lines(Seq::new(vis.len(), |i: int| trim_end_spec(line_glyphs(vis[i]@))))
}

/// The text of a line: the texts of its cells, in order.
pub open spec fn line_text(cells: Seq<ScreenCell>) -> Seq<char>
    decreases cells.len(),
{
    if cells.len() == 0 {
        Seq::empty()
    } else {
        line_text(cells.drop_last()) + cells.last().text@
    }
}

/// For each character of the line's text, the index of the cell it belongs to.
pub open spec fn char_cells(cells: Seq<ScreenCell>) -> Seq<int>
    decreases cells.len(),
{
    if cells.len() == 0 {
        Seq::empty()
    } else {
        char_cells(cells.drop_last()) + Seq::new(
            cells.last().text@.len(),
            |j: int| cells.len() - 1,
        )
    }
}

/// The start positions of the non-overlapping occurrences of `needle` in
/// `hay` at or after `start`, left to right.
pub open spec fn occurrences(hay: Seq<char>, needle: Seq<char>, start: int) -> Seq<int>
    decreases hay.len() + 1 - start,
{
    if needle.len() == 0 {
        Seq::empty()
    } else {
        match find_from_spec(hay, needle, start) {
            None => Seq::empty(),
            Some(p) => {
                proof {
                    lemma_find_from_bounds(hay, needle, start);
                }
                seq![p] + occurrences(hay, needle, p + needle.len())
            },
        }
    }
}

/// The matches of `needle` on one line shown at screen row `row`, as
/// (row, column of the cell where the match starts).
pub open spec fn row_matches(cells: Seq<ScreenCell>, needle: Seq<char>, row: int) -> Seq<(u16, u16)> {
    let occ = occurrences(line_text(cells), needle, 0);
    Seq::new(occ.len(), |k: int| (row as u16, char_cells(cells)[occ[k]] as u16))
}

/// The matches on the first `k` of the lines `vis`, row by row.
pub open spec fn matches_upto(vis: Seq<Vec<ScreenCell>>, needle: Seq<char>, k: int) -> Seq<
    (u16, u16),
>
    decreases k,
{
    if k <= 0 {
        Seq::empty()
    } else {
        matches_upto(vis, needle, k - 1) + row_matches(vis[k - 1]@, needle, k - 1)
    }
}

/// All positions where `needle` is found on the visible screen, top to
/// bottom, left to right, without overlaps.
pub open spec fn find_all_spec(lines: Seq<Vec<ScreenCell>>, rows: u16, needle: Seq<char>) -> Seq<
    (u16, u16),
> {
    let vis = visible_lines(lines, rows);
    matches_upto(vis, needle, vis.len() as int)
}

/// The cell at (row, col) of the visible screen, if there is one.
pub open spec fn get_cell_spec(
    lines: Seq<Vec<ScreenCell>>,
    rows: u16,
    cols: u16,
    row: u16,
    col: u16,
) -> Option<Cell> {
    if row >= rows || col >= cols {
        None
    } else {
        let idx = visible_start(lines.len(), rows) + row;
        if idx >= lines.len() {
            None
        } else {
            let cells = lines[idx]@;
            if col >= cells.len() {
                None
            } else {
                Some(cell_spec(cells[col as int]))
            }
        }
    }
}

/// A snapshot of the emulator's screen: all its lines (the last `rows` are
/// visible) and its size.
#[derive(Debug, Clone)]
pub struct Screen {
    lines: Vec<Vec<ScreenCell>>,
    rows: u16,
    cols: u16,
}

/// The text and the cell indices of a line.
fn line_chars(cells: &Vec<ScreenCell>) -> (r: (Vec<char>, Vec<usize>))
    ensures
        r.0@ == line_text(cells@),
        r.1@.len() == r.0@.len(),
        forall|p: int| 0 <= p < r.1@.len() ==> r.1@[p] as int == char_cells(cells@)[p],
        char_cells(cells@).len() == r.0@.len(),
{
    let mut text: Vec<char> = Vec::new();
    let mut idx: Vec<usize> = Vec::new();
    let mut i: usize = 0;
    while i < cells.len()
        invariant
            i <= cells@.len(),
            text@ == line_text(cells@.subrange(0, i as int)),
            idx@.len() == text@.len(),
            char_cells(cells@.subrange(0, i as int)).len() == text@.len(),
            forall|p: int|
                0 <= p < idx@.len() ==> idx@[p] as int == char_cells(cells@.subrange(0, i as int))[p],
        decreases cells@.len() - i,
    {
        let cs = chars_of(cells[i].text.as_str());
        let ghost sub = cells@.subrange(0, i + 1);
        assert(sub.drop_last() =~= cells@.subrange(0, i as int));
        let ghost old_text = text@;
        let ghost old_idx = idx@;
        let mut j: usize = 0;
        while j < cs.len()
            invariant
                j <= cs@.len(),
                text@ == old_text + cs@.subrange(0, j as int),
                idx@.len() == old_idx.len() + j,
                forall|p: int| 0 <= p < old_idx.len() ==> idx@[p] == old_idx[p],
                forall|p: int| old_idx.len() <= p < idx@.len() ==> idx@[p] == i,
            decreases cs@.len() - j,
        {
            text.push(cs[j]);
            idx.push(i);
            j = j + 1;
            assert(text@ =~= old_text + cs@.subrange(0, j as int));
        }
        assert(cs@.subrange(0, cs@.len() as int) =~= cs@);
        proof {
            let prev = cells@.subrange(0, i as int);
            assert(sub.last() == cells@[i as int]);
            assert(char_cells(sub) == char_cells(prev) + Seq::new(
                cells@[i as int].text@.len(),
                |j: int| sub.len() - 1,
            ));
            assert(cs@.len() == cells@[i as int].text@.len());
            assert(char_cells(prev).len() == old_idx.len());
            assert forall|p: int| 0 <= p < idx@.len() implies idx@[p] as int == char_cells(
                sub,
            )[p] by {
                if p < old_idx.len() {
                    assert(char_cells(sub)[p] == char_cells(prev)[p]);
                    assert(idx@[p] == old_idx[p]);
                } else {
                    assert(char_cells(sub)[p] == i);
                }
            }
        }
        i = i + 1;
        assert(text@ =~= line_text(cells@.subrange(0, i as int)));
    }
    assert(cells@.subrange(0, cells@.len() as int) =~= cells@);
    (text, idx)
}

impl Screen {
    pub closed spec fn spec_lines(&self) -> Seq<Vec<ScreenCell>> {
        self.lines@
    }

    pub closed spec fn spec_rows(&self) -> u16 {
        self.rows
    }

    pub closed spec fn spec_cols(&self) -> u16 {
        self.cols
    }

    /// A snapshot of `lines` on a screen of `rows` by `cols`.
    pub fn new(lines: Vec<Vec<ScreenCell>>, rows: u16, cols: u16) -> (s: Self)
        ensures
            s.spec_lines() == lines@,
            s.spec_rows() == rows,
            s.spec_cols() == cols,
    {
        Screen { lines, rows, cols }
    }

    /// An empty screen of `rows` by `cols`.
    pub fn empty(rows: u16, cols: u16) -> (s: Self)
        ensures
            s.spec_lines() == Seq::<Vec<ScreenCell>>::empty(),
            s.spec_rows() == rows,
            s.spec_cols() == cols,
    {
        Screen { lines: Vec::new(), rows, cols }
    }

    fn start(&self) -> (s: usize)
        ensures
            s == visible_start(self.lines@.len(), self.rows),
    {
        if self.lines.len() > self.rows as usize {
            self.lines.len() - self.rows as usize
        } else {
            0
        }
    }

    /// The screen as text (see [`render_spec`]).
    pub fn render(&self) -> (s: String)
        ensures
            s@ == render_spec(self.spec_lines(), self.spec_rows()),
    {
        let start = self.start();
        let ghost vis = visible_lines(self.lines@, self.rows);
        let ghost rendered = Seq::new(
            vis.len(),
            |i: int| trim_end_spec(line_glyphs(vis[i]@)),
        );
        let mut out = String::new();
        let mut k: usize = start;
        while k < self.lines.len()
            invariant
                start == visible_start(self.lines@.len(), self.rows),
                start <= k <= self.lines@.len(),
                vis == visible_lines(self.lines@, self.rows),
                rendered == Seq::new(vis.len(), |i: int| trim_end_spec(line_glyphs(vis[i]@))),
                out@ == join_lines(rendered.subrange(0, k - start)),
            decreases self.lines@.len() - k,
        {
            let cells = &self.lines[k];
            let mut glyphs: Vec<char> = Vec::new();
            let mut c: usize = 0;
            while c < cells.len()
                invariant
                    c <= cells@.len(),
                    glyphs@ == line_glyphs(cells@.subrange(0, c as int)),
                decreases cells@.len() - c,
            {
                let cs = chars_of(cells[c].text.as_str());
                let g = if cs.len() > 0 { cs[0] } else { ' ' };
                glyphs.push(g);
                c = c + 1;
                assert(glyphs@ =~= line_glyphs(cells@.subrange(0, c as int)));
            }
            assert(cells@.subrange(0, cells@.len() as int) =~= cells@);
            let e = trim_end_index(&glyphs, glyphs.len());
            assert(glyphs@.subrange(0, glyphs@.len() as int) =~= glyphs@);
            let line = string_of_range(&glyphs, 0, e);
            let ghost i = k - start;
            assert(vis[i] == self.lines@[k as int]);
            assert(line@ == rendered[i]);
            let ghost before = rendered.subrange(0, i);
            let ghost after = rendered.subrange(0, i + 1);
            assert(after.drop_last() =~= before);
            if k > start {
                push_char(&mut out, '\n');
            }
            let mut t: usize = 0;
            let ghost out0 = out@;
            while t < e
                invariant
                    t <= e <= glyphs@.len(),
                    line@ == glyphs@.subrange(0, e as int),
                    out@ == out0 + line@.subrange(0, t as int),
                decreases e - t,
            {
                push_char(&mut out, glyphs[t]);
                t = t + 1;
                assert(out@ =~= out0 + line@.subrange(0, t as int));
            }
            assert(line@.subrange(0, e as int) =~= line@);
            k = k + 1;
            assert(out@ =~= join_lines(rendered.subrange(0, k - start)));
        }
        assert(rendered.subrange(0, self.lines@.len() - start) =~= rendered);
        out
    }

    /// The screen as text (the same as [`Self::render`]).
    pub fn screen_content(&self) -> (s: String)
        ensures
            s@ == render_spec(self.spec_lines(), self.spec_rows()),
    {
        self.render()
    }

    /// Every position where `text` is found on the visible screen, top to
    /// bottom and left to right, without overlaps: (row, column of the cell
    /// where the match starts).
    pub fn find_all_text(&self, text: &str) -> (r: Vec<(u16, u16)>)
        requires
            text@.len() > 0,
        ensures
            r@ == find_all_spec(self.spec_lines(), self.spec_rows(), text@),
    {
        let needle = chars_of(text);
        let start = self.start();
        let ghost vis = visible_lines(self.lines@, self.rows);
        let mut out: Vec<(u16, u16)> = Vec::new();
        let mut k: usize = start;
        while k < self.lines.len()
            invariant
                needle@ == text@,
                needle@.len() > 0,
                start == visible_start(self.lines@.len(), self.rows),
                start <= k <= self.lines@.len(),
                vis == visible_lines(self.lines@, self.rows),
                self.lines@.len() - start <= self.rows,
                out@ == matches_upto(vis, needle@, k - start),
            decreases self.lines@.len() - k,
        {
            let (hay, idx) = line_chars(&self.lines[k]);
            let ghost cells = self.lines@[k as int]@;
            let ghost row = k - start;
            assert(vis[row] == self.lines@[k as int]);
            let ghost occ = occurrences(hay@, needle@, 0);
            let ghost out0 = out@;
            let mut pos: usize = 0;
            let ghost mut seen: Seq<int> = Seq::empty();
            loop
                invariant
                    start <= k < self.lines@.len(),
                    k - start < self.rows,
                    row == k - start,
                    needle@.len() > 0,
                    hay@ == line_text(cells),
                    idx@.len() == hay@.len(),
                    forall|p: int| 0 <= p < idx@.len() ==> idx@[p] as int == char_cells(cells)[p],
                    pos <= hay@.len() + 1,
                    occ == seen + occurrences(hay@, needle@, pos as int),
                    out@ == out0 + Seq::new(
                        seen.len(),
                        |q: int| (row as u16, char_cells(cells)[seen[q]] as u16),
                    ),
                    row < self.rows,
                ensures
                    occ == seen,
                    out@ == out0 + Seq::new(
                        seen.len(),
                        |q: int| (row as u16, char_cells(cells)[seen[q]] as u16),
                    ),
                decreases hay@.len() + 1 - pos,
            {
                if pos > hay.len() {
                    assert(find_from_spec(hay@, needle@, pos as int) is None);
                    assert(occ =~= seen);
                    break;
                }
                match find_from(&hay, &needle, pos) {
                    None => {
                        assert(occ =~= seen);
                        break;
                    },
                    Some(p) => {
                        proof {
                            lemma_find_from_bounds(hay@, needle@, pos as int);
                        }
                        let ghost old_out = out@;
                        out.push((row_u16(k - start), #[verifier::truncate] (idx[p] as u16)));
                        proof {
                            seen = seen.push(p as int);
                            assert(occurrences(hay@, needle@, pos as int) == seq![p as int]
                                + occurrences(hay@, needle@, p + needle@.len()));
                            assert(occ =~= seen + occurrences(hay@, needle@, p + needle@.len()));
                            assert(out@ =~= out0 + Seq::new(
                                seen.len(),
                                |q: int| (row as u16, char_cells(cells)[seen[q]] as u16),
                            ));
                        }
                        pos = p + needle.len();
                    },
                }
            }
            proof {
                assert(row_matches(cells, needle@, row) =~= Seq::new(
                    seen.len(),
                    |q: int| (row as u16, char_cells(cells)[seen[q]] as u16),
                ));
            }
            k = k + 1;
            assert(out@ =~= matches_upto(vis, needle@, k - start));
        }
        assert(self.lines@.len() - start == vis.len());
        out
    }

    /// The cell at (row, col) of the visible screen, if there is one.
    pub fn get_cell(&self, row: u16, col: u16) -> (c: Option<Cell>)
        ensures
            c == get_cell_spec(self.spec_lines(), self.spec_rows(), self.spec_cols(), row, col),
    {
        if row >= self.rows || col >= self.cols {
            return None;
        }
        let start = self.start();
        if row as usize >= self.lines.len() - start {
            return None;
        }
        let cells = &self.lines[start + row as usize];
        if col as usize >= cells.len() {
            return None;
        }
        let sc = &cells[col as usize];
        let cs = chars_of(sc.text.as_str());
        let character = if cs.len() > 0 { cs[0] } else { ' ' };
        let (fg_r, fg_g, fg_b) = convert_color(sc.fg);
        let (bg_r, bg_g, bg_b) = convert_color(sc.bg);
        Some(Cell { character, fg_r, fg_g, fg_b, bg_r, bg_g, bg_b })
    }
}

/// A visible row number as a `u16` (rows never exceed the screen height).
fn row_u16(r: usize) -> (v: u16)
    requires
        r <= u16::MAX,
    ensures
        v == r,
{
    r as u16
}

/// The 16 basic palette entries follow the xterm bit pattern: in entry
/// `idx`, bit 0 is red, bit 1 green, bit 2 blue. A set bit gives 128 in the
/// standard entries 1 to 7 and 255 in the bright entries 8 to 15; a clear bit
/// gives 0 in the standard entries (entry 0 is black) and 64 in the bright ones.
pub proof fn law_basic_palette_bits(idx: u8)
    requires
        idx < 16,
    ensures
        ({
            let (r, g, b) = ansi_rgb_spec(idx);
            let on: u8 = if idx < 8 { 128 } else { 255 };
            let off: u8 = if idx < 8 { 0 } else { 64 };
            &&& r == (if idx % 2 == 1 { on } else { off })
            &&& g == (if (idx / 2) % 2 == 1 { on } else { off })
            &&& b == (if (idx / 4) % 2 == 1 { on } else { off })
        }),
{
}

/// The color cube: entry `16 + 36 r + 6 g + b` (each step from 0 to 5) has,
/// per component, 0 for step 0 and `55 + 40 * step` otherwise.
pub proof fn law_palette_cube(r: u8, g: u8, b: u8)
    requires
        r < 6,
        g < 6,
        b < 6,
    ensures
        ansi_rgb_spec((16 + 36 * r + 6 * g + b) as u8) == (
            (if r == 0 { 0 } else { 55 + 40 * r }) as u8,
            (if g == 0 { 0 } else { 55 + 40 * g }) as u8,
            (if b == 0 { 0 } else { 55 + 40 * b }) as u8,
        ),
{
    let k: int = 36 * r + 6 * g + b;
    assert(k / 36 == r && (k % 36) / 6 == g && k % 6 == b) by (nonlinear_arith)
        requires
            k == 36 * r + 6 * g + b,
            0 <= r < 6,
            0 <= g < 6,
            0 <= b < 6,
    ;
    assert((16 + 36 * r + 6 * g + b) as u8 - 16 == k);
}

/// The gray ramp: entry `232 + s` (s from 0 to 23) is gray at level `8 + 10 * s`.
pub proof fn law_palette_grays(s: u8)
    requires
        s < 24,
    ensures
        ansi_rgb_spec((232 + s) as u8) == ((8 + 10 * s) as u8, (8 + 10 * s) as u8, (8 + 10 * s) as u8),
{
}

/// The cell read at (row, col) is the cell at index `col` of the visible
/// line `row`: it exists exactly when the position is inside the screen and
/// that line has such a cell, and it shows that cell's first character (a
/// space for an empty cell) in that cell's colors.
pub proof fn law_get_cell_reads_that_cell(
    lines: Seq<Vec<ScreenCell>>,
    rows: u16,
    cols: u16,
    row: u16,
    col: u16,
)
    ensures
        ({
            let vis = visible_lines(lines, rows);
            let c = get_cell_spec(lines, rows, cols, row, col);
            &&& c is Some <==> (row < rows && col < cols && row < vis.len() && col < vis[row as int]@.len())
            &&& c is Some ==> {
                let sc = vis[row as int]@[col as int];
                let cell = c->0;
                &&& (sc.text@.len() > 0 ==> cell.character == sc.text@[0])
                &&& (sc.text@.len() == 0 ==> cell.character == ' ')
                &&& (cell.fg_r, cell.fg_g, cell.fg_b) == color_rgb_spec(sc.fg)
                &&& (cell.bg_r, cell.bg_g, cell.bg_b) == color_rgb_spec(sc.bg)
            }
        }),
{
    let vis = visible_lines(lines, rows);
    let start = visible_start(lines.len(), rows);
    assert(vis.len() == lines.len() - start);
    if row < vis.len() {
        assert(vis[row as int] == lines[start + row]);
    }
}

} // verus!
