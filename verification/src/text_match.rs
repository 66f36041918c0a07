//! Text found (or not) on a terminal screen, with its position and colors,
//! and the checks tests make of such matches.

use vstd::prelude::*;
use crate::color::ColorAssertion;
use crate::terminal::{
    cell_spec, char_cells, find_all_spec, get_cell_spec, line_text, matches_upto, occurrences,
    row_matches, visible_lines, visible_start, Screen, ScreenCell,
};
use crate::text::{find_from_spec, lemma_find_from_bounds};

verus! {

/// Text looked for on the screen: where it was found, if it was, and the
/// colors of its first cell.
#[derive(Debug, Clone)]
pub struct TextMatch {
    text: String,
    row: Option<u16>,
    col: Option<u16>,
    found: bool,
    /// Foreground color.
    pub fg: ColorAssertion,
    /// Background color.
    pub bg: ColorAssertion,
}

/// Why a visibility check failed.
#[derive(Debug, Clone, PartialEq, Eq)]
pub enum VisibilityError {
    /// The text was expected on the screen but is not there.
    NotVisible { text: String },
    /// The text was expected to be absent but was found.
    Visible { text: String, row: Option<u16>, col: Option<u16> },
}

/// A position as (row, column), if both are known.
pub open spec fn position_spec(found: bool, row: Option<u16>, col: Option<u16>) -> Option<
    (u16, u16),
> {
    if found {
        match (row, col) {
            (Some(r), Some(c)) => Some((r, c)),
            _ => None,
        }
    } else {
        None
    }
}

impl TextMatch {
    pub closed spec fn spec_text(&self) -> Seq<char> {
        self.text@
    }

    pub closed spec fn spec_found(&self) -> bool {
        self.found
    }

    pub closed spec fn spec_fg(&self) -> ColorAssertion {
        self.fg
    }

    pub closed spec fn spec_bg(&self) -> ColorAssertion {
        self.bg
    }

    pub closed spec fn spec_row(&self) -> Option<u16> {
        self.row
    }

    pub closed spec fn spec_col(&self) -> Option<u16> {
        self.col
    }

    /// Where the text was found, if it was and its position is known.
    pub open spec fn spec_position(&self) -> Option<(u16, u16)> {
        position_spec(self.spec_found(), self.spec_row(), self.spec_col())
    }

    pub fn new(
        text: String,
        row: Option<u16>,
        col: Option<u16>,
        found: bool,
        fg: ColorAssertion,
        bg: ColorAssertion,
    ) -> (m: Self)
        ensures
            m.spec_text() == text@,
            m.spec_row() == row,
            m.spec_col() == col,
            m.spec_found() == found,
            m.spec_fg() == fg,
            m.spec_bg() == bg,
    {
        TextMatch { text, row, col, found, fg, bg }
    }

    /// A match for `text` that is not on the screen.
    pub fn not_found(text: &str) -> (m: Self)
        ensures
            m.spec_text() == text@,
            m.spec_row() is None,
            m.spec_col() is None,
            !m.spec_found(),
            !m.spec_fg().spec_found() && m.spec_fg().spec_rgb() is None,
            !m.spec_bg().spec_found() && m.spec_bg().spec_rgb() is None,
    {
        TextMatch {
            text: text.to_owned(),
            row: None,
            col: None,
            found: false,
            fg: ColorAssertion::not_found(),
            bg: ColorAssertion::not_found(),
        }
    }

    /// The (row, column) where the text was found.
    pub fn position(&self) -> (p: Option<(u16, u16)>)
        ensures
            p == self.spec_position(),
    {
        if self.found {
            match (self.row, self.col) {
                (Some(r), Some(c)) => Some((r, c)),
                _ => None,
            }
        } else {
            None
        }
    }

    /// Whether the text was found on the screen.
    pub fn is_visible(&self) -> (b: bool)
        ensures
            b == self.spec_found(),
    {
        self.found
    }

    /// Checks that the text is on the screen.
    pub fn assert_visible(&self) -> (r: Result<(), VisibilityError>)
        ensures
            r is Ok <==> self.spec_found(),
            r matches Err(VisibilityError::NotVisible { text }) ==> text@ == self.spec_text(),
            r matches Err(e) ==> e is NotVisible,
    {
        if self.found {
            Ok(())
        } else {
            Err(VisibilityError::NotVisible { text: self.text.clone() })
        }
    }

    /// Checks that the text is not on the screen.
    pub fn assert_not_visible(&self) -> (r: Result<(), VisibilityError>)
        ensures
            r is Ok <==> !self.spec_found(),
            r matches Err(e) ==> (e matches VisibilityError::Visible { text, row, col }
                && text@ == self.spec_text() && row == self.spec_row() && col == self.spec_col()),
    {
        if !self.found {
            Ok(())
        } else {
            Err(
                VisibilityError::Visible {
                    text: self.text.clone(),
                    row: self.row,
                    col: self.col,
                },
            )
        }
    }
}

/// Why a vertical-order check failed.
#[derive(Debug, Clone, Copy, PartialEq, Eq)]
pub enum OrderError {
    /// There is nothing to order.
    EmptyList,
    /// The item at this index is not on the screen.
    ItemNotFound { index: usize },
    /// The item at this index comes before the one ahead of it in the list.
    OutOfOrder { index: usize },
}

/// `a` is not after `b`: on an earlier row, or on the same row and not
/// further right.
pub open spec fn not_after(a: (u16, u16), b: (u16, u16)) -> bool {
    a.0 < b.0 || (a.0 == b.0 && a.1 <= b.1)
}

/// The outcome of checking items `0..k` (after the list is known not to be empty).
pub open spec fn order_check_upto(ps: Seq<Option<(u16, u16)>>, k: int) -> Result<(), OrderError>
    decreases k,
{
    if k <= 0 {
        Ok(())
    } else {
        match order_check_upto(ps, k - 1) {
            Err(e) => Err(e),
            Ok(_) => match ps[k - 1] {
                None => Err(OrderError::ItemNotFound { index: (k - 1) as usize }),
                Some(p) => if k >= 2 && (ps[k - 2] matches Some(q) && !not_after(q, p)) {
                    Err(OrderError::OutOfOrder { index: (k - 1) as usize })
                } else {
                    Ok(())
                },
            },
        }
    }
}

/// The outcome of checking that the positions `ps` run top to bottom, and
/// left to right within a row: the first item that is missing or out of
/// order is reported.
pub open spec fn order_check_spec(ps: Seq<Option<(u16, u16)>>) -> Result<(), OrderError> {
    if ps.len() == 0 {
        Err(OrderError::EmptyList)
    } else {
        order_check_upto(ps, ps.len() as int)
    }
}

/// The positions of a list of matches.
pub open spec fn positions_of(ms: Seq<TextMatch>) -> Seq<Option<(u16, u16)>> {
    ms.map_values(|m: TextMatch| m.spec_position())
}

/// Once the check of a prefix fails, the check of every longer prefix fails
/// the same way.
proof fn lemma_order_err_persists(ps: Seq<Option<(u16, u16)>>, k: int, k2: int)
    requires
        0 <= k <= k2,
        order_check_upto(ps, k) is Err,
    ensures
        order_check_upto(ps, k2) == order_check_upto(ps, k),
    decreases k2 - k,
{
    if k2 > k {
        lemma_order_err_persists(ps, k, k2 - 1);
    }
}

/// Checks that the matches appear in vertical order (see [`order_check_spec`]).
pub fn check_vertical_order(matches: &[TextMatch]) -> (r: Result<(), OrderError>)
    ensures
        r == order_check_spec(positions_of(matches@)),
{
    let ghost ps = positions_of(matches@);
    if matches.len() == 0 {
        return Err(OrderError::EmptyList);
    }
    let mut prev: Option<(u16, u16)> = None;
    let mut i: usize = 0;
    while i < matches.len()
        invariant
            ps == positions_of(matches@),
            i <= matches@.len(),
            order_check_upto(ps, i as int) is Ok,
            i > 0 ==> prev == ps[i - 1],
        decreases matches@.len() - i,
    {
        let p = matches[i].position();
        assert(p == ps[i as int]);
        match p {
            None => {
                proof {
                    lemma_order_err_persists(ps, i + 1, ps.len() as int);
                }
                return Err(OrderError::ItemNotFound { index: i });
            },
            Some(pos) => {
                if i > 0 {
                    match prev {
                        Some(q) => {
                            if !(q.0 < pos.0 || (q.0 == pos.0 && q.1 <= pos.1)) {
                                proof {
                                    lemma_order_err_persists(ps, i + 1, ps.len() as int);
                                }
                                return Err(OrderError::OutOfOrder { index: i });
                            }
                        },
                        None => {},
                    }
                }
            },
        }
        prev = p;
        i = i + 1;
    }
    Ok(())
}

/// A passing vertical-order check means every item is on the screen and
/// each item is not after any later one: the whole list is sorted top to
/// bottom, left to right.
pub proof fn law_vertical_order_sorted(ps: Seq<Option<(u16, u16)>>)
    requires
        order_check_spec(ps) is Ok,
    ensures
        ps.len() > 0,
        forall|i: int| 0 <= i < ps.len() ==> ps[i] is Some,
        forall|i: int, j: int|
            0 <= i < j < ps.len() ==> not_after(#[trigger] ps[i]->Some_0, #[trigger] ps[j]->Some_0),
{
    lemma_order_upto(ps, ps.len() as int);
}

proof fn lemma_order_upto(ps: Seq<Option<(u16, u16)>>, k: int)
    requires
        0 <= k <= ps.len(),
        order_check_upto(ps, k) is Ok,
    ensures
        forall|i: int| 0 <= i < k ==> ps[i] is Some,
        forall|i: int, j: int|
            0 <= i < j < k ==> not_after(#[trigger] ps[i]->Some_0, #[trigger] ps[j]->Some_0),
    decreases k,
{
    if k > 0 {
        lemma_order_upto(ps, k - 1);
        assert forall|i: int, j: int| 0 <= i < j < k implies not_after(
            #[trigger] ps[i]->Some_0,
            #[trigger] ps[j]->Some_0,
        ) by {
            if j == k - 1 && i < k - 2 {
                assert(not_after(ps[i]->Some_0, ps[k - 2]->Some_0));
            }
        }
    }
}

/// The match at a found position of `text`, with the colors of the cell there.
pub fn match_at(screen: &Screen, text: &str, pos: (u16, u16)) -> (m: TextMatch)
    ensures
        m.spec_text() == text@,
        m.spec_found(),
        m.spec_row() == Some(pos.0),
        m.spec_col() == Some(pos.1),
        match get_cell_spec(screen.spec_lines(), screen.spec_rows(), screen.spec_cols(), pos.0, pos.1) {
            Some(c) => m.spec_fg().spec_found() && m.spec_fg().spec_rgb() == Some((c.fg_r, c.fg_g, c.fg_b))
                && m.spec_bg().spec_found() && m.spec_bg().spec_rgb() == Some((c.bg_r, c.bg_g, c.bg_b)),
            None => !m.spec_fg().spec_found() && !m.spec_bg().spec_found(),
        },
{
    let (fg, bg) = match screen.get_cell(pos.0, pos.1) {
        Some(cell) => (
            ColorAssertion::from_rgb(cell.fg_r, cell.fg_g, cell.fg_b),
            ColorAssertion::from_rgb(cell.bg_r, cell.bg_g, cell.bg_b),
        ),
        None => (ColorAssertion::not_found(), ColorAssertion::not_found()),
    };
    TextMatch::new(text.to_owned(), Some(pos.0), Some(pos.1), true, fg, bg)
}

/// All matches of `text` on the screen, top to bottom and left to right.
pub fn find_all_matches(screen: &Screen, text: &str) -> (ms: Vec<TextMatch>)
    requires
        text@.len() > 0,
    ensures
        ms@.len() == find_all_spec(screen.spec_lines(), screen.spec_rows(), text@).len(),
        forall|i: int|
            0 <= i < ms@.len() ==> (#[trigger] ms@[i]).spec_found() && ms@[i].spec_text() == text@
                && ms@[i].spec_position() == Some(
                find_all_spec(screen.spec_lines(), screen.spec_rows(), text@)[i],
            ),
{
    let positions = screen.find_all_text(text);
    let mut ms: Vec<TextMatch> = Vec::new();
    let mut i: usize = 0;
    while i < positions.len()
        invariant
            positions@ == find_all_spec(screen.spec_lines(), screen.spec_rows(), text@),
            i <= positions@.len(),
            ms@.len() == i,
            forall|j: int|
                0 <= j < i ==> (#[trigger] ms@[j]).spec_found() && ms@[j].spec_text() == text@
                    && ms@[j].spec_position() == Some(positions@[j]),
        decreases positions@.len() - i,
    {
        let m = match_at(screen, text, positions[i]);
        ms.push(m);
        i = i + 1;
    }
    ms
}

/// The single match of `text` on the screen: `Ok` with a not-found match
/// when it is absent, `Ok` with the match when it occurs once, `Err` with the
/// number of occurrences when it occurs more than once.
pub fn find_single_match(screen: &Screen, text: &str) -> (r: Result<TextMatch, usize>)
    requires
        text@.len() > 0,
    ensures
        ({
            let all = find_all_spec(screen.spec_lines(), screen.spec_rows(), text@);
            match r {
                Ok(m) => m.spec_text() == text@ && if all.len() == 0 {
                    !m.spec_found()
                } else {
                    all.len() == 1 && m.spec_found() && m.spec_position() == Some(all[0])
                },
                Err(n) => all.len() > 1 && n == all.len(),
            }
        }),
{
    let positions = screen.find_all_text(text);
    if positions.len() == 0 {
        Ok(TextMatch::not_found(text))
    } else if positions.len() == 1 {
        Ok(match_at(screen, text, positions[0]))
    } else {
        Err(positions.len())
    }
}

/// The occurrences found from `start` on are increasing and lie within the text.
proof fn lemma_occurrences_sorted(hay: Seq<char>, needle: Seq<char>, start: int)
    requires
        needle.len() > 0,
    ensures
        ({
            let occ = occurrences(hay, needle, start);
            &&& forall|i: int| 0 <= i < occ.len() ==> start <= #[trigger] occ[i] && occ[i]
                + needle.len() <= hay.len()
            &&& forall|i: int, j: int| 0 <= i < j < occ.len() ==> #[trigger] occ[i] < #[trigger] occ[j]
        }),
    decreases hay.len() + 1 - start,
{
    lemma_find_from_bounds(hay, needle, start);
    match find_from_spec(hay, needle, start) {
        None => {},
        Some(p) => {
            lemma_occurrences_sorted(hay, needle, p + needle.len());
            let rest = occurrences(hay, needle, p + needle.len());
            let occ = occurrences(hay, needle, start);
            assert(occ == seq![p] + rest);
            assert forall|i: int, j: int| 0 <= i < j < occ.len() implies #[trigger] occ[i]
                < #[trigger] occ[j] by {
                if i > 0 {
                    assert(occ[i] == rest[i - 1]);
                }
                assert(occ[j] == rest[j - 1]);
            }
            assert forall|i: int| 0 <= i < occ.len() implies start <= #[trigger] occ[i] && occ[i]
                + needle.len() <= hay.len() by {
                if i > 0 {
                    assert(occ[i] == rest[i - 1]);
                }
            }
        },
    }
}

/// The cell of each character of a line: one per character, increasing, and
/// a cell of the line.
proof fn lemma_char_cells(cells: Seq<ScreenCell>)
    ensures
        char_cells(cells).len() == line_text(cells).len(),
        forall|p: int|
            0 <= p < char_cells(cells).len() ==> 0 <= #[trigger] char_cells(cells)[p] < cells.len(),
        forall|p: int, q: int|
            0 <= p <= q < char_cells(cells).len() ==> #[trigger] char_cells(cells)[p]
                <= #[trigger] char_cells(cells)[q],
    decreases cells.len(),
{
    if cells.len() > 0 {
        let pre = cells.drop_last();
        lemma_char_cells(pre);
        let a = char_cells(pre);
        let cc = char_cells(cells);
        assert(cc == a + Seq::new(cells.last().text@.len(), |j: int| cells.len() - 1));
        assert forall|p: int| 0 <= p < cc.len() implies 0 <= #[trigger] cc[p] < cells.len() by {
            if p < a.len() {
                assert(cc[p] == a[p]);
            }
        }
        assert forall|p: int, q: int| 0 <= p <= q < cc.len() implies #[trigger] cc[p]
            <= #[trigger] cc[q] by {
            if q < a.len() {
                assert(cc[p] == a[p]);
                assert(cc[q] == a[q]);
            } else if p < a.len() {
                assert(cc[p] == a[p]);
            }
        }
    }
}

/// The matches on one row are on that row, from left to right.
proof fn lemma_row_matches_sorted(cells: Seq<ScreenCell>, needle: Seq<char>, row: int)
    requires
        needle.len() > 0,
        cells.len() <= 0x10000,
        0 <= row < 0x10000,
    ensures
        forall|t: int|
            0 <= t < row_matches(cells, needle, row).len() ==> (#[trigger] row_matches(
                cells,
                needle,
                row,
            )[t]).0 as int == row,
        forall|t: int, u: int|
            0 <= t < u < row_matches(cells, needle, row).len() ==> (#[trigger] row_matches(
                cells,
                needle,
                row,
            )[t]).1 <= (#[trigger] row_matches(cells, needle, row)[u]).1,
{
    let hay = line_text(cells);
    let occ = occurrences(hay, needle, 0);
    let cc = char_cells(cells);
    lemma_occurrences_sorted(hay, needle, 0);
    lemma_char_cells(cells);
    let rm = row_matches(cells, needle, row);
    assert forall|t: int, u: int| 0 <= t < u < rm.len() implies (#[trigger] rm[t]).1 <= (
    #[trigger] rm[u]).1 by {
        assert(occ[t] < occ[u]);
        assert(cc[occ[t]] <= cc[occ[u]]);
        assert(0 <= cc[occ[u]] < 0x10000);
        assert(0 <= cc[occ[t]] < 0x10000);
    }
}

/// The matches on the first `k` visible rows run top to bottom, left to
/// right, each on a row before `k`.
proof fn lemma_matches_upto_sorted(vis: Seq<Vec<ScreenCell>>, needle: Seq<char>, k: int)
    requires
        needle.len() > 0,
        0 <= k <= vis.len(),
        vis.len() <= 0x10000,
        forall|i: int| 0 <= i < vis.len() ==> (#[trigger] vis[i])@.len() <= 0x10000,
    ensures
        forall|t: int|
            0 <= t < matches_upto(vis, needle, k).len() ==> ((#[trigger] matches_upto(
                vis,
                needle,
                k,
            )[t]).0 as int) < k,
        forall|t: int, u: int|
            0 <= t < u < matches_upto(vis, needle, k).len() ==> not_after(
                #[trigger] matches_upto(vis, needle, k)[t],
                #[trigger] matches_upto(vis, needle, k)[u],
            ),
    decreases k,
{
    if k > 0 {
        lemma_matches_upto_sorted(vis, needle, k - 1);
        lemma_row_matches_sorted(vis[k - 1]@, needle, k - 1);
        let m = matches_upto(vis, needle, k - 1);
        let r = row_matches(vis[k - 1]@, needle, k - 1);
        let all = matches_upto(vis, needle, k);
        assert(all == m + r);
        assert forall|t: int| 0 <= t < all.len() implies ((#[trigger] all[t]).0 as int) < k by {
            if t < m.len() {
                assert(all[t] == m[t]);
            } else {
                assert(all[t] == r[t - m.len()]);
            }
        }
        assert forall|t: int, u: int| 0 <= t < u < all.len() implies not_after(
            #[trigger] all[t],
            #[trigger] all[u],
        ) by {
            if u < m.len() {
                assert(all[t] == m[t]);
                assert(all[u] == m[u]);
            } else if t < m.len() {
                assert(all[t] == m[t]);
                assert(all[u] == r[u - m.len()]);
            } else {
                assert(all[t] == r[t - m.len()]);
                assert(all[u] == r[u - m.len()]);
            }
        }
    }
}

/// A list of positions that are all known and sorted passes every prefix
/// of the order check.
proof fn lemma_sorted_passes(ps: Seq<Option<(u16, u16)>>, k: int)
    requires
        0 <= k <= ps.len(),
        forall|i: int| 0 <= i < ps.len() ==> ps[i] is Some,
        forall|i: int, j: int|
            0 <= i < j < ps.len() ==> not_after(#[trigger] ps[i]->Some_0, #[trigger] ps[j]->Some_0),
    ensures
        order_check_upto(ps, k) is Ok,
    decreases k,
{
    if k > 0 {
        lemma_sorted_passes(ps, k - 1);
        if k >= 2 {
            assert(not_after(ps[k - 2]->Some_0, ps[k - 1]->Some_0));
        }
    }
}

/// The matches of a text are found top to bottom and, within a row, left to
/// right: their positions are sorted, so when there are any they pass the
/// vertical-order check. (A line wider than 65536 cells would make columns
/// wrap around, and is left out.)
pub proof fn law_found_matches_in_reading_order(
    lines: Seq<Vec<ScreenCell>>,
    rows: u16,
    needle: Seq<char>,
)
    requires
        needle.len() > 0,
        forall|i: int| 0 <= i < lines.len() ==> (#[trigger] lines[i])@.len() <= 0x10000,
    ensures
        forall|t: int, u: int|
            0 <= t < u < find_all_spec(lines, rows, needle).len() ==> not_after(
                #[trigger] find_all_spec(lines, rows, needle)[t],
                #[trigger] find_all_spec(lines, rows, needle)[u],
            ),
        find_all_spec(lines, rows, needle).len() > 0 ==> order_check_spec(
            Seq::new(
                find_all_spec(lines, rows, needle).len(),
                |i: int| Some(find_all_spec(lines, rows, needle)[i]),
            ),
        ) is Ok,
{
    let vis = visible_lines(lines, rows);
    assert forall|i: int| 0 <= i < vis.len() implies (#[trigger] vis[i])@.len() <= 0x10000 by {
        assert(vis[i] == lines[visible_start(lines.len(), rows) + i]);
    }
    lemma_matches_upto_sorted(vis, needle, vis.len() as int);
    let f = find_all_spec(lines, rows, needle);
    let ps = Seq::new(f.len(), |i: int| Some(f[i]));
    assert forall|i: int, j: int| 0 <= i < j < ps.len() implies not_after(
        #[trigger] ps[i]->Some_0,
        #[trigger] ps[j]->Some_0,
    ) by {
        assert(not_after(f[i], f[j]));
    }
    lemma_sorted_passes(ps, ps.len() as int);
}

} // verus!
