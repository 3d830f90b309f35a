use std::collections::VecDeque;

use vstd::prelude::*;

use crate::text::{
    blank_cell, byte_len, expand, fresh_line, offset, reindexed, repeat_count, run_cell, spliced,
    CellView, GridLineCell, LayoutCache, LineView, TextCell, TextLine,
};

verus! {

/// The views of a sequence of lines.
pub open spec fn views(s: Seq<TextLine>) -> Seq<LineView> {
    s.map_values(|l: TextLine| l@)
}

pub proof fn lemma_views_push(s: Seq<TextLine>, x: TextLine)
    ensures
        views(s.push(x)) == views(s).push(x@),
{
    assert(views(s.push(x)) =~= views(s).push(x@));
}

pub proof fn lemma_views_subrange(s: Seq<TextLine>, i: int, j: int)
    requires
        0 <= i <= j <= s.len(),
    ensures
        views(s.subrange(i, j)) == views(s).subrange(i, j),
{
    assert(views(s.subrange(i, j)) =~= views(s).subrange(i, j));
}

pub proof fn lemma_views_add(s: Seq<TextLine>, t: Seq<TextLine>)
    ensures
        views(s + t) == views(s) + views(t),
{
    assert(views(s + t) =~= views(s) + views(t));
}

pub proof fn lemma_views_insert(s: Seq<TextLine>, i: int, x: TextLine)
    requires
        0 <= i <= s.len(),
    ensures
        views(s.insert(i, x)) == views(s).insert(i, x@),
{
    assert(views(s.insert(i, x)) =~= views(s).insert(i, x@));
}

pub proof fn lemma_views_remove(s: Seq<TextLine>, i: int)
    requires
        0 <= i < s.len(),
    ensures
        views(s.remove(i)) == views(s).remove(i),
{
    assert(views(s.remove(i)) =~= views(s).remove(i));
}

/// The cells of a line brought to `cols` columns: cut, or grown with blank
/// cells numbered on from the start index of the last cell.
pub open spec fn resized_cells(cells: Seq<CellView>, cols: nat) -> Seq<CellView> {
    if cols <= cells.len() {
        cells.take(cols as int)
    } else {
        let s: int = if cells.len() > 0 { cells.last().start_index as int } else { 0 };
        cells + Seq::new((cols - cells.len()) as nat, |i: int| blank_cell((s + i) as usize, (s + i + 1) as usize))
    }
}

/// Whether growing the cells to `cols` keeps their byte indices within `usize`.
pub open spec fn widen_fits(cells: Seq<CellView>, cols: nat) -> bool {
    cols > cells.len() ==> (if cells.len() > 0 { cells.last().start_index as int } else { 0 }) + (cols - cells.len()) <= usize::MAX
}

pub open spec fn resized_lines(lines: Seq<LineView>, cols: nat) -> Seq<LineView> {
    Seq::new(lines.len(), |i: int| LineView { nr: lines[i].nr, cells: resized_cells(lines[i].cells, cols) })
}

pub proof fn lemma_leading_below(s: Seq<LineView>, top: usize, k: int)
    requires
        0 <= k <= s.len(),
        forall|j: int| 0 <= j < k ==> #[trigger] s[j].nr < top,
        k == s.len() || s[k].nr >= top,
    ensures
        leading_below(s, top) == k,
    decreases k,
{
    if k > 0 {
        assert(s[0].nr < top);
        let t = s.drop_first();
        assert forall|j: int| 0 <= j < k - 1 implies #[trigger] t[j].nr < top by {
            assert(t[j] == s[j + 1]);
        }
        if k - 1 < t.len() {
            assert(t[k - 1] == s[k]);
        }
        lemma_leading_below(t, top, k - 1);
    }
}

/// Whether `resize(rows, cols)` runs without failing: the discard it starts
/// with must succeed, the lines it adds must be numbered within `usize`, and
/// widened lines must keep their byte indices within `usize`.
pub open spec fn resize_ok(lines: Seq<LineView>, top: usize, old_rows: nat, old_cols: nat, rows: nat, cols: nat) -> bool {
    let d = discarded(lines, top, old_rows, old_cols);
    &&& discard_ok(lines, top, old_rows)
    &&& ensure_fits(d, top, rows)
    &&& (d.len() > 0 && rows > d.len() ==> d.last().nr < usize::MAX)
    &&& forall|i: int| 0 <= i < ensured(d, top, rows, old_cols).len() ==> widen_fits(#[trigger] ensured(d, top, rows, old_cols)[i].cells, cols)
}

/// The position of the first line numbered `nr`, if any.
pub open spec fn has_line(lines: Seq<LineView>, nr: int) -> bool {
    exists|i: int| 0 <= i < lines.len() && lines[i].nr == nr
}

pub open spec fn first_line(lines: Seq<LineView>, nr: int) -> int {
    choose|i: int| 0 <= i < lines.len() && lines[i].nr == nr && forall|j: int| 0 <= j < i ==> lines[j].nr != nr
}

/// Whether `set_cells(row, col, runs)` runs without failing: the line shown
/// at `row` exists, the runs fit in it from `col`, and the line's text stays
/// within `usize` bytes.
pub open spec fn set_cells_ok(lines: Seq<LineView>, top: usize, row: usize, col: usize, runs: Seq<GridLineCell>) -> bool {
    &&& top + row <= usize::MAX
    &&& has_line(lines, top + row)
    &&& {
        let line = lines[first_line(lines, top + row)];
        &&& col + expand(runs).len() <= line.cells.len()
        &&& offset(spliced(line.cells, col as int, expand(runs)), line.cells.len() as int) <= usize::MAX
    }
}

/// The lines after the runs `runs` are written into the line shown at
/// `row` from column `col` on, the line's byte ranges laid end to end again.
pub open spec fn written(lines: Seq<LineView>, top: usize, row: usize, col: usize, runs: Seq<GridLineCell>) -> Seq<LineView> {
    let i = first_line(lines, top + row);
    let line = lines[i];
    lines.update(i, LineView { nr: line.nr, cells: reindexed(spliced(line.cells, col as int, expand(runs))) })
}

/// The text of a new grid of `rows` lines of `cols` blank cells.
pub open spec fn blank_text(rows: nat, cols: nat) -> Seq<LineView> {
    resized_lines(ensured(fresh_grid(1, 1), 0, rows, 1), cols)
}

pub proof fn lemma_first_line(lines: Seq<LineView>, nr: int, i: int)
    requires
        0 <= i < lines.len(),
        lines[i].nr == nr,
        forall|j: int| 0 <= j < i ==> lines[j].nr != nr,
    ensures
        has_line(lines, nr),
        first_line(lines, nr) == i,
{
    let f = first_line(lines, nr);
    assert(0 <= f < lines.len() && lines[f].nr == nr && forall|j: int| 0 <= j < f ==> lines[j].nr != nr);
    if f < i {
        assert(lines[f].nr != nr);
    } else if f > i {
        assert(lines[i].nr != nr);
    }
}

pub proof fn lemma_offset_monotone(cells: Seq<CellView>, i: int, j: int)
    requires
        0 <= i <= j,
    ensures
        offset(cells, i) <= offset(cells, j),
    decreases j - i,
{
    if i < j {
        lemma_offset_monotone(cells, i, j - 1);
    }
}

pub proof fn lemma_expand_prefix(runs: Seq<GridLineCell>, i: int)
    requires
        0 <= i <= runs.len(),
    ensures
        expand(runs.take(i)).len() <= expand(runs).len(),
    decreases runs.len() - i,
{
    if i < runs.len() {
        lemma_expand_prefix(runs, i + 1);
        lemma_expand_step(runs, i);
    } else {
        assert(runs.take(i) =~= runs);
    }
}

pub proof fn lemma_expand_step(runs: Seq<GridLineCell>, i: int)
    requires
        0 <= i < runs.len(),
    ensures
        expand(runs.take(i + 1)) == expand(runs.take(i)) + Seq::new(repeat_count(runs[i]), |k: int| run_cell(runs[i])),
{
    assert(runs.take(i + 1).drop_last() =~= runs.take(i));
    assert(runs.take(i + 1).last() == runs[i]);
}

/// How many successors of line `a`, among the next `r - 1` lines, continue
/// its numbering without a gap.
pub open spec fn run_len(lines: Seq<LineView>, a: int, r: int) -> nat
    decreases r,
{
    if r <= 1 || a < 0 || a + 1 >= lines.len() || lines[a + 1].nr != lines[a].nr + 1 {
        0
    } else {
        1 + run_len(lines, a + 1, r - 1)
    }
}

/// Whether the window of `r` lines from `a` ends in a gap: a line within it
/// that does not continue the numbering.
pub open spec fn gap_after_run(lines: Seq<LineView>, a: int, r: int) -> bool {
    let c = run_len(lines, a, r) as int;
    c < r - 1 && a + c + 1 < lines.len()
}

/// 1 when the line right after `a` (within a window of `r >= 2` lines) does
/// not continue the numbering.
pub open spec fn gap_flag(lines: Seq<LineView>, a: int, r: int) -> int {
    if r >= 2 && 0 <= a && a + 1 < lines.len() && lines[a + 1].nr != lines[a].nr + 1 {
        1
    } else {
        0
    }
}

/// The lines after one round of gap filling from `a`: at the first gap of the
/// window, as many fresh lines as the gap is wide, but at most `rows` less the
/// run before it.
pub open spec fn filled_once(lines: Seq<LineView>, a: int, r: int, rows: int, cols: nat) -> Seq<LineView> {
    let c = run_len(lines, a, r) as int;
    let prev = lines[a + c].nr as int;
    let next = lines[a + c + 1].nr as int;
    let lacks = next - prev - 1;
    let k = if rows - c < lacks { rows - c } else { lacks };
    lines.take(a + c + 1) + fresh_run(prev + 1, k as nat, cols) + lines.skip(a + c + 1)
}

/// Whether a round from `a` can go on to another: there is a gap, the next
/// line is numbered past the run, and the run can be continued.
pub open spec fn round_continues(lines: Seq<LineView>, a: int, r: int, rows: int) -> bool {
    let c = run_len(lines, a, r) as int;
    &&& 0 <= a < lines.len()
    &&& r <= rows
    &&& gap_after_run(lines, a, r)
    &&& lines[a + c + 1].nr > lines[a + c].nr + 1
}

/// The rounds of gap filling from line `a` with a budget of `r` rows: the
/// lines they leave and the budget left over.
pub open spec fn fill_rounds(lines: Seq<LineView>, a: int, r: int, rows: int, cols: nat) -> (Seq<LineView>, int)
    decreases 2 * r + gap_flag(lines, a, r) when r >= 0
{
    let c = run_len(lines, a, r) as int;
    if r >= 1 && round_continues(lines, a, r, rows) {
        proof {
            lemma_run_len_bound(lines, a, r);
            if c == 0 {
                lemma_round_clears_flag(lines, a, r, rows, cols);
            }
        }
        fill_rounds(filled_once(lines, a, r, rows, cols), a + c + 1, r - c, rows, cols)
    } else {
        (lines, r - c)
    }
}

/// Whether the rounds of gap filling run without failing: each round starts
/// on a line with budget left, and every gap it meets is a real one (the
/// numbering goes up across it).
pub open spec fn fill_ok(lines: Seq<LineView>, a: int, r: int, rows: int, cols: nat) -> bool
    decreases 2 * r + gap_flag(lines, a, r) when r >= 0
{
    let c = run_len(lines, a, r) as int;
    &&& r >= 1
    &&& 0 <= a < lines.len()
    &&& r <= rows
    &&& (gap_after_run(lines, a, r) ==> lines[a + c + 1].nr > lines[a + c].nr + 1 && lines[a + c].nr < usize::MAX)
    &&& (round_continues(lines, a, r, rows) ==> {
        proof {
            lemma_run_len_bound(lines, a, r);
            if c == 0 {
                lemma_round_clears_flag(lines, a, r, rows, cols);
            }
        }
        fill_ok(filled_once(lines, a, r, rows, cols), a + c + 1, r - c, rows, cols)
    })
}

pub proof fn lemma_run_len_bound(lines: Seq<LineView>, a: int, r: int)
    ensures
        run_len(lines, a, r) <= if r >= 1 { r - 1 } else { 0 },
        run_len(lines, a, r) > 0 ==> 0 <= a && a + run_len(lines, a, r) < lines.len(),
        forall|t: int| 0 < t <= run_len(lines, a, r) ==> #[trigger] lines[a + t].nr == lines[a + t - 1].nr + 1,
        run_len(lines, a, r) == 0 && r >= 2 && 0 <= a && a + 1 < lines.len() ==> lines[a + 1].nr != lines[a].nr + 1,
    decreases r,
{
    if r <= 1 || a < 0 || a + 1 >= lines.len() || lines[a + 1].nr != lines[a].nr + 1 {
    } else {
        lemma_run_len_bound(lines, a + 1, r - 1);
        assert forall|t: int| 0 < t <= run_len(lines, a, r) implies #[trigger] lines[a + t].nr == lines[a + t - 1].nr + 1 by {
            if t > 1 {
                assert(lines[(a + 1) + (t - 1)].nr == lines[(a + 1) + (t - 1) - 1].nr + 1);
            }
        }
    }
}

/// A round with no run before its gap fills the gap right after the start,
/// so the next round starts on a line whose successor continues it.
pub proof fn lemma_round_clears_flag(lines: Seq<LineView>, a: int, r: int, rows: int, cols: nat)
    requires
        r >= 1,
        round_continues(lines, a, r, rows),
        run_len(lines, a, r) == 0,
    ensures
        gap_flag(lines, a, r) == 1,
        gap_flag(filled_once(lines, a, r, rows, cols), a + 1, r) == 0,
{
    lemma_run_len_bound(lines, a, r);
    let l2 = filled_once(lines, a, r, rows, cols);
    let prev = lines[a].nr as int;
    let next = lines[a + 1].nr as int;
    let k = if rows < next - prev - 1 { rows } else { next - prev - 1 };
    assert(k >= 1);
    assert(l2[a + 1] == fresh_line((prev + 1) as usize, cols));
    if k >= 2 {
        assert(l2[a + 2] == fresh_line((prev + 2) as usize, cols));
    } else {
        assert(l2[a + 2] == lines[a + 1]);
    }
}

/// The lines after `set_viewport` first makes room for the new top: fresh
/// lines before the first one when the top moved above it, or `bottom - top`
/// fresh lines from the top when it moved past the last one.
pub open spec fn extended(lines: Seq<LineView>, top: usize, bottom: usize, cols: nat) -> Seq<LineView> {
    if (top as int) < lines[0].nr {
        fresh_run(top as int, (lines[0].nr - top) as nat, cols) + lines
    } else if lines.last().nr < top {
        lines + fresh_run(top as int, (if bottom >= top { bottom - top } else { 0 }) as nat, cols)
    } else {
        lines
    }
}

/// The lines once a line numbered `top` is put where the numbering passes it.
pub open spec fn top_filled(lines: Seq<LineView>, top: usize, cols: nat) -> Seq<LineView> {
    let i = leading_below(lines, top) as int;
    if i < lines.len() && lines[i].nr > top {
        lines.take(i) + fresh_run(top as int, (lines[i].nr - top) as nat, cols) + lines.skip(i)
    } else {
        lines
    }
}

/// The lines and leftover budget once the window from the top line is filled.
pub open spec fn window_filled(lines: Seq<LineView>, top: usize, rows: nat, cols: nat) -> (Seq<LineView>, int) {
    let l2 = top_filled(lines, top, cols);
    let i = leading_below(lines, top) as int;
    if i < lines.len() {
        fill_rounds(l2, i, rows as int, rows as int, cols)
    } else {
        (l2, rows as int)
    }
}

/// The lines `set_viewport(top, bottom)` leaves.
pub open spec fn viewport_lines(
    lines: Seq<LineView>,
    old_top: usize,
    old_bottom: usize,
    top: usize,
    bottom: usize,
    rows: nat,
    cols: nat,
) -> Seq<LineView> {
    if old_top == 0 && old_bottom == 0 {
        renumbered(lines, top as int)
    } else if top == old_top {
        lines
    } else {
        let l1 = extended(lines, top, bottom, cols);
        let (l3, r) = window_filled(l1, top, rows, cols);
        if r > 0 {
            l3 + fresh_run(append_start(l3, top, None), r as nat, cols)
        } else {
            l3
        }
    }
}

/// Whether `set_viewport(top, bottom)` runs without failing.
pub open spec fn viewport_ok(
    lines: Seq<LineView>,
    old_top: usize,
    old_bottom: usize,
    top: usize,
    bottom: usize,
    rows: nat,
    cols: nat,
) -> bool {
    if old_top == 0 && old_bottom == 0 {
        top + lines.len() <= usize::MAX
    } else if top == old_top {
        true
    } else {
        let l1 = extended(lines, top, bottom, cols);
        let i = leading_below(l1, top) as int;
        let l2 = top_filled(l1, top, cols);
        let (l3, r) = window_filled(l1, top, rows, cols);
        &&& lines.len() > 0
        &&& rows <= isize::MAX
        &&& (lines.last().nr < top ==> top + (if bottom >= top { bottom - top } else { 0 }) <= usize::MAX + 1)
        &&& (i < l1.len() ==> fill_ok(l2, i, rows as int, rows as int, cols))
        &&& (r > 0 ==> append_start(l3, top, None) + r <= usize::MAX + 1)
        &&& (r > 0 ==> append_start(l3, top, None) <= usize::MAX)
    }
}

/// How many lines a scroll by `rows` drops: `rows`, or all of them.
pub open spec fn scroll_count(lines: Seq<LineView>, rows: nat) -> nat {
    if rows < lines.len() {
        rows
    } else {
        lines.len()
    }
}

/// The lines after scrolling the content up by `rows`: the first lines
/// dropped, as many blank lines numbered on from the last line at the end.
pub open spec fn scrolled_up(lines: Seq<LineView>, rows: nat, cols: nat) -> Seq<LineView> {
    if lines.len() == 0 {
        lines
    } else {
        let k = scroll_count(lines, rows);
        lines.skip(k as int) + fresh_run(lines.last().nr + 1, k, cols)
    }
}

/// The lines after scrolling the content down by `rows`: the last lines
/// dropped, as many blank lines numbered down from the first line in front.
pub open spec fn scrolled_down(lines: Seq<LineView>, rows: nat, cols: nat) -> Seq<LineView> {
    if lines.len() == 0 {
        lines
    } else {
        let k = scroll_count(lines, rows);
        fresh_run(lines[0].nr - k, k, cols) + lines.take(lines.len() - k)
    }
}

/// Whether the lines added by scrolling up are numbered within `usize`.
pub open spec fn scroll_up_ok(lines: Seq<LineView>, rows: nat) -> bool {
    lines.len() > 0 ==> lines.last().nr + scroll_count(lines, rows) <= usize::MAX
}

/// Whether the lines added by scrolling down are numbered from 0 on.
pub open spec fn scroll_down_ok(lines: Seq<LineView>, rows: nat) -> bool {
    lines.len() > 0 ==> scroll_count(lines, rows) <= lines[0].nr
}

/// `n` fresh lines numbered `start`, `start + 1`, ...
pub open spec fn fresh_run(start: int, n: nat, cols: nat) -> Seq<LineView> {
    Seq::new(n, |i: int| fresh_line((start + i) as usize, cols))
}

/// `rows` fresh lines, all numbered 0.
pub open spec fn fresh_grid(rows: nat, cols: nat) -> Seq<LineView> {
    Seq::new(rows, |i: int| fresh_line(0, cols))
}

/// The lines with their numbers replaced by `top`, `top + 1`, ...
pub open spec fn renumbered(lines: Seq<LineView>, top: int) -> Seq<LineView> {
    Seq::new(lines.len(), |i: int| LineView { nr: (top + i) as usize, cells: lines[i].cells })
}

/// Each line is numbered one more than the line before it.
pub open spec fn contiguous(lines: Seq<LineView>) -> bool {
    forall|i: int| 0 < i < lines.len() ==> #[trigger] lines[i].nr == lines[i - 1].nr + 1
}

/// Where `append_rows` starts numbering: at `nr` when given, else after the
/// last line, else at the top.
pub open spec fn append_start(lines: Seq<LineView>, top: usize, nr: Option<usize>) -> int {
    match nr {
        Some(n) => n as int,
        None => if lines.len() > 0 {
            lines.last().nr + 1
        } else {
            top as int
        },
    }
}

/// How many lines at the front are numbered below `top`.
pub open spec fn leading_below(lines: Seq<LineView>, top: usize) -> nat
    decreases lines.len(),
{
    if lines.len() > 0 && lines[0].nr < top {
        1 + leading_below(lines.drop_first(), top)
    } else {
        0
    }
}

/// The lines `ensure_rows(rows)` leaves: cut down to `rows`, or grown to it
/// with fresh lines numbered on from the last one.
pub open spec fn ensured(lines: Seq<LineView>, top: usize, rows: nat, cols: nat) -> Seq<LineView> {
    if rows <= lines.len() {
        lines.take(rows as int)
    } else {
        lines + fresh_run(append_start(lines, top, None), (rows - lines.len()) as nat, cols)
    }
}

/// Whether `ensure_rows(rows)` numbers its new lines within `usize`.
pub open spec fn ensure_fits(lines: Seq<LineView>, top: usize, rows: nat) -> bool {
    rows > lines.len() ==> append_start(lines, top, None) + (rows - lines.len()) - 1 <= usize::MAX
}

/// The lines `discard` leaves: those numbered below the top are dropped; if
/// none remains the grid is made anew, else it is brought to `rows` lines.
pub open spec fn discarded(lines: Seq<LineView>, top: usize, rows: nat, cols: nat) -> Seq<LineView> {
    let kept = lines.skip(leading_below(lines, top) as int);
    if kept.len() == 0 {
        fresh_grid(rows, cols)
    } else {
        ensured(kept, top, rows, cols)
    }
}

/// Whether `discard` runs without failing: what it keeps must be contiguous,
/// at least one row must remain, and new lines must be numbered within `usize`.
pub open spec fn discard_ok(lines: Seq<LineView>, top: usize, rows: nat) -> bool {
    let kept = lines.skip(leading_below(lines, top) as int);
    kept.len() > 0 ==> {
        &&& rows > 0
        &&& contiguous(kept.take(if rows < kept.len() { rows as int } else { kept.len() as int }))
        &&& ensure_fits(kept, top, rows)
    }
}

/// The text grid of one Neovim grid: `rows` lines of `cols` cells each, with
/// the viewport (`top`, `bottom`) of the window that shows it.  Each line
/// carries the number of the buffer line it shows.
pub struct TextBuf {
    rows: usize,
    cols: usize,
    top: usize,
    bottom: usize,
    textlines: VecDeque<TextLine>,
}

impl TextBuf {
    pub closed spec fn lines(&self) -> Seq<LineView> {
        views(self.textlines@)
    }

    /// Which lines hold a layout cache.
    pub closed spec fn caches(&self) -> Seq<bool> {
        self.textlines@.map_values(|l: TextLine| l.cache is Some)
    }

    pub closed spec fn spec_rows(&self) -> usize {
        self.rows
    }

    pub closed spec fn spec_cols(&self) -> usize {
        self.cols
    }

    pub closed spec fn spec_top(&self) -> usize {
        self.top
    }

    pub closed spec fn spec_bottom(&self) -> usize {
        self.bottom
    }

    /// Every line is as wide as the grid.
    pub closed spec fn wf(&self) -> bool {
        forall|i: int| 0 <= i < self.lines().len() ==> #[trigger] self.lines()[i].cells.len() == self.cols
    }

    /// There is one cache entry for each line.
    pub proof fn lemma_caches_len(&self)
        ensures
            self.caches().len() == self.lines().len(),
    {
    }

    proof fn lemma_lines_index(&self, i: int)
        requires
            0 <= i < self.textlines@.len(),
        ensures
            self.lines()[i] == self.textlines@[i]@,
            self.lines().len() == self.textlines@.len(),
    {
    }

    /// A grid of `rows` fresh lines numbered 0, its viewport at 0.
    pub fn with_size(rows: usize, cols: usize) -> (res: TextBuf)
        ensures
            res.wf(),
            res.lines() == fresh_grid(rows as nat, cols as nat),
            res.spec_rows() == rows && res.spec_cols() == cols,
            res.spec_top() == 0 && res.spec_bottom() == 0,
    {
        let textlines = TextBuf::make_textlines(rows, cols);
        TextBuf { rows, cols, top: 0, bottom: 0, textlines }
    }

    fn make_textlines(rows: usize, cols: usize) -> (res: VecDeque<TextLine>)
        ensures
            views(res@) == fresh_grid(rows as nat, cols as nat),
    {
        let mut textlines: VecDeque<TextLine> = VecDeque::new();
        let mut i: usize = 0;
        while i < rows
            invariant
                i <= rows,
                views(textlines@) =~= fresh_grid(i as nat, cols as nat),
            decreases rows - i,
        {
            let line = TextLine::new(cols);
            proof {
                lemma_views_push(textlines@, line);
            }
            textlines.push_back(line);
            i = i + 1;
        }
        textlines
    }

    pub fn nlines(&self) -> (res: usize)
        ensures
            res == self.lines().len(),
    {
        self.textlines.len()
    }

    pub fn rows(&self) -> (res: usize)
        ensures
            res == self.spec_rows(),
    {
        self.rows
    }

    pub fn cols(&self) -> (res: usize)
        ensures
            res == self.spec_cols(),
    {
        self.cols
    }

    pub fn top(&self) -> (res: usize)
        ensures
            res == self.spec_top(),
    {
        self.top
    }

    pub fn bottom(&self) -> (res: usize)
        ensures
            res == self.spec_bottom(),
    {
        self.bottom
    }

    /// The line at position `no`, if there is one.
    pub fn line(&self, no: usize) -> (res: Option<&TextLine>)
        ensures
            match res {
                Some(l) => no < self.lines().len() && l@ == self.lines()[no as int]
                    && (l.cache is Some) == self.caches()[no as int],
                None => no >= self.lines().len(),
            },
    {
        if no < self.textlines.len() {
            Some(&self.textlines[no])
        } else {
            None
        }
    }

    /// A copy of the cell at line position `row`, column `col`, if there is one.
    pub fn cell(&self, row: usize, col: usize) -> (res: Option<TextCell>)
        ensures
            match res {
                Some(c) => row < self.lines().len() && col < self.lines()[row as int].cells.len()
                    && c@ == self.lines()[row as int].cells[col as int],
                None => row >= self.lines().len() || col >= self.lines()[row as int].cells.len(),
            },
    {
        if row < self.textlines.len() {
            let line = &self.textlines[row];
            proof {
                self.lemma_lines_index(row as int);
            }
            match line.get(col) {
                Some(c) => Some(c.clone_cell()),
                None => None,
            }
        } else {
            None
        }
    }

    /// Makes the grid anew: `rows` fresh lines numbered from the top.
    pub fn clear(&mut self)
        requires
            old(self).spec_top() + old(self).spec_rows() <= usize::MAX,
        ensures
            final(self).wf(),
            final(self).lines() == fresh_run(old(self).spec_top() as int, old(self).spec_rows() as nat, old(self).spec_cols() as nat),
            final(self).spec_rows() == old(self).spec_rows(),
            final(self).spec_cols() == old(self).spec_cols(),
            final(self).spec_top() == old(self).spec_top(),
            final(self).spec_bottom() == old(self).spec_bottom(),
    {
        let mut textlines: VecDeque<TextLine> = VecDeque::new();
        let mut i: usize = 0;
        while i < self.rows
            invariant
                i <= self.rows,
                self.top + self.rows <= usize::MAX,
                views(textlines@) =~= fresh_run(self.top as int, i as nat, self.cols as nat),
            decreases self.rows - i,
        {
            let line = TextLine::numbered(self.cols, self.top + i);
            proof {
                lemma_views_push(textlines@, line);
            }
            textlines.push_back(line);
            i = i + 1;
        }
        self.textlines = textlines;
    }


    /// Appends `rows` fresh lines, numbered from `nr` when given, else on
    /// from the last line (or from the top when there is none).
    pub fn append_rows(&mut self, rows: usize, nr: Option<usize>)
        requires
            old(self).wf(),
            append_start(old(self).lines(), old(self).spec_top(), nr) + rows <= usize::MAX + 1,
            nr is None ==> append_start(old(self).lines(), old(self).spec_top(), nr) <= usize::MAX,
        ensures
            final(self).wf(),
            final(self).lines() == old(self).lines() + fresh_run(
                append_start(old(self).lines(), old(self).spec_top(), nr),
                rows as nat,
                old(self).spec_cols() as nat,
            ),
            final(self).spec_rows() == old(self).spec_rows(),
            final(self).spec_cols() == old(self).spec_cols(),
            final(self).spec_top() == old(self).spec_top(),
            final(self).spec_bottom() == old(self).spec_bottom(),
    {
        let ghost old_lines = self.lines();
        let start: usize = match nr {
            Some(n) => n,
            None => {
                let len = self.textlines.len();
                if len > 0 {
                    proof {
                        self.lemma_lines_index(len - 1);
                    }
                    self.textlines[len - 1].nr + 1
                } else {
                    self.top
                }
            },
        };
        let mut i: usize = 0;
        while i < rows
            invariant
                i <= rows,
                start + rows <= usize::MAX + 1,
                start == append_start(old_lines, self.top, nr),
                self.top == old(self).top && self.rows == old(self).rows,
                self.cols == old(self).cols && self.bottom == old(self).bottom,
                views(self.textlines@) =~= old_lines + fresh_run(start as int, i as nat, self.cols as nat),
                forall|k: int| 0 <= k < old_lines.len() ==> #[trigger] old_lines[k].cells.len() == self.cols,
            decreases rows - i,
        {
            let line = TextLine::numbered(self.cols, start + i);
            proof {
                lemma_views_push(self.textlines@, line);
            }
            self.textlines.push_back(line);
            i = i + 1;
        }
        proof {
            assert forall|k: int| 0 <= k < self.lines().len() implies #[trigger] self.lines()[k].cells.len() == self.cols by {
                if k >= old_lines.len() {
                    assert(self.lines()[k] == fresh_run(start as int, rows as nat, self.cols as nat)[k - old_lines.len()]);
                }
            }
        }
    }

    /// Brings the grid to `rows` lines: cuts it, or appends fresh lines
    /// numbered on from the last one.
    pub fn ensure_rows(&mut self, rows: usize)
        requires
            old(self).wf(),
            ensure_fits(old(self).lines(), old(self).spec_top(), rows as nat),
            old(self).lines().len() > 0 && rows > old(self).lines().len() ==> old(self).lines().last().nr < usize::MAX,
        ensures
            final(self).wf(),
            final(self).lines() == ensured(old(self).lines(), old(self).spec_top(), rows as nat, old(self).spec_cols() as nat),
            final(self).spec_rows() == old(self).spec_rows(),
            final(self).spec_cols() == old(self).spec_cols(),
            final(self).spec_top() == old(self).spec_top(),
            final(self).spec_bottom() == old(self).spec_bottom(),
    {
        let len = self.textlines.len();
        if rows < len {
            let ghost before = self.textlines@;
            self.textlines.truncate(rows);
            proof {
                lemma_views_subrange(before, 0, rows as int);
                assert(self.lines() =~= ensured(old(self).lines(), self.top, rows as nat, self.cols as nat));
            }
        } else if rows == len {
            proof {
                assert(old(self).lines().take(rows as int) =~= old(self).lines());
            }
        } else {
            self.append_rows(rows - len, None);
        }
    }

    /// Drops the lines above the top of the viewport (left over from a
    /// scroll), then brings the grid back to `rows` lines; when nothing is
    /// left the grid is made anew.
    pub fn discard(&mut self)
        requires
            old(self).wf(),
            discard_ok(old(self).lines(), old(self).spec_top(), old(self).spec_rows() as nat),
        ensures
            final(self).wf(),
            final(self).lines() == discarded(old(self).lines(), old(self).spec_top(), old(self).spec_rows() as nat, old(self).spec_cols() as nat),
            final(self).spec_rows() == old(self).spec_rows(),
            final(self).spec_cols() == old(self).spec_cols(),
            final(self).spec_top() == old(self).spec_top(),
            final(self).spec_bottom() == old(self).spec_bottom(),
    {
        let ghost old_lines = self.lines();
        let top = self.top;
        let ghost mut dropped: int = 0;
        while self.textlines.len() > 0 && self.textlines[0].nr < top
            invariant
                0 <= dropped <= old_lines.len(),
                self.top == old(self).top && self.rows == old(self).rows,
                self.cols == old(self).cols && self.bottom == old(self).bottom,
                top == self.top,
                views(self.textlines@) =~= old_lines.skip(dropped),
                forall|j: int| 0 <= j < dropped ==> #[trigger] old_lines[j].nr < top,
                forall|k: int| 0 <= k < old_lines.len() ==> #[trigger] old_lines[k].cells.len() == self.cols,
            decreases self.textlines@.len(),
        {
            proof {
                self.lemma_lines_index(0);
                assert(old_lines.skip(dropped)[0] == old_lines[dropped]);
            }
            let ghost before = self.textlines@;
            self.textlines.pop_front();
            proof {
                lemma_views_subrange(before, 1, before.len() as int);
                assert(old_lines.skip(dropped).subrange(1, before.len() as int) =~= old_lines.skip(dropped + 1));
                dropped = dropped + 1;
            }
        }
        proof {
            if self.textlines@.len() > 0 {
                self.lemma_lines_index(0);
                assert(old_lines.skip(dropped)[0] == old_lines[dropped]);
            }
            lemma_leading_below(old_lines, top, dropped);
        }
        if self.textlines.len() == 0 {
            self.textlines = TextBuf::make_textlines(self.rows, self.cols);
            return;
        }
        let ghost kept = self.lines();
        proof {
            assert forall|k: int| 0 <= k < kept.len() implies #[trigger] kept[k].cells.len() == self.cols by {
                assert(kept[k] == old_lines[k + dropped]);
            }
        }
        if self.textlines.len() > self.rows {
            let ghost before = self.textlines@;
            self.textlines.truncate(self.rows);
            proof {
                lemma_views_subrange(before, 0, self.rows as int);
            }
        }
        proof {
            let t = if (self.rows as int) < kept.len() { self.rows as int } else { kept.len() as int };
            assert(self.lines() =~= kept.take(t));
            if self.lines().len() < self.rows {
                assert(self.lines().last() == kept.last());
                assert(append_start(self.lines(), self.top, None) == append_start(kept, self.top, None));
            }
        }
        if self.textlines.len() != self.rows {
            self.ensure_rows(self.rows);
        }
        proof {
            let t = if (self.rows as int) < kept.len() { self.rows as int } else { kept.len() as int };
            if kept.len() >= self.rows {
                assert(self.lines() =~= ensured(kept, self.top, self.rows as nat, self.cols as nat));
            } else {
                assert(kept.take(t) =~= kept);
            }
        }
    }


    fn resize_line(line: &mut TextLine, cols: usize)
        requires
            widen_fits(old(line)@.cells, cols as nat),
        ensures
            final(line)@ == (LineView { nr: old(line)@.nr, cells: resized_cells(old(line)@.cells, cols as nat) }),
    {
        let ghost old_cells = line@.cells;
        let len = line.cells.len();
        if cols > len {
            let mut start_index: usize = if len > 0 {
                line.cells[len - 1].start_index
            } else {
                0
            };
            let ghost s: int = start_index as int;
            let mut k: usize = 0;
            while k < cols - len
                invariant
                    len == old_cells.len(),
                    len < cols,
                    k <= cols - len,
                    start_index == s + k,
                    s + (cols - len) <= usize::MAX,
                    line.nr == old(line).nr,
                    line@.cells =~= old_cells + Seq::new(k as nat, |i: int| blank_cell((s + i) as usize, (s + i + 1) as usize)),
                decreases cols - len - k,
            {
                let ghost before = line.cells@;
                line.cells.push(TextCell::blank(start_index, start_index + 1));
                proof {
                    assert(line.cells@.map_values(|c: TextCell| c@) =~= before.map_values(|c: TextCell| c@).push(blank_cell(start_index, (start_index + 1) as usize)));
                }
                start_index = start_index + 1;
                k = k + 1;
            }
        } else {
            let ghost before = line.cells@;
            line.cells.truncate(cols);
            proof {
                assert(line.cells@.map_values(|c: TextCell| c@) =~= before.map_values(|c: TextCell| c@).take(cols as int));
            }
        }
    }

    /// Gives the grid `rows` lines of `cols` cells: it first discards what
    /// scrolled away, then adds or cuts lines, then widens or cuts every line.
    pub fn resize(&mut self, rows: usize, cols: usize)
        requires
            old(self).wf(),
            resize_ok(old(self).lines(), old(self).spec_top(), old(self).spec_rows() as nat, old(self).spec_cols() as nat, rows as nat, cols as nat),
        ensures
            final(self).wf(),
            final(self).lines() == resized_lines(
                ensured(
                    discarded(old(self).lines(), old(self).spec_top(), old(self).spec_rows() as nat, old(self).spec_cols() as nat),
                    old(self).spec_top(),
                    rows as nat,
                    old(self).spec_cols() as nat,
                ),
                cols as nat,
            ),
            final(self).spec_rows() == rows,
            final(self).spec_cols() == cols,
            final(self).spec_top() == old(self).spec_top(),
            final(self).spec_bottom() == old(self).spec_bottom(),
    {
        self.discard();
        let ghost d = self.lines();
        let old_rows = self.rows;
        let old_cols = self.cols;
        if old_rows == rows && old_cols == cols {
            proof {
                assert(d.take(rows as int) =~= d);
                assert forall|i: int| 0 <= i < d.len() implies #[trigger] resized_lines(d, cols as nat)[i] == d[i] by {
                    assert(d[i].cells.take(cols as int) =~= d[i].cells);
                }
                assert(self.lines() =~= resized_lines(d, cols as nat));
            }
            return;
        }
        self.ensure_rows(rows);
        self.cols = cols;
        self.rows = rows;
        let ghost e = self.lines();
        let n = self.textlines.len();
        let mut out: VecDeque<TextLine> = VecDeque::new();
        let mut i: usize = 0;
        while i < n
            invariant
                n == e.len(),
                i <= n,
                self.textlines@.len() == n - i,
                out@.len() == i,
                self.top == old(self).top && self.bottom == old(self).bottom,
                self.cols == cols && self.rows == rows,
                views(self.textlines@) =~= e.skip(i as int),
                views(out@) =~= resized_lines(e.take(i as int), cols as nat),
                forall|k: int| 0 <= k < e.len() ==> widen_fits(#[trigger] e[k].cells, cols as nat),
            decreases n - i,
        {
            let ghost before = self.textlines@;
            let mut line = self.textlines.pop_front().unwrap();
            proof {
                lemma_views_subrange(before, 1, before.len() as int);
                assert(views(before)[0] == line@);
                assert(e.skip(i as int)[0] == e[i as int]);
            }
            TextBuf::resize_line(&mut line, cols);
            proof {
                lemma_views_push(out@, line);
                assert(resized_lines(e.take(i + 1), cols as nat) =~= resized_lines(e.take(i as int), cols as nat).push(line@));
            }
            out.push_back(line);
            i = i + 1;
        }
        self.textlines = out;
        proof {
            assert(e.take(n as int) =~= e);
            assert forall|k: int| 0 <= k < self.lines().len() implies #[trigger] self.lines()[k].cells.len() == self.cols by {
                assert(self.lines()[k].cells == resized_cells(e[k].cells, cols as nat));
            }
        }
    }


    fn expand_runs(runs: &[GridLineCell], limit: usize) -> (res: Vec<TextCell>)
        requires
            expand(runs@).len() <= limit,
        ensures
            res@.map_values(|c: TextCell| c@) == expand(runs@),
    {
        let mut out: Vec<TextCell> = Vec::new();
        let mut i: usize = 0;
        while i < runs.len()
            invariant
                i <= runs@.len(),
                expand(runs@).len() <= limit,
                out@.map_values(|c: TextCell| c@) =~= expand(runs@.take(i as int)),
            decreases runs@.len() - i,
        {
            let run = &runs[i];
            let count: u64 = match run.repeat {
                Some(n) => n,
                None => 1,
            };
            proof {
                lemma_expand_step(runs@, i as int);
                lemma_expand_prefix(runs@, i as int + 1);
            }
            let mut k: u64 = 0;
            while k < count
                invariant
                    k <= count,
                    count == repeat_count(runs@[i as int]),
                    i < runs@.len(),
                    *run == runs@[i as int],
                    expand(runs@.take(i + 1)).len() <= limit,
                    expand(runs@.take(i + 1)) == expand(runs@.take(i as int)) + Seq::new(repeat_count(runs@[i as int]), |j: int| run_cell(runs@[i as int])),
                    out@.map_values(|c: TextCell| c@) =~= expand(runs@.take(i as int)) + Seq::new(k as nat, |j: int| run_cell(runs@[i as int])),
                decreases count - k,
            {
                let ghost before = out@;
                out.push(TextCell {
                    text: run.text.clone(),
                    hldef: run.hldef,
                    double_width: run.double_width,
                    start_index: 0,
                    end_index: 0,
                });
                proof {
                    assert(out@.map_values(|c: TextCell| c@) =~= before.map_values(|c: TextCell| c@).push(run_cell(runs@[i as int])));
                }
                k = k + 1;
            }
            i = i + 1;
        }
        proof {
            assert(runs@.take(runs@.len() as int) =~= runs@);
        }
        out
    }

    /// Writes the runs of a `grid_line` event into the line shown at `row`
    /// (the line numbered `top + row`), from column `col` on, then lays the
    /// byte ranges of the line's cells end to end again.
    pub fn set_cells(&mut self, row: usize, col: usize, cells: &[GridLineCell])
        requires
            old(self).wf(),
            set_cells_ok(old(self).lines(), old(self).spec_top(), row, col, cells@),
        ensures
            final(self).wf(),
            final(self).lines() == written(old(self).lines(), old(self).spec_top(), row, col, cells@),
            final(self).caches() == old(self).caches().update(first_line(old(self).lines(), old(self).spec_top() + row), false),
            final(self).spec_rows() == old(self).spec_rows(),
            final(self).spec_cols() == old(self).spec_cols(),
            final(self).spec_top() == old(self).spec_top(),
            final(self).spec_bottom() == old(self).spec_bottom(),
    {
        let ghost old_lines = self.lines();
        let ghost old_caches = self.caches();
        let nr = self.top + row;
        let n = self.textlines.len();
        let mut idx: usize = 0;
        while idx < n && self.textlines[idx].nr != nr
            invariant
                n == self.textlines@.len(),
                idx <= n,
                self.lines() == old_lines,
                forall|j: int| 0 <= j < idx ==> #[trigger] old_lines[j].nr != nr,
            decreases n - idx,
        {
            proof {
                self.lemma_lines_index(idx as int);
            }
            idx = idx + 1;
        }
        if idx == n {
            proof {
                let w = choose|w: int| 0 <= w < old_lines.len() && old_lines[w].nr == nr;
                assert(old_lines[w].nr != nr);
            }
            return;
        }
        proof {
            self.lemma_lines_index(idx as int);
            lemma_first_line(old_lines, nr as int, idx as int);
        }
        let ghost before = self.textlines@;
        let line = self.textlines.remove(idx).unwrap();
        let ghost old_cells = line@.cells;
        let ghost new_cells = spliced(old_cells, col as int, expand(cells@));
        let len = line.cells.len();
        let expanded = TextBuf::expand_runs(cells, len);
        let mut out: Vec<TextCell> = Vec::new();
        let mut acc: usize = 0;
        let mut j: usize = 0;
        let cnt = expanded.len();
        while j < len
            invariant
                len == old_cells.len(),
                line.cells@.map_values(|c: TextCell| c@) == old_cells,
                expanded@.map_values(|c: TextCell| c@) == expand(cells@),
                cnt == expanded@.len(),
                col + cnt <= len,
                j <= len,
                new_cells == spliced(old_cells, col as int, expand(cells@)),
                new_cells.len() == len,
                offset(new_cells, len as int) <= usize::MAX,
                acc == offset(new_cells, j as int),
                out@.map_values(|c: TextCell| c@) =~= reindexed(new_cells).take(j as int),
            decreases len - j,
        {
            let src: &TextCell = if j >= col && j - col < cnt {
                &expanded[j - col]
            } else {
                &line.cells[j]
            };
            proof {
                assert(src@.text == new_cells[j as int].text);
                assert(src@.hldef == new_cells[j as int].hldef);
                assert(src@.double_width == new_cells[j as int].double_width);
                lemma_offset_monotone(new_cells, j as int + 1, len as int);
            }
            let blen = src.text.as_str().len();
            let end = acc + blen;
            let ghost before_out = out@;
            out.push(TextCell {
                text: src.text.clone(),
                hldef: src.hldef,
                double_width: src.double_width,
                start_index: acc,
                end_index: end,
            });
            proof {
                assert(out@.map_values(|c: TextCell| c@) =~= before_out.map_values(|c: TextCell| c@).push(reindexed(new_cells)[j as int]));
                assert(reindexed(new_cells).take(j + 1) =~= reindexed(new_cells).take(j as int).push(reindexed(new_cells)[j as int]));
            }
            acc = end;
            j = j + 1;
        }
        let newline = TextLine { nr: line.nr, cells: out, cache: None };
        proof {
            assert(reindexed(new_cells).take(len as int) =~= reindexed(new_cells));
            lemma_views_remove(before, idx as int);
            lemma_views_insert(before.remove(idx as int), idx as int, newline);
        }
        self.textlines.insert(idx, newline);
        proof {
            assert(self.caches() =~= old_caches.update(idx as int, false));
            assert(self.lines() =~= old_lines.update(idx as int, newline@));
            assert forall|k: int| 0 <= k < self.lines().len() implies #[trigger] self.lines()[k].cells.len() == self.cols by {
                if k != idx {
                    assert(self.lines()[k] == old_lines[k]);
                }
            }
        }
    }


    /// Keeps the layout `lc` the drawing code made of the line at position
    /// `no`; the line itself stays as it is.
    pub fn set_line_cache(&mut self, no: usize, lc: LayoutCache)
        requires
            old(self).wf(),
            no < old(self).lines().len(),
        ensures
            final(self).wf(),
            final(self).lines() == old(self).lines(),
            final(self).caches() == old(self).caches().update(no as int, true),
            final(self).spec_rows() == old(self).spec_rows(),
            final(self).spec_cols() == old(self).spec_cols(),
            final(self).spec_top() == old(self).spec_top(),
            final(self).spec_bottom() == old(self).spec_bottom(),
    {
        let ghost before = self.textlines@;
        let ghost old_lines = self.lines();
        let ghost old_caches = self.caches();
        if let Some(mut line) = self.textlines.remove(no) {
            line.set_cache(lc);
            proof {
                lemma_views_remove(before, no as int);
                lemma_views_insert(before.remove(no as int), no as int, line);
                assert(line@ == before[no as int]@);
            }
            self.textlines.insert(no, line);
            proof {
                assert(self.caches() =~= old_caches.update(no as int, true));
                assert(self.lines() =~= old_lines);
            }
        }
    }

    /// One round of gap filling from line `at` with `remains` rows of budget;
    /// returns where the next round starts, if there is one, and the budget left.
    fn fill_round(&mut self, at: usize, remains: usize) -> (res: (Option<usize>, usize))
        requires
            old(self).wf(),
            fill_ok(old(self).lines(), at as int, remains as int, old(self).spec_rows() as int, old(self).spec_cols() as nat),
        ensures
            final(self).wf(),
            final(self).spec_rows() == old(self).spec_rows(),
            final(self).spec_cols() == old(self).spec_cols(),
            final(self).spec_top() == old(self).spec_top(),
            final(self).spec_bottom() == old(self).spec_bottom(),
            match res.0 {
                Some(next) => {
                    &&& round_continues(old(self).lines(), at as int, remains as int, old(self).spec_rows() as int)
                    &&& final(self).lines() == filled_once(old(self).lines(), at as int, remains as int, old(self).spec_rows() as int, old(self).spec_cols() as nat)
                    &&& next == at + run_len(old(self).lines(), at as int, remains as int) + 1
                    &&& res.1 == remains - run_len(old(self).lines(), at as int, remains as int)
                },
                None => {
                    &&& !round_continues(old(self).lines(), at as int, remains as int, old(self).spec_rows() as int)
                    &&& final(self).lines() == old(self).lines()
                    &&& res.1 == remains - run_len(old(self).lines(), at as int, remains as int)
                },
            },
    {
        let ghost l = self.lines();
        let ghost rows_i = self.rows as int;
        let len = self.textlines.len();
        proof {
            self.lemma_lines_index(at as int);
            lemma_run_len_bound(l, at as int, remains as int);
        }
        let mut prevnr = self.textlines[at].nr;
        let mut rc: usize = 0;
        let mut lacks: Option<usize> = None;
        while lacks.is_none() && rc + 1 < remains && rc + 1 < len - at
            invariant
                len == l.len(),
                at < len,
                self.lines() == l,
                rc < remains,
                at + rc < len,
                prevnr == l[at + rc].nr,
                fill_ok(l, at as int, remains as int, rows_i, self.cols as nat),
                lacks is None ==> run_len(l, at as int, remains as int) == rc + run_len(l, (at + rc) as int, (remains - rc) as int),
                lacks matches Some(x) ==> {
                    &&& run_len(l, at as int, remains as int) == rc
                    &&& gap_after_run(l, at as int, remains as int)
                    &&& x == l[at + rc + 1].nr - l[at + rc].nr - 1
                },
            decreases remains - rc + (if lacks is None { 1int } else { 0int }),
        {
            proof {
                self.lemma_lines_index((at + rc + 1) as int);
                lemma_run_len_bound(l, (at + rc) as int, (remains - rc) as int);
                lemma_run_len_bound(l, at as int, remains as int);
                if run_len(l, (at + rc) as int, (remains - rc) as int) > 0 {
                    assert(l[at + rc + 1].nr == l[at + rc].nr + 1);
                } else {
                    assert(gap_after_run(l, at as int, remains as int));
                }
            }
            let nr = self.textlines[at + rc + 1].nr;
            if prevnr + 1 != nr {
                lacks = Some(nr - prevnr - 1);
            } else {
                rc = rc + 1;
                prevnr = nr;
            }
        }
        proof {
            if lacks is None {
                assert(run_len(l, (at + rc) as int, (remains - rc) as int) == 0);
            }
        }
        match lacks {
            None => (None, remains - rc),
            Some(x) => {
                let room = self.rows - rc;
                let k = if room < x { room } else { x };
                let ghost before = self.textlines@;
                let mut afters = self.textlines.split_off(at + rc + 1);
                proof {
                    lemma_views_subrange(before, 0, (at + rc + 1) as int);
                    lemma_views_subrange(before, (at + rc + 1) as int, before.len() as int);
                }
                let mut offset: usize = 0;
                while offset < k
                    invariant
                        offset <= k,
                        k <= x,
                        x == l[at + rc + 1].nr - l[at + rc].nr - 1,
                        prevnr == l[at + rc].nr,
                        self.rows == old(self).rows && self.cols == old(self).cols,
                        self.top == old(self).top && self.bottom == old(self).bottom,
                        views(self.textlines@) =~= l.take((at + rc + 1) as int) + fresh_run(prevnr + 1, offset as nat, self.cols as nat),
                    decreases k - offset,
                {
                    let line = TextLine::numbered(self.cols, prevnr + offset + 1);
                    proof {
                        lemma_views_push(self.textlines@, line);
                    }
                    self.textlines.push_back(line);
                    offset = offset + 1;
                }
                let ghost mid = self.textlines@;
                let ghost aft = afters@;
                self.textlines.append(&mut afters);
                proof {
                    lemma_views_add(mid, aft);
                    assert(self.lines() =~= filled_once(l, at as int, remains as int, rows_i, self.cols as nat));
                    assert forall|q: int| 0 <= q < self.lines().len() implies #[trigger] self.lines()[q].cells.len() == self.cols by {
                        let p = (at + rc + 1) as int;
                        if q < p {
                            assert(self.lines()[q] == l[q]);
                        } else if q < p + k {
                            assert(self.lines()[q] == fresh_run(prevnr + 1, k as nat, self.cols as nat)[q - p]);
                        } else {
                            assert(self.lines()[q] == l[q - k]);
                        }
                    }
                }
                (Some(at + rc + 1), remains - rc)
            },
        }
    }

    /// Follows the window of the Neovim window showing this grid to its new
    /// `top` and `bottom` buffer lines.  The first time, the lines are just
    /// numbered from the top; when the top did not move nothing happens;
    /// otherwise fresh lines are added so that a line numbered `top` exists,
    /// the window from it is filled without gaps, and the remaining budget of
    /// rows is added at the end.
    pub fn set_viewport(&mut self, top: usize, bottom: usize)
        requires
            old(self).wf(),
            viewport_ok(
                old(self).lines(),
                old(self).spec_top(),
                old(self).spec_bottom(),
                top,
                bottom,
                old(self).spec_rows() as nat,
                old(self).spec_cols() as nat,
            ),
        ensures
            final(self).wf(),
            final(self).lines() == viewport_lines(
                old(self).lines(),
                old(self).spec_top(),
                old(self).spec_bottom(),
                top,
                bottom,
                old(self).spec_rows() as nat,
                old(self).spec_cols() as nat,
            ),
            final(self).spec_top() == top,
            final(self).spec_bottom() == bottom,
            final(self).spec_rows() == old(self).spec_rows(),
            final(self).spec_cols() == old(self).spec_cols(),
    {
        let ghost l0 = self.lines();
        let ghost cols_n = self.cols as nat;
        let ghost rows_n = self.rows as nat;
        let self_top = self.top;
        let self_bottom = self.bottom;
        self.top = top;
        self.bottom = bottom;
        if self_top == 0 && self_bottom == 0 {
            self.flush_nrs();
            return;
        }
        if top == self_top {
            return;
        }
        let n = self.textlines.len();
        proof {
            self.lemma_lines_index(0);
            self.lemma_lines_index((n - 1) as int);
        }
        let topnr = self.textlines[0].nr;
        let botnr = self.textlines[n - 1].nr;
        if top < topnr {
            let mut nr = topnr;
            while nr > top
                invariant
                    top <= nr <= topnr,
                    topnr == l0[0].nr,
                    self.top == top && self.bottom == bottom,
                    self.rows == old(self).rows && self.cols == old(self).cols,
                    views(self.textlines@) =~= fresh_run(nr as int, (topnr - nr) as nat, self.cols as nat) + l0,
                    forall|k: int| 0 <= k < l0.len() ==> #[trigger] l0[k].cells.len() == self.cols,
                decreases nr - top,
            {
                nr = nr - 1;
                let line = TextLine::numbered(self.cols, nr);
                let ghost before = self.textlines@;
                self.textlines.push_front(line);
                proof {
                    assert(views(self.textlines@) =~= seq![line@] + views(before));
                    assert(fresh_run(nr as int, (topnr - nr) as nat, self.cols as nat) =~= seq![line@] + fresh_run(nr + 1, (topnr - nr - 1) as nat, self.cols as nat));
                }
            }
            proof {
                assert forall|q: int| 0 <= q < self.lines().len() implies #[trigger] self.lines()[q].cells.len() == self.cols by {
                    let p = (topnr - top) as int;
                    if q < p {
                        assert(self.lines()[q] == fresh_run(top as int, (topnr - top) as nat, self.cols as nat)[q]);
                    } else {
                        assert(self.lines()[q] == l0[q - p]);
                    }
                }
            }
        } else if botnr < top {
            let count = if bottom >= top { bottom - top } else { 0 };
            self.append_rows(count, Some(top));
        }
        let ghost l1 = self.lines();
        proof {
            assert(l1 == extended(l0, top, bottom, cols_n));
        }
        let len = self.textlines.len();
        let mut idx: usize = 0;
        while idx < len && self.textlines[idx].nr < top
            invariant
                len == l1.len(),
                idx <= len,
                self.lines() == l1,
                forall|j: int| 0 <= j < idx ==> #[trigger] l1[j].nr < top,
            decreases len - idx,
        {
            proof {
                self.lemma_lines_index(idx as int);
            }
            idx = idx + 1;
        }
        proof {
            if idx < len {
                self.lemma_lines_index(idx as int);
            }
            lemma_leading_below(l1, top, idx as int);
        }
        let mut start_at: Option<usize> = None;
        if idx < len {
            let nr = self.textlines[idx].nr;
            if nr > top {
                let ghost before = self.textlines@;
                let mut afters = self.textlines.split_off(idx);
                proof {
                    lemma_views_subrange(before, 0, idx as int);
                    lemma_views_subrange(before, idx as int, before.len() as int);
                }
                let mut m: usize = top;
                while m < nr
                    invariant
                        top <= m <= nr,
                        self.top == top && self.bottom == bottom,
                        self.rows == old(self).rows && self.cols == old(self).cols,
                        views(self.textlines@) =~= l1.take(idx as int) + fresh_run(top as int, (m - top) as nat, self.cols as nat),
                    decreases nr - m,
                {
                    let line = TextLine::numbered(self.cols, m);
                    proof {
                        lemma_views_push(self.textlines@, line);
                    }
                    self.textlines.push_back(line);
                    m = m + 1;
                }
                let ghost mid = self.textlines@;
                let ghost aft = afters@;
                self.textlines.append(&mut afters);
                proof {
                    lemma_views_add(mid, aft);
                    assert(self.lines() =~= top_filled(l1, top, cols_n));
                    assert forall|q: int| 0 <= q < self.lines().len() implies #[trigger] self.lines()[q].cells.len() == self.cols by {
                        let p = idx as int;
                        let w = (nr - top) as int;
                        if q < p {
                            assert(self.lines()[q] == l1[q]);
                        } else if q < p + w {
                            assert(self.lines()[q] == fresh_run(top as int, w as nat, self.cols as nat)[q - p]);
                        } else {
                            assert(self.lines()[q] == l1[q - w]);
                        }
                    }
                }
            }
            start_at = Some(idx);
        }
        let ghost target = window_filled(l1, top, rows_n, cols_n);
        let mut remains: usize = self.rows;
        loop
            invariant
                self.wf(),
                self.top == top && self.bottom == bottom,
                self.rows == old(self).rows && self.cols == old(self).cols,
                remains <= self.rows,
                start_at matches Some(at) ==> {
                    &&& fill_ok(self.lines(), at as int, remains as int, self.rows as int, self.cols as nat)
                    &&& fill_rounds(self.lines(), at as int, remains as int, self.rows as int, self.cols as nat) == target
                },
                start_at is None ==> self.lines() == target.0 && remains as int == target.1,
            ensures
                self.wf(),
                self.top == top && self.bottom == bottom,
                self.rows == old(self).rows && self.cols == old(self).cols,
                self.lines() == target.0 && remains as int == target.1,
            decreases (match start_at {
                Some(at) => 2 * remains + gap_flag(self.lines(), at as int, remains as int) + 1,
                None => 0,
            }),
        {
            match start_at {
                None => break,
                Some(at) => {
                    let ghost l = self.lines();
                    let ghost r0 = remains as int;
                    let (next, left) = self.fill_round(at, remains);
                    proof {
                        lemma_run_len_bound(l, at as int, r0);
                        if next is Some && run_len(l, at as int, r0) == 0 {
                            lemma_round_clears_flag(l, at as int, r0, self.rows as int, self.cols as nat);
                        }
                    }
                    start_at = next;
                    remains = left;
                },
            }
        }
        proof {
            assert(self.lines() == target.0 && remains as int == target.1);
            assert(!(self_top == 0 && self_bottom == 0) && top != self_top);
            assert(l0 == old(self).lines());
            assert(target == window_filled(extended(old(self).lines(), top, bottom, cols_n), top, rows_n, cols_n));
        }
        if remains > 0 {
            self.append_rows(remains, None);
        }
    }


    /// A grid of `rows` lines of `cols` blank cells, numbered from 0, its
    /// viewport at 0.
    pub fn new(cols: usize, rows: usize) -> (res: TextBuf)
        ensures
            res.wf(),
            res.spec_rows() == rows && res.spec_cols() == cols,
            res.spec_top() == 0 && res.spec_bottom() == 0,
            res.lines() == blank_text(rows as nat, cols as nat),
    {
        let mut tb = TextBuf::with_size(1, 1);
        let ghost l = tb.lines();
        proof {
            assert(l.len() == 1 && l[0] == fresh_line(0, 1));
            assert(leading_below(l, 0) == 0);
            assert(l.skip(0) =~= l);
            assert(l.take(1) =~= l);
            assert(discarded(l, 0, 1, 1) =~= l) by {
                assert(ensured(l, 0, 1, 1) =~= l);
            }
            let e = ensured(l, 0, rows as nat, 1);
            assert forall|i: int| 0 <= i < e.len() implies widen_fits(#[trigger] e[i].cells, cols as nat) by {
                if rows <= 1 {
                    assert(e[i] == l[i]);
                } else if i < 1 {
                    assert(e[i] == l[i]);
                } else {
                    assert(e[i] == fresh_run(1, (rows - 1) as nat, 1)[i - 1]);
                }
                assert(e[i].cells.len() == 1);
                assert(e[i].cells.last() == blank_cell(0, 1));
            }
        }
        tb.resize(rows, cols);
        tb
    }

    /// Scrolls the content up by `rows`: the first `rows` lines (all of
    /// them when there are fewer) are dropped, and as many blank lines,
    /// numbered on from the last line, are left at the end.
    pub fn up(&mut self, rows: usize)
        requires
            old(self).wf(),
            scroll_up_ok(old(self).lines(), rows as nat),
        ensures
            final(self).wf(),
            final(self).lines() == scrolled_up(old(self).lines(), rows as nat, old(self).spec_cols() as nat),
            final(self).spec_rows() == old(self).spec_rows(),
            final(self).spec_cols() == old(self).spec_cols(),
            final(self).spec_top() == old(self).spec_top(),
            final(self).spec_bottom() == old(self).spec_bottom(),
    {
        let n = self.textlines.len();
        if n == 0 {
            return;
        }
        let k: usize = if rows < n { rows } else { n };
        if k == 0 {
            assert(self.lines().skip(0) + fresh_run(self.lines().last().nr + 1, 0, self.cols as nat) =~= self.lines());
            return;
        }
        proof {
            self.lemma_lines_index(n - 1);
        }
        let start = self.textlines[n - 1].nr + 1;
        let ghost old_lines = self.lines();
        let mut i: usize = 0;
        while i < k
            invariant
                i <= k <= n,
                n == old_lines.len(),
                views(self.textlines@) == old_lines.skip(i as int),
                self.top == old(self).top && self.rows == old(self).rows,
                self.cols == old(self).cols && self.bottom == old(self).bottom,
                forall|q: int| 0 <= q < old_lines.len() ==> #[trigger] old_lines[q].cells.len() == self.cols,
            decreases k - i,
        {
            let ghost before = self.textlines@;
            self.textlines.pop_front();
            proof {
                lemma_views_subrange(before, 1, before.len() as int);
                assert(old_lines.skip(i as int).subrange(1, old_lines.skip(i as int).len() as int) =~= old_lines.skip(i + 1));
            }
            i = i + 1;
        }
        proof {
            assert forall|q: int| 0 <= q < self.lines().len() implies #[trigger] self.lines()[q].cells.len() == self.cols by {
                assert(self.lines()[q] == old_lines[q + k]);
            }
        }
        self.append_rows(k, Some(start));
    }

    /// Scrolls the content down by `rows`: the last `rows` lines (all of
    /// them when there are fewer) are dropped, and as many blank lines,
    /// numbered down from the first line, are put in front.
    pub fn down(&mut self, rows: usize)
        requires
            old(self).wf(),
            scroll_down_ok(old(self).lines(), rows as nat),
        ensures
            final(self).wf(),
            final(self).lines() == scrolled_down(old(self).lines(), rows as nat, old(self).spec_cols() as nat),
            final(self).spec_rows() == old(self).spec_rows(),
            final(self).spec_cols() == old(self).spec_cols(),
            final(self).spec_top() == old(self).spec_top(),
            final(self).spec_bottom() == old(self).spec_bottom(),
    {
        let n = self.textlines.len();
        if n == 0 {
            return;
        }
        let k: usize = if rows < n { rows } else { n };
        if k == 0 {
            assert(fresh_run(self.lines()[0].nr - 0, 0, self.cols as nat) + self.lines().take(n as int) =~= self.lines());
            return;
        }
        proof {
            self.lemma_lines_index(0);
        }
        let first = self.textlines[0].nr;
        let ghost old_lines = self.lines();
        let mut i: usize = 0;
        while i < k
            invariant
                i <= k <= n,
                n == old_lines.len(),
                views(self.textlines@) == old_lines.take(n - i),
                self.top == old(self).top && self.rows == old(self).rows,
                self.cols == old(self).cols && self.bottom == old(self).bottom,
                forall|q: int| 0 <= q < old_lines.len() ==> #[trigger] old_lines[q].cells.len() == self.cols,
            decreases k - i,
        {
            let ghost before = self.textlines@;
            self.textlines.pop_back();
            proof {
                lemma_views_subrange(before, 0, before.len() - 1);
                assert(old_lines.take(n - i).subrange(0, n - i - 1) =~= old_lines.take(n - i - 1));
            }
            i = i + 1;
        }
        let mut j: usize = 0;
        while j < k
            invariant
                j <= k <= n,
                k <= first,
                n == old_lines.len(),
                first == old_lines[0].nr,
                views(self.textlines@) == fresh_run(first - j, j as nat, self.cols as nat) + old_lines.take(n - k),
                self.top == old(self).top && self.rows == old(self).rows,
                self.cols == old(self).cols && self.bottom == old(self).bottom,
                forall|q: int| 0 <= q < old_lines.len() ==> #[trigger] old_lines[q].cells.len() == self.cols,
            decreases k - j,
        {
            let line = TextLine::numbered(self.cols, first - j - 1);
            let ghost before = self.textlines@;
            self.textlines.push_front(line);
            proof {
                assert(views(seq![line] + before) =~= seq![line@] + views(before));
                assert(seq![line@] + fresh_run(first - j, j as nat, self.cols as nat)
                    =~= fresh_run(first - (j + 1), (j + 1) as nat, self.cols as nat));
            }
            j = j + 1;
        }
        proof {
            assert forall|q: int| 0 <= q < self.lines().len() implies #[trigger] self.lines()[q].cells.len() == self.cols by {
                if q >= k {
                    assert(self.lines()[q] == old_lines[q - k]);
                } else {
                    assert(self.lines()[q] == fresh_run(first - k, k as nat, self.cols as nat)[q]);
                }
            }
        }
    }

    /// Numbers the lines from the top down.
    pub fn flush_nrs(&mut self)
        requires
            old(self).spec_top() + old(self).lines().len() <= usize::MAX,
        ensures
            final(self).lines() == renumbered(old(self).lines(), old(self).spec_top() as int),
            final(self).spec_rows() == old(self).spec_rows(),
            final(self).spec_cols() == old(self).spec_cols(),
            final(self).spec_top() == old(self).spec_top(),
            final(self).spec_bottom() == old(self).spec_bottom(),
            old(self).wf() ==> final(self).wf(),
    {
        let ghost old_lines = self.lines();
        let n = self.textlines.len();
        let mut out: VecDeque<TextLine> = VecDeque::new();
        let mut i: usize = 0;
        while i < n
            invariant
                n == old_lines.len(),
                i <= n,
                self.top + n <= usize::MAX,
                self.top == old(self).top && self.rows == old(self).rows,
                self.cols == old(self).cols && self.bottom == old(self).bottom,
                self.textlines@.len() == n - i,
                out@.len() == i,
                views(self.textlines@) =~= old_lines.skip(i as int),
                views(out@) =~= renumbered(old_lines.take(i as int), self.top as int),
            decreases n - i,
        {
            let ghost before = self.textlines@;
            let mut line = self.textlines.pop_front().unwrap();
            proof {
                lemma_views_subrange(before, 1, before.len() as int);
                assert(views(before)[0] == line@);
                assert(old_lines.skip(i as int)[0] == old_lines[i as int]);
            }
            line.nr = self.top + i;
            proof {
                lemma_views_push(out@, line);
            }
            out.push_back(line);
            i = i + 1;
        }
        self.textlines = out;
        proof {
            assert(old_lines.take(n as int) =~= old_lines);
            assert(self.lines() =~= renumbered(old_lines, self.top as int));
            if old(self).wf() {
                assert forall|k: int| 0 <= k < self.lines().len() implies #[trigger] self.lines()[k].cells.len() == self.cols by {
                    assert(self.lines()[k].cells == old_lines[k].cells);
                }
            }
        }
    }
}

} // verus!

verus! {

/// What a read gives back of a write: after `set_cells` writes `runs` from
/// column `col`, the cells from `col` on show the runs' texts, highlights and
/// widths in order, and every other cell keeps its text and highlight.
pub proof fn lemma_set_cells_read_back(cells: Seq<CellView>, col: int, runs: Seq<GridLineCell>, j: int)
    requires
        0 <= col,
        col + expand(runs).len() <= cells.len(),
        0 <= j < cells.len(),
    ensures
        reindexed(spliced(cells, col, expand(runs))).len() == cells.len(),
        col <= j < col + expand(runs).len() ==> {
            &&& reindexed(spliced(cells, col, expand(runs)))[j].text == expand(runs)[j - col].text
            &&& reindexed(spliced(cells, col, expand(runs)))[j].hldef == expand(runs)[j - col].hldef
            &&& reindexed(spliced(cells, col, expand(runs)))[j].double_width == expand(runs)[j - col].double_width
        },
        !(col <= j < col + expand(runs).len()) ==> {
            &&& reindexed(spliced(cells, col, expand(runs)))[j].text == cells[j].text
            &&& reindexed(spliced(cells, col, expand(runs)))[j].hldef == cells[j].hldef
        },
{
    let s = spliced(cells, col, expand(runs));
    assert(s.len() == cells.len());
    if col <= j < col + expand(runs).len() {
        assert(s[j] == expand(runs)[j - col]);
    } else if j < col {
        assert(s[j] == cells[j]);
    } else {
        assert(s[j] == cells[j]);
    }
}

/// After `set_cells` the byte ranges of a line's cells are laid end to end:
/// the first starts at 0 and each one starts where the one before it ends.
pub proof fn lemma_reindexed_contiguous(cells: Seq<CellView>, j: int)
    requires
        0 < j < cells.len(),
        offset(cells, cells.len() as int) <= usize::MAX,
    ensures
        reindexed(cells)[0].start_index == 0,
        reindexed(cells)[j].start_index == reindexed(cells)[j - 1].end_index,
        reindexed(cells)[j].end_index - reindexed(cells)[j].start_index == byte_len(cells[j].text),
{
    lemma_offset_monotone(cells, j + 1, cells.len() as int);
}

/// After `resize(rows, cols)` the grid has exactly `rows` lines of `cols` cells.
pub proof fn lemma_resize_shape(lines: Seq<LineView>, top: usize, old_rows: nat, old_cols: nat, rows: nat, cols: nat, i: int)
    requires
        forall|k: int| 0 <= k < lines.len() ==> #[trigger] lines[k].cells.len() == old_cols,
        0 <= i < rows,
    ensures
        resized_lines(ensured(discarded(lines, top, old_rows, old_cols), top, rows, old_cols), cols).len() == rows,
        resized_lines(ensured(discarded(lines, top, old_rows, old_cols), top, rows, old_cols), cols)[i].cells.len() == cols,
{
    let d = discarded(lines, top, old_rows, old_cols);
    let kept = lines.skip(leading_below(lines, top) as int);
    if kept.len() > 0 {
        assert(d == ensured(kept, top, old_rows, old_cols));
    }
    let e = ensured(d, top, rows, old_cols);
    assert(e.len() == rows);
}

} // verus!

verus! {

pub proof fn lemma_leading_below_props(s: Seq<LineView>, t: usize)
    ensures
        leading_below(s, t) <= s.len(),
        forall|j: int| 0 <= j < leading_below(s, t) ==> #[trigger] s[j].nr < t,
        leading_below(s, t) < s.len() ==> s[leading_below(s, t) as int].nr >= t,
        (exists|q: int| 0 <= q < s.len() && s[q].nr >= t) ==> leading_below(s, t) < s.len(),
    decreases s.len(),
{
    if s.len() > 0 && s[0].nr < t {
        let d = s.drop_first();
        lemma_leading_below_props(d, t);
        assert forall|j: int| 0 <= j < leading_below(s, t) implies #[trigger] s[j].nr < t by {
            if j > 0 {
                assert(s[j] == d[j - 1]);
            }
        }
        if leading_below(s, t) < s.len() {
            assert(s[leading_below(s, t) as int] == d[leading_below(d, t) as int]);
        }
        if exists|q: int| 0 <= q < s.len() && s[q].nr >= t {
            let q = choose|q: int| 0 <= q < s.len() && s[q].nr >= t;
            assert(q > 0);
            assert(d[q - 1] == s[q]);
        }
    }
}

/// Gap filling only ever adds lines after the line it starts from: every line
/// up to and including that one stays where it was.
pub proof fn lemma_fill_rounds_keeps_prefix(l: Seq<LineView>, a: int, r: int, rows: int, cols: nat, q: int)
    requires
        r >= 0,
        0 <= q <= a < l.len(),
    ensures
        q < fill_rounds(l, a, r, rows, cols).0.len(),
        fill_rounds(l, a, r, rows, cols).0[q] == l[q],
    decreases 2 * r + gap_flag(l, a, r),
{
    let c = run_len(l, a, r) as int;
    if r >= 1 && round_continues(l, a, r, rows) {
        lemma_run_len_bound(l, a, r);
        if c == 0 {
            lemma_round_clears_flag(l, a, r, rows, cols);
        }
        let l2 = filled_once(l, a, r, rows, cols);
        assert(l2[q] == l[q]);
        assert(a + c + 1 < l2.len());
        lemma_fill_rounds_keeps_prefix(l2, a + c + 1, r - c, rows, cols, q);
    }
}

/// After the viewport moves to a new top with room below it (the bottom is
/// past the top), the grid holds a line numbered with that top.
pub proof fn lemma_viewport_has_top(
    lines: Seq<LineView>,
    old_top: usize,
    old_bottom: usize,
    top: usize,
    bottom: usize,
    rows: nat,
    cols: nat,
)
    requires
        lines.len() > 0,
        !(old_top == 0 && old_bottom == 0),
        top != old_top,
        bottom > top,
    ensures
        has_line(viewport_lines(lines, old_top, old_bottom, top, bottom, rows, cols), top as int),
{
    let l1 = extended(lines, top, bottom, cols);
    if (top as int) < lines[0].nr {
        assert(l1[0] == fresh_run(top as int, (lines[0].nr - top) as nat, cols)[0]);
        assert(l1[0].nr >= top);
    } else if lines.last().nr < top {
        let w = lines.len() as int;
        assert(l1[w] == fresh_run(top as int, (bottom - top) as nat, cols)[0]);
        assert(l1[w].nr >= top);
    } else {
        assert(l1[l1.len() - 1].nr >= top);
    }
    lemma_leading_below_props(l1, top);
    let i = leading_below(l1, top) as int;
    assert(i < l1.len());
    let l2 = top_filled(l1, top, cols);
    if l1[i].nr > top {
        assert(l2[i] == fresh_run(top as int, (l1[i].nr - top) as nat, cols)[0]);
    }
    assert(l2[i].nr == top);
    assert(i < l2.len());
    lemma_fill_rounds_keeps_prefix(l2, i, rows as int, rows as int, cols, i);
    let (l3, r) = window_filled(l1, top, rows, cols);
    assert(l3[i].nr == top);
    let result = viewport_lines(lines, old_top, old_bottom, top, bottom, rows, cols);
    if r > 0 {
        assert(result[i] == l3[i]);
    }
    assert(result[i].nr == top);
}

/// The line numbers strictly increase.
pub open spec fn ascending(lines: Seq<LineView>) -> bool {
    forall|i: int, j: int| 0 <= i < j < lines.len() ==> #[trigger] lines[i].nr < #[trigger] lines[j].nr
}

/// Every line of `a` is a line of `b`.
pub open spec fn kept(a: Seq<LineView>, b: Seq<LineView>) -> bool {
    forall|i: int| 0 <= i < a.len() ==> b.contains(#[trigger] a[i])
}

/// Every line of `b` is a line of `a` or a fresh blank line of `cols` cells.
pub open spec fn kept_or_fresh(a: Seq<LineView>, b: Seq<LineView>, cols: nat) -> bool {
    forall|q: int| 0 <= q < b.len() ==> a.contains(#[trigger] b[q]) || b[q] == fresh_line(b[q].nr, cols)
}

proof fn lemma_kept_or_fresh_refl(a: Seq<LineView>, cols: nat)
    ensures
        kept_or_fresh(a, a, cols),
{
    assert forall|q: int| 0 <= q < a.len() implies a.contains(#[trigger] a[q]) || a[q] == fresh_line(a[q].nr, cols) by {
        assert(a[q] == a[q]);
    }
}

proof fn lemma_kept_or_fresh_trans(a: Seq<LineView>, b: Seq<LineView>, c: Seq<LineView>, cols: nat)
    requires
        kept_or_fresh(a, b, cols),
        kept_or_fresh(b, c, cols),
    ensures
        kept_or_fresh(a, c, cols),
{
    assert forall|q: int| 0 <= q < c.len() implies a.contains(#[trigger] c[q]) || c[q] == fresh_line(c[q].nr, cols) by {
        if b.contains(c[q]) {
            let j = choose|j: int| 0 <= j < b.len() && b[j] == c[q];
            assert(a.contains(b[j]) || b[j] == fresh_line(b[j].nr, cols));
        }
    }
}

/// Fresh lines put at position `p`, numbered from `start` up to below the
/// line that follows, keep the numbers ascending and every line.
proof fn lemma_insert_run(a: Seq<LineView>, p: int, start: int, n: nat, cols: nat)
    requires
        ascending(a),
        0 <= p <= a.len(),
        0 <= start,
        start + n <= usize::MAX + 1,
        p > 0 ==> a[p - 1].nr < start,
        p < a.len() ==> start + n <= a[p].nr,
    ensures
        ascending(a.take(p) + fresh_run(start, n, cols) + a.skip(p)),
        kept(a, a.take(p) + fresh_run(start, n, cols) + a.skip(p)),
        kept_or_fresh(a, a.take(p) + fresh_run(start, n, cols) + a.skip(p), cols),
{
    let f = fresh_run(start, n, cols);
    let b = a.take(p) + f + a.skip(p);
    assert forall|q: int| 0 <= q < b.len() implies (#[trigger] b[q]).nr == (if q < p {
        a[q].nr as int
    } else if q < p + n {
        start + (q - p)
    } else {
        a[q - n].nr as int
    }) by {
        if q < p {
            assert(b[q] == a[q]);
        } else if q < p + n {
            assert(b[q] == f[q - p]);
        } else {
            assert(b[q] == a[q - n]);
        }
    }
    assert forall|i: int, j: int| 0 <= i < j < b.len() implies #[trigger] b[i].nr < #[trigger] b[j].nr by {
        if j < p {
        } else if j < p + n {
            if i < p {
                if p > 0 {
                    assert(a[i].nr <= a[p - 1].nr) by {
                        if i < p - 1 {
                            assert(a[i].nr < a[p - 1].nr);
                        }
                    }
                }
            }
        } else {
            if i < p {
                assert(a[i].nr < a[j - n].nr);
            } else if i < p + n {
                assert(p < a.len());
                assert(a[p].nr <= a[j - n].nr) by {
                    if p < j - n {
                        assert(a[p].nr < a[j - n].nr);
                    }
                }
            } else {
                assert(a[i - n].nr < a[j - n].nr);
            }
        }
    }
    assert forall|i: int| 0 <= i < a.len() implies b.contains(#[trigger] a[i]) by {
        if i < p {
            assert(b[i] == a[i]);
        } else {
            assert(b[i + n] == a[i]);
        }
    }
    assert forall|q: int| 0 <= q < b.len() implies a.contains(#[trigger] b[q]) || b[q] == fresh_line(b[q].nr, cols) by {
        if q < p {
            assert(b[q] == a[q]);
        } else if q < p + n {
            assert(b[q] == f[q - p]);
        } else {
            assert(b[q] == a[q - n]);
        }
    }
}

proof fn lemma_kept_trans(a: Seq<LineView>, b: Seq<LineView>, c: Seq<LineView>)
    requires
        kept(a, b),
        kept(b, c),
    ensures
        kept(a, c),
{
    assert forall|i: int| 0 <= i < a.len() implies c.contains(#[trigger] a[i]) by {
        let x = a[i];
        assert(b.contains(x));
        let j = choose|j: int| 0 <= j < b.len() && b[j] == x;
        assert(c.contains(b[j]));
        let k = choose|k: int| 0 <= k < c.len() && c[k] == b[j];
        assert(c[k] == x);
    }
}

proof fn lemma_fill_rounds_ascending(l: Seq<LineView>, a: int, r: int, rows: int, cols: nat)
    requires
        r >= 0,
        ascending(l),
        fill_ok(l, a, r, rows, cols),
    ensures
        ascending(fill_rounds(l, a, r, rows, cols).0),
        kept(l, fill_rounds(l, a, r, rows, cols).0),
        kept_or_fresh(l, fill_rounds(l, a, r, rows, cols).0, cols),
    decreases 2 * r + gap_flag(l, a, r),
{
    let c = run_len(l, a, r) as int;
    lemma_run_len_bound(l, a, r);
    if r >= 1 && round_continues(l, a, r, rows) {
        if c == 0 {
            lemma_round_clears_flag(l, a, r, rows, cols);
        }
        let prev = l[a + c].nr as int;
        let next = l[a + c + 1].nr as int;
        let lacks = next - prev - 1;
        let k = if rows - c < lacks { rows - c } else { lacks };
        lemma_insert_run(l, a + c + 1, prev + 1, k as nat, cols);
        let l2 = filled_once(l, a, r, rows, cols);
        lemma_fill_rounds_ascending(l2, a + c + 1, r - c, rows, cols);
        lemma_kept_trans(l, l2, fill_rounds(l2, a + c + 1, r - c, rows, cols).0);
        lemma_kept_or_fresh_trans(l, l2, fill_rounds(l2, a + c + 1, r - c, rows, cols).0, cols);
    } else {
        assert forall|i: int| 0 <= i < l.len() implies l.contains(#[trigger] l[i]) by {
            assert(l[i] == l[i]);
        }
        lemma_kept_or_fresh_refl(l, cols);
    }
}

proof fn lemma_extended_keeps(lines: Seq<LineView>, top: usize, bottom: usize, cols: nat)
    requires
        ascending(lines),
        lines.len() > 0,
        lines.last().nr < top ==> top + (if bottom >= top { bottom - top } else { 0 }) <= usize::MAX + 1,
    ensures
        ascending(extended(lines, top, bottom, cols)),
        kept(lines, extended(lines, top, bottom, cols)),
        kept_or_fresh(lines, extended(lines, top, bottom, cols), cols),
        extended(lines, top, bottom, cols).len() >= lines.len(),
{
    let l1 = extended(lines, top, bottom, cols);
    if (top as int) < lines[0].nr {
        lemma_insert_run(lines, 0, top as int, (lines[0].nr - top) as nat, cols);
        assert(lines.take(0) + fresh_run(top as int, (lines[0].nr - top) as nat, cols) + lines.skip(0) =~= l1);
    } else if lines.last().nr < top {
        let n: nat = (if bottom >= top { bottom - top } else { 0 }) as nat;
        lemma_insert_run(lines, lines.len() as int, top as int, n, cols);
        assert(lines.take(lines.len() as int) + fresh_run(top as int, n, cols) + lines.skip(lines.len() as int) =~= l1);
    } else {
        lemma_insert_run(lines, 0, 0, 0, cols);
        assert(lines.take(0) + fresh_run(0, 0, cols) + lines.skip(0) =~= l1);
    }
}

proof fn lemma_top_filled_keeps(l1: Seq<LineView>, top: usize, cols: nat)
    requires
        ascending(l1),
    ensures
        ascending(top_filled(l1, top, cols)),
        kept(l1, top_filled(l1, top, cols)),
        kept_or_fresh(l1, top_filled(l1, top, cols), cols),
        top_filled(l1, top, cols).len() >= l1.len(),
{
    lemma_leading_below_props(l1, top);
    let i = leading_below(l1, top) as int;
    let l2 = top_filled(l1, top, cols);
    if i < l1.len() && l1[i].nr > top {
        lemma_insert_run(l1, i, top as int, (l1[i].nr - top) as nat, cols);
    } else {
        lemma_insert_run(l1, 0, 0, 0, cols);
        assert(l1.take(0) + fresh_run(0, 0, cols) + l1.skip(0) =~= l2);
    }
}

proof fn lemma_window_filled_keeps(l1: Seq<LineView>, top: usize, rows: nat, cols: nat)
    requires
        ascending(l1),
        l1.len() > 0,
        leading_below(l1, top) < l1.len() ==> fill_ok(
            top_filled(l1, top, cols),
            leading_below(l1, top) as int,
            rows as int,
            rows as int,
            cols,
        ),
    ensures
        ascending(window_filled(l1, top, rows, cols).0),
        kept(l1, window_filled(l1, top, rows, cols).0),
        kept_or_fresh(l1, window_filled(l1, top, rows, cols).0, cols),
        window_filled(l1, top, rows, cols).0.len() > 0,
{
    lemma_top_filled_keeps(l1, top, cols);
    lemma_leading_below_props(l1, top);
    let i = leading_below(l1, top) as int;
    let l2 = top_filled(l1, top, cols);
    if i < l1.len() {
        lemma_fill_rounds_ascending(l2, i, rows as int, rows as int, cols);
        lemma_kept_trans(l1, l2, fill_rounds(l2, i, rows as int, rows as int, cols).0);
        lemma_kept_or_fresh_trans(l1, l2, fill_rounds(l2, i, rows as int, rows as int, cols).0, cols);
        lemma_fill_rounds_keeps_prefix(l2, i, rows as int, rows as int, cols, i);
    }
}

/// When the viewport moves to a new top (after the first time), the line
/// numbers keep ascending, every line that was there stays, and every line
/// added is a fresh blank one.
pub proof fn lemma_viewport_keeps_lines(
    lines: Seq<LineView>,
    old_top: usize,
    old_bottom: usize,
    top: usize,
    bottom: usize,
    rows: nat,
    cols: nat,
)
    requires
        ascending(lines),
        !(old_top == 0 && old_bottom == 0),
        viewport_ok(lines, old_top, old_bottom, top, bottom, rows, cols),
    ensures
        ascending(viewport_lines(lines, old_top, old_bottom, top, bottom, rows, cols)),
        kept(lines, viewport_lines(lines, old_top, old_bottom, top, bottom, rows, cols)),
        kept_or_fresh(lines, viewport_lines(lines, old_top, old_bottom, top, bottom, rows, cols), cols),
{
    let result = viewport_lines(lines, old_top, old_bottom, top, bottom, rows, cols);
    if top == old_top {
        assert forall|i: int| 0 <= i < lines.len() implies lines.contains(#[trigger] lines[i]) by {
            assert(lines[i] == lines[i]);
        }
        lemma_kept_or_fresh_refl(lines, cols);
        return;
    }
    let l1 = extended(lines, top, bottom, cols);
    lemma_extended_keeps(lines, top, bottom, cols);
    lemma_window_filled_keeps(l1, top, rows, cols);
    let (l3, r) = window_filled(l1, top, rows, cols);
    lemma_kept_trans(lines, l1, l3);
    lemma_kept_or_fresh_trans(lines, l1, l3, cols);
    if r > 0 {
        let start = append_start(l3, top, None);
        lemma_insert_run(l3, l3.len() as int, start, r as nat, cols);
        assert(l3.take(l3.len() as int) + fresh_run(start, r as nat, cols) + l3.skip(l3.len() as int) =~= result);
        lemma_kept_trans(lines, l3, result);
        lemma_kept_or_fresh_trans(lines, l3, result, cols);
    }
}

/// Whether a line is numbered `t` past `start`.
pub open spec fn has_offset(lines: Seq<LineView>, start: int, t: int) -> bool {
    has_line(lines, start + t)
}

/// The lines a round of gap filling leaves, with the rows left over added
/// at the end, numbered on from the last line.
pub open spec fn with_leftover(res: (Seq<LineView>, int), cols: nat) -> Seq<LineView> {
    if res.1 > 0 {
        res.0 + fresh_run(res.0.last().nr + 1, res.1 as nat, cols)
    } else {
        res.0
    }
}

proof fn lemma_run_numbers(l: Seq<LineView>, a: int, r: int, t: int)
    requires
        0 <= t <= run_len(l, a, r),
        0 <= a < l.len(),
    ensures
        a + t < l.len(),
        l[a + t].nr == l[a].nr + t,
    decreases t,
{
    lemma_run_len_bound(l, a, r);
    if t > 0 {
        lemma_run_numbers(l, a, r, t - 1);
        assert(l[a + t].nr == l[a + t - 1].nr + 1);
    }
}

#[verifier::spinoff_prover]
#[verifier::rlimit(40)]
proof fn lemma_fill_rounds_window(l: Seq<LineView>, a: int, r: int, rows: int, cols: nat)
    requires
        r >= 1,
        ascending(l),
        fill_ok(l, a, r, rows, cols),
        fill_rounds(l, a, r, rows, cols).1 > 0 ==> fill_rounds(l, a, r, rows, cols).0.len() > 0
            && fill_rounds(l, a, r, rows, cols).0.last().nr + fill_rounds(l, a, r, rows, cols).1 <= usize::MAX + 1,
    ensures
        forall|t: int| 0 <= t < r ==> #[trigger] has_offset(with_leftover(fill_rounds(l, a, r, rows, cols), cols), l[a].nr as int, t),
    decreases 2 * r + gap_flag(l, a, r),
{
    let c = run_len(l, a, r) as int;
    lemma_run_len_bound(l, a, r);
    let res = fill_rounds(l, a, r, rows, cols);
    let out = with_leftover(res, cols);
    let x = l[a].nr as int;
    if round_continues(l, a, r, rows) {
        if c == 0 {
            lemma_round_clears_flag(l, a, r, rows, cols);
        }
        let prev = l[a + c].nr as int;
        let next = l[a + c + 1].nr as int;
        let lacks = next - prev - 1;
        let k = if rows - c < lacks { rows - c } else { lacks };
        let l2 = filled_once(l, a, r, rows, cols);
        lemma_insert_run(l, a + c + 1, prev + 1, k as nat, cols);
        lemma_run_numbers(l, a, r, c);
        assert(l2[a + c + 1] == fresh_run(prev + 1, k as nat, cols)[0]);
        assert(l2[a + c + 1].nr == x + c + 1);
        lemma_fill_rounds_window(l2, a + c + 1, r - c, rows, cols);
        assert(res == fill_rounds(l2, a + c + 1, r - c, rows, cols));
        assert(forall|t: int| 0 <= t < r - c ==> #[trigger] has_offset(out, x + c + 1, t));
        assert forall|t: int| 0 <= t < r implies #[trigger] has_offset(out, x, t) by {
            if t <= c {
                lemma_run_numbers(l, a, r, t);
                lemma_fill_rounds_keeps_prefix(l2, a + c + 1, r - c, rows, cols, a + t);
                assert(l2[a + t] == l[a + t]);
                assert(out[a + t] == res.0[a + t]);
                assert(out[a + t].nr == x + t);
            } else {
                assert(has_offset(out, x + c + 1, t - c - 1));
            }
        }
    } else {
        lemma_run_numbers(l, a, r, c);
        assert forall|t: int| 0 <= t < r implies #[trigger] has_offset(out, x, t) by {
            if t <= c {
                lemma_run_numbers(l, a, r, t);
                assert(out[a + t] == l[a + t]);
            } else {
                if a + c + 1 < l.len() {
                    assert(l[a + c].nr < l[a + c + 1].nr);
                    assert(false);
                }
                assert(l.last() == l[a + c]);
                let f = fresh_run(l.last().nr + 1, res.1 as nat, cols);
                let j = l.len() + (t - c - 1);
                assert(out[j] == f[t - c - 1]);
                assert(out[j].nr == x + t);
            }
        }
    }
}

/// When the viewport moves to a new top (after the first time) with room
/// below it, every line from the top on, for as many lines as the grid has
/// rows, is there.
#[verifier::rlimit(60)]
pub proof fn lemma_viewport_fills_window(
    lines: Seq<LineView>,
    old_top: usize,
    old_bottom: usize,
    top: usize,
    bottom: usize,
    rows: nat,
    cols: nat,
)
    requires
        ascending(lines),
        !(old_top == 0 && old_bottom == 0),
        top != old_top,
        bottom > top,
        rows >= 1,
        viewport_ok(lines, old_top, old_bottom, top, bottom, rows, cols),
    ensures
        forall|t: int| 0 <= t < rows ==> #[trigger] has_offset(viewport_lines(lines, old_top, old_bottom, top, bottom, rows, cols), top as int, t),
{
    let l1 = extended(lines, top, bottom, cols);
    lemma_extended_keeps(lines, top, bottom, cols);
    if (top as int) < lines[0].nr {
        assert(l1[0] == fresh_run(top as int, (lines[0].nr - top) as nat, cols)[0]);
    } else if lines.last().nr < top {
        let w = lines.len() as int;
        assert(l1[w] == fresh_run(top as int, (bottom - top) as nat, cols)[0]);
    } else {
        assert(l1[l1.len() - 1].nr >= top);
    }
    lemma_leading_below_props(l1, top);
    let i = leading_below(l1, top) as int;
    assert(i < l1.len());
    let l2 = top_filled(l1, top, cols);
    lemma_top_filled_keeps(l1, top, cols);
    if l1[i].nr > top {
        assert(l2[i] == fresh_run(top as int, (l1[i].nr - top) as nat, cols)[0]);
    }
    assert(l2[i].nr == top);
    let res = fill_rounds(l2, i, rows as int, rows as int, cols);
    lemma_fill_rounds_keeps_prefix(l2, i, rows as int, rows as int, cols, i);
    assert(window_filled(l1, top, rows, cols) == res);
    assert(append_start(res.0, top, None) == res.0.last().nr + 1);
    lemma_fill_rounds_window(l2, i, rows as int, rows as int, cols);
    assert(viewport_lines(lines, old_top, old_bottom, top, bottom, rows, cols) == with_leftover(res, cols));
}

/// A run that stops inside its window stops at a line that does not
/// continue the numbering.
proof fn lemma_run_stops(l: Seq<LineView>, a: int, r: int)
    requires
        0 <= a,
        gap_after_run(l, a, r),
    ensures
        l[a + run_len(l, a, r) + 1].nr != l[a + run_len(l, a, r)].nr + 1,
    decreases r,
{
    let c = run_len(l, a, r) as int;
    if c > 0 {
        assert(run_len(l, a + 1, r - 1) == c - 1);
        lemma_run_stops(l, a + 1, r - 1);
    }
}

/// On ascending line numbers, gap filling from any line with a budget of at
/// least one row (and at most `rows`) runs without failing, keeps the last
/// line last, and leaves at most its budget over.
proof fn lemma_fill_ok_from_ascending(l: Seq<LineView>, a: int, r: int, rows: int, cols: nat)
    requires
        ascending(l),
        1 <= r <= rows,
        0 <= a < l.len(),
    ensures
        fill_ok(l, a, r, rows, cols),
        fill_rounds(l, a, r, rows, cols).0.len() >= l.len(),
        fill_rounds(l, a, r, rows, cols).0.last() == l.last(),
        fill_rounds(l, a, r, rows, cols).1 <= r,
    decreases 2 * r + gap_flag(l, a, r),
{
    let c = run_len(l, a, r) as int;
    lemma_run_len_bound(l, a, r);
    if gap_after_run(l, a, r) {
        lemma_run_stops(l, a, r);
        assert(l[a + c].nr < l[a + c + 1].nr);
    }
    if round_continues(l, a, r, rows) {
        if c == 0 {
            lemma_round_clears_flag(l, a, r, rows, cols);
        }
        let prev = l[a + c].nr as int;
        let next = l[a + c + 1].nr as int;
        let lacks = next - prev - 1;
        let k = if rows - c < lacks { rows - c } else { lacks };
        let p = a + c + 1;
        lemma_insert_run(l, p, prev + 1, k as nat, cols);
        let l2 = filled_once(l, a, r, rows, cols);
        assert(l2[l2.len() - 1] == l[l.len() - 1]);
        lemma_fill_ok_from_ascending(l2, p, r - c, rows, cols);
    }
}

/// On ascending line numbers, making room for a new top keeps the last line
/// last, unless the top moved past it with room below, when the last line is
/// numbered `bottom - 1`.
proof fn lemma_extended_last(lines: Seq<LineView>, top: usize, bottom: usize, cols: nat)
    requires
        ascending(lines),
        lines.len() > 0,
    ensures
        extended(lines, top, bottom, cols).last().nr == if lines.last().nr < top && bottom > top {
            bottom - 1
        } else {
            lines.last().nr as int
        },
{
    let l1 = extended(lines, top, bottom, cols);
    if (top as int) < lines[0].nr {
        if lines.len() > 1 {
            assert(lines[0].nr < lines[lines.len() - 1].nr);
        }
        assert(l1[l1.len() - 1] == lines[lines.len() - 1]);
    } else if lines.last().nr < top {
        if bottom > top {
            let f = fresh_run(top as int, (bottom - top) as nat, cols);
            assert(l1[l1.len() - 1] == f[f.len() - 1]);
        } else {
            assert(l1 =~= lines);
        }
    }
}

/// `set_viewport` runs without failing on any grid whose line numbers
/// ascend, once its viewport has been set, with at least one row, as long as
/// every line it numbers fits in `usize`.
#[verifier::spinoff_prover]
#[verifier::rlimit(50)]
pub proof fn lemma_viewport_ok(
    lines: Seq<LineView>,
    old_top: usize,
    old_bottom: usize,
    top: usize,
    bottom: usize,
    rows: nat,
    cols: nat,
)
    requires
        ascending(lines),
        lines.len() > 0,
        !(old_top == 0 && old_bottom == 0),
        1 <= rows <= isize::MAX,
        lines.last().nr + rows <= usize::MAX,
        bottom + rows <= usize::MAX,
    ensures
        viewport_ok(lines, old_top, old_bottom, top, bottom, rows, cols),
{
    if top == old_top {
        return;
    }
    let l1 = extended(lines, top, bottom, cols);
    lemma_extended_keeps(lines, top, bottom, cols);
    lemma_extended_last(lines, top, bottom, cols);
    assert(l1.last().nr + rows <= usize::MAX);
    lemma_leading_below_props(l1, top);
    let i = leading_below(l1, top) as int;
    let l2 = top_filled(l1, top, cols);
    lemma_top_filled_keeps(l1, top, cols);
    if i < l1.len() && l1[i].nr > top {
        let f = fresh_run(top as int, (l1[i].nr - top) as nat, cols);
        assert(l2[l2.len() - 1] == l1[l1.len() - 1]);
    }
    assert(l2.last() == l1.last());
    if i < l1.len() {
        lemma_fill_ok_from_ascending(l2, i, rows as int, rows as int, cols);
    }
    let (l3, r) = window_filled(l1, top, rows, cols);
    assert(l3.len() > 0 && l3.last() == l1.last() && r <= rows);
}

/// When the viewport of a grid whose line numbers ascend moves to a new top
/// with room below it, `set_viewport` runs without failing, the numbers keep
/// ascending, every line that was there stays, every line added is a fresh
/// blank one, and every line from the top on, for as many lines as the grid
/// has rows, is there.
pub proof fn lemma_viewport_follows(
    lines: Seq<LineView>,
    old_top: usize,
    old_bottom: usize,
    top: usize,
    bottom: usize,
    rows: nat,
    cols: nat,
)
    requires
        ascending(lines),
        lines.len() > 0,
        !(old_top == 0 && old_bottom == 0),
        top != old_top,
        bottom > top,
        1 <= rows <= isize::MAX,
        lines.last().nr + rows <= usize::MAX,
        bottom + rows <= usize::MAX,
    ensures
        viewport_ok(lines, old_top, old_bottom, top, bottom, rows, cols),
        ascending(viewport_lines(lines, old_top, old_bottom, top, bottom, rows, cols)),
        kept(lines, viewport_lines(lines, old_top, old_bottom, top, bottom, rows, cols)),
        kept_or_fresh(lines, viewport_lines(lines, old_top, old_bottom, top, bottom, rows, cols), cols),
        forall|t: int| 0 <= t < rows ==> #[trigger] has_offset(viewport_lines(lines, old_top, old_bottom, top, bottom, rows, cols), top as int, t),
{
    lemma_viewport_ok(lines, old_top, old_bottom, top, bottom, rows, cols);
    lemma_viewport_keeps_lines(lines, old_top, old_bottom, top, bottom, rows, cols);
    lemma_viewport_fills_window(lines, old_top, old_bottom, top, bottom, rows, cols);
}

} // verus!
