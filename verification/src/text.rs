use vstd::prelude::*;
use vstd::string::*;

verus! {

/// One cell of a grid line: the text shown in it, its highlight group, and
/// the byte range it covers in the line's text.
#[derive(Clone, Debug, PartialEq, Eq)]
pub struct TextCell {
    pub text: String,
    pub hldef: Option<u64>,
    pub double_width: bool,
    pub start_index: usize,
    pub end_index: usize,
}

/// What a cell holds, with its text as characters.
pub struct CellView {
    pub text: Seq<char>,
    pub hldef: Option<u64>,
    pub double_width: bool,
    pub start_index: usize,
    pub end_index: usize,
}

impl View for TextCell {
    type V = CellView;

    open spec fn view(&self) -> CellView {
        CellView {
            text: self.text@,
            hldef: self.hldef,
            double_width: self.double_width,
            start_index: self.start_index,
            end_index: self.end_index,
        }
    }
}

/// A blank cell (a single space) covering bytes `start..end`.
pub open spec fn blank_cell(start: usize, end: usize) -> CellView {
    CellView { text: " "@, hldef: None, double_width: false, start_index: start, end_index: end }
}

impl TextCell {
    /// A blank cell: one space, default highlight, covering no bytes yet.
    pub fn default() -> (res: TextCell)
        ensures
            res@ == blank_cell(0, 0),
    {
        TextCell {
            text: String::from_str(" "),
            hldef: None,
            double_width: false,
            start_index: 0,
            end_index: 0,
        }
    }

    /// A blank cell covering bytes `start..end`.
    pub fn blank(start: usize, end: usize) -> (res: TextCell)
        ensures
            res@ == blank_cell(start, end),
    {
        TextCell {
            text: String::from_str(" "),
            hldef: None,
            double_width: false,
            start_index: start,
            end_index: end,
        }
    }

    pub fn clone_cell(&self) -> (res: TextCell)
        ensures
            res@ == self@,
    {
        TextCell {
            text: self.text.clone(),
            hldef: self.hldef,
            double_width: self.double_width,
            start_index: self.start_index,
            end_index: self.end_index,
        }
    }
}

/// A run of cells as Neovim sends it in `grid_line`: the text of one cell,
/// its highlight group (when it changes), and how often it repeats.
#[derive(Clone, Debug, PartialEq, Eq)]
pub struct GridLineCell {
    pub text: String,
    pub hldef: Option<u64>,
    pub repeat: Option<u64>,
    pub double_width: bool,
}

/// How many cells a run stands for.
pub open spec fn repeat_count(c: GridLineCell) -> nat {
    match c.repeat {
        Some(n) => n as nat,
        None => 1,
    }
}

/// The cell a run repeats, before its byte range is known.
pub open spec fn run_cell(c: GridLineCell) -> CellView {
    CellView { text: c.text@, hldef: c.hldef, double_width: c.double_width, start_index: 0, end_index: 0 }
}

/// The cells a sequence of runs stands for, in order.
pub open spec fn expand(runs: Seq<GridLineCell>) -> Seq<CellView>
    decreases runs.len(),
{
    if runs.len() == 0 {
        Seq::empty()
    } else {
        expand(runs.drop_last()) + Seq::new(repeat_count(runs.last()), |i: int| run_cell(runs.last()))
    }
}

/// The number of bytes `t` takes in UTF-8.
pub open spec fn byte_len(t: Seq<char>) -> nat {
    vstd::utf8::encode_utf8(t).len()
}

/// Where cell `i` starts: the bytes of the cells before it.
pub open spec fn offset(cells: Seq<CellView>, i: int) -> nat
    decreases i,
{
    if i <= 0 {
        0
    } else {
        offset(cells, i - 1) + byte_len(cells[i - 1].text)
    }
}

/// The cells with their byte ranges laid end to end from 0.
pub open spec fn reindexed(cells: Seq<CellView>) -> Seq<CellView> {
    Seq::new(
        cells.len(),
        |i: int|
            CellView {
                text: cells[i].text,
                hldef: cells[i].hldef,
                double_width: cells[i].double_width,
                start_index: offset(cells, i) as usize,
                end_index: offset(cells, i + 1) as usize,
            },
    )
}

/// `cells` with `new` written over it from column `col`.
pub open spec fn spliced(cells: Seq<CellView>, col: int, new: Seq<CellView>) -> Seq<CellView> {
    cells.take(col) + new + cells.skip(col + new.len())
}

/// The cache of a laid out line; the drawing code fills it in.
#[derive(Clone, Copy, Debug)]
pub struct LayoutCache;

impl LayoutCache {
    pub fn build(tl: &TextLine) -> LayoutCache {
        LayoutCache
    }
}

/// A line of the grid buffer: its line number in the buffer shown by the
/// window, and its cells.
pub struct TextLine {
    pub nr: usize,
    pub cells: Vec<TextCell>,
    pub cache: Option<LayoutCache>,
}

/// What a line holds: its number and the views of its cells.
pub struct LineView {
    pub nr: usize,
    pub cells: Seq<CellView>,
}

impl View for TextLine {
    type V = LineView;

    open spec fn view(&self) -> LineView {
        LineView { nr: self.nr, cells: self.cells@.map_values(|c: TextCell| c@) }
    }
}

/// `cols` blank cells, cell `i` covering byte `i`.
pub open spec fn blank_cells(cols: nat) -> Seq<CellView> {
    Seq::new(cols, |i: int| blank_cell(i as usize, (i + 1) as usize))
}

/// A fresh line numbered `nr` with `cols` blank cells.
pub open spec fn fresh_line(nr: usize, cols: nat) -> LineView {
    LineView { nr, cells: blank_cells(cols) }
}

impl TextLine {
    /// A line of `cols` blank cells, numbered 0.
    pub fn new(cols: usize) -> (res: TextLine)
        ensures
            res@ == fresh_line(0, cols as nat),
            res.cache is None,
    {
        let mut cells: Vec<TextCell> = Vec::with_capacity(cols);
        let mut i: usize = 0;
        while i < cols
            invariant
                i <= cols,
                cells@.len() == i,
                forall|j: int| 0 <= j < i ==> #[trigger] cells@[j]@ == blank_cell(j as usize, (j + 1) as usize),
            decreases cols - i,
        {
            cells.push(TextCell::blank(i, i + 1));
            i = i + 1;
        }
        let res = TextLine { nr: 0, cells, cache: None };
        assert(res@.cells =~= blank_cells(cols as nat));
        res
    }

    /// A fresh line numbered `nr`.
    pub fn numbered(cols: usize, nr: usize) -> (res: TextLine)
        ensures
            res@ == fresh_line(nr, cols as nat),
            res.cache is None,
    {
        let mut line = TextLine::new(cols);
        line.nr = nr;
        line
    }

    pub fn nr(&self) -> (res: usize)
        ensures
            res == self.nr,
    {
        self.nr
    }

    pub fn len(&self) -> (res: usize)
        ensures
            res == self@.cells.len(),
    {
        self.cells.len()
    }

    /// The cell at column `col`, if the line is that wide.
    pub fn get(&self, col: usize) -> (res: Option<&TextCell>)
        ensures
            match res {
                Some(c) => col < self@.cells.len() && c@ == self@.cells[col as int],
                None => col >= self@.cells.len(),
            },
    {
        if col < self.cells.len() {
            Some(&self.cells[col])
        } else {
            None
        }
    }

    pub fn cache(&self) -> (res: Option<&LayoutCache>)
        ensures
            res is Some == self.cache is Some,
    {
        self.cache.as_ref()
    }

    pub fn set_cache(&mut self, lc: LayoutCache)
        ensures
            final(self)@ == old(self)@,
            final(self).cache is Some,
    {
        self.cache = Some(lc);
    }

    pub fn clone_line(&self) -> (res: TextLine)
        ensures
            res@ == self@,
            res.cache is Some == self.cache is Some,
    {
        let mut cells: Vec<TextCell> = Vec::with_capacity(self.cells.len());
        let mut i: usize = 0;
        while i < self.cells.len()
            invariant
                i <= self.cells@.len(),
                cells@.len() == i,
                forall|j: int| 0 <= j < i ==> #[trigger] cells@[j]@ == self.cells@[j]@,
            decreases self.cells@.len() - i,
        {
            cells.push(self.cells[i].clone_cell());
            i = i + 1;
        }
        let res = TextLine { nr: self.nr, cells, cache: self.cache };
        assert(res@.cells =~= self@.cells);
        res
    }
}

} // verus!
