use std::collections::HashMap;

use vstd::prelude::*;

use crate::text::{GridLineCell, LineView};
use crate::textbuf::{first_line, scroll_down_ok, scroll_up_ok, scrolled_down, scrolled_up, blank_text, discarded, ensured, fresh_run, resize_ok, resized_lines, set_cells_ok, written, TextBuf};

verus! {

broadcast use vstd::std_specs::hash::group_hash_axioms;

/// What the grid component is told to do.
#[derive(Clone, Debug, PartialEq, Eq)]
pub enum Event {
    Show,
    Clear,
    Resize { width: usize, height: usize },
    /// Rebuild the text attributes; they belong to the drawing code.
    ResetCache,
    WindowHide,
    WindowClose,
    Scroll { top: u64, bottom: u64, left: u64, right: u64, rows: i64, columns: i64 },
    Float { focusable: bool },
}

/// One Neovim grid: its id, the window showing it, its size in cells, how
/// it is shown, and its text.
pub struct VimGrid {
    win: u64,
    grid: u64,
    width: usize,
    height: usize,
    is_float: bool,
    focusable: bool,
    visible: bool,
    textbuf: TextBuf,
}

impl VimGrid {
    pub closed spec fn spec_id(&self) -> u64 {
        self.grid
    }

    pub closed spec fn spec_win(&self) -> u64 {
        self.win
    }

    pub closed spec fn spec_width(&self) -> usize {
        self.width
    }

    pub closed spec fn spec_height(&self) -> usize {
        self.height
    }

    pub closed spec fn is_visible(&self) -> bool {
        self.visible
    }

    pub closed spec fn is_float_window(&self) -> bool {
        self.is_float
    }

    pub closed spec fn is_focusable(&self) -> bool {
        self.focusable
    }

    pub closed spec fn buf(&self) -> TextBuf {
        self.textbuf
    }

    pub open spec fn wf(&self) -> bool {
        self.buf().wf()
    }

    /// A visible, focusable, non-floating grid of `width` x `height` blank cells.
    pub fn new(id: u64, winid: u64, width: usize, height: usize) -> (res: VimGrid)
        ensures
            new_grid(res, id, winid, width, height),
    {
        let textbuf = TextBuf::new(width, height);
        VimGrid {
            win: winid,
            grid: id,
            width,
            height,
            is_float: false,
            focusable: true,
            visible: true,
            textbuf,
        }
    }

    pub fn id(&self) -> (res: u64)
        ensures
            res == self.spec_id(),
    {
        self.grid
    }

    pub fn win(&self) -> (res: u64)
        ensures
            res == self.spec_win(),
    {
        self.win
    }

    pub fn width(&self) -> (res: usize)
        ensures
            res == self.spec_width(),
    {
        self.width
    }

    pub fn height(&self) -> (res: usize)
        ensures
            res == self.spec_height(),
    {
        self.height
    }

    pub fn visible(&self) -> (res: bool)
        ensures
            res == self.is_visible(),
    {
        self.visible
    }

    pub fn is_float(&self) -> (res: bool)
        ensures
            res == self.is_float_window(),
    {
        self.is_float
    }

    pub fn focusable(&self) -> (res: bool)
        ensures
            res == self.is_focusable(),
    {
        self.focusable
    }

    pub fn textbuf(&self) -> (res: &TextBuf)
        ensures
            *res == self.buf(),
    {
        &self.textbuf
    }

    pub fn set_win(&mut self, winid: u64)
        ensures
            final(self).spec_win() == winid,
            final(self).buf() == old(self).buf(),
            final(self).spec_id() == old(self).spec_id(),
            final(self).spec_width() == old(self).spec_width(),
            final(self).spec_height() == old(self).spec_height(),
            final(self).is_visible() == old(self).is_visible(),
            final(self).is_float_window() == old(self).is_float_window(),
            final(self).is_focusable() == old(self).is_focusable(),
    {
        self.win = winid;
    }

    pub fn set_hidden(&mut self)
        ensures
            !final(self).is_visible(),
            final(self).buf() == old(self).buf(),
            final(self).spec_id() == old(self).spec_id(),
            final(self).spec_win() == old(self).spec_win(),
            final(self).spec_width() == old(self).spec_width(),
            final(self).spec_height() == old(self).spec_height(),
            final(self).is_float_window() == old(self).is_float_window(),
            final(self).is_focusable() == old(self).is_focusable(),
    {
        self.visible = false;
    }

    pub fn show(&mut self)
        ensures
            final(self).is_visible(),
            final(self).buf() == old(self).buf(),
            final(self).spec_id() == old(self).spec_id(),
            final(self).spec_win() == old(self).spec_win(),
            final(self).spec_width() == old(self).spec_width(),
            final(self).spec_height() == old(self).spec_height(),
            final(self).is_float_window() == old(self).is_float_window(),
            final(self).is_focusable() == old(self).is_focusable(),
    {
        self.visible = true;
    }

    /// Empties the grid's text.
    pub fn clear(&mut self)
        requires
            old(self).wf(),
            old(self).buf().spec_top() + old(self).buf().spec_rows() <= usize::MAX,
        ensures
            final(self).wf(),
            final(self).buf().lines() == fresh_run(
                old(self).buf().spec_top() as int,
                old(self).buf().spec_rows() as nat,
                old(self).buf().spec_cols() as nat,
            ),
            final(self).buf().spec_rows() == old(self).buf().spec_rows(),
            final(self).buf().spec_cols() == old(self).buf().spec_cols(),
            final(self).buf().spec_top() == old(self).buf().spec_top(),
            final(self).buf().spec_bottom() == old(self).buf().spec_bottom(),
            final(self).spec_id() == old(self).spec_id(),
            final(self).spec_win() == old(self).spec_win(),
            final(self).spec_width() == old(self).spec_width(),
            final(self).spec_height() == old(self).spec_height(),
            final(self).is_visible() == old(self).is_visible(),
            final(self).is_float_window() == old(self).is_float_window(),
            final(self).is_focusable() == old(self).is_focusable(),
    {
        self.textbuf.clear();
    }

    /// Content going up by `rows`: the first lines are dropped and blank
    /// lines are left at the end.
    pub fn up(&mut self, rows: usize)
        requires
            old(self).wf(),
            scroll_up_ok(old(self).buf().lines(), rows as nat),
        ensures
            scrolled(*old(self), *final(self)),
            final(self).buf().lines() == scrolled_up(old(self).buf().lines(), rows as nat, old(self).buf().spec_cols() as nat),
    {
        self.textbuf.up(rows);
    }

    /// Content going down by `rows`: the last lines are dropped and blank
    /// lines are put in front.
    pub fn down(&mut self, rows: usize)
        requires
            old(self).wf(),
            scroll_down_ok(old(self).buf().lines(), rows as nat),
        ensures
            scrolled(*old(self), *final(self)),
            final(self).buf().lines() == scrolled_down(old(self).buf().lines(), rows as nat, old(self).buf().spec_cols() as nat),
    {
        self.textbuf.down(rows);
    }

    /// Whether the grid can be resized to `width` x `height` without failing.
    pub open spec fn resize_ok(&self, width: usize, height: usize) -> bool {
        resize_ok(
            self.buf().lines(),
            self.buf().spec_top(),
            self.buf().spec_rows() as nat,
            self.buf().spec_cols() as nat,
            height as nat,
            width as nat,
        )
    }

    /// The text after a resize to `width` x `height`: what scrolled away is
    /// discarded, lines are added or cut to `height`, and each line is
    /// widened or cut to `width`.
    pub open spec fn resized_text(&self, width: usize, height: usize) -> Seq<crate::text::LineView> {
        resized_lines(
            ensured(
                discarded(self.buf().lines(), self.buf().spec_top(), self.buf().spec_rows() as nat, self.buf().spec_cols() as nat),
                self.buf().spec_top(),
                height as nat,
                self.buf().spec_cols() as nat,
            ),
            width as nat,
        )
    }

    /// Gives the grid `width` columns and `height` rows; whether it is shown
    /// stays as it was.
    pub fn set_size(&mut self, width: usize, height: usize)
        requires
            old(self).wf(),
            old(self).resize_ok(width, height),
        ensures
            resized(*old(self), *final(self), width, height),
            final(self).is_visible() == old(self).is_visible(),
    {
        self.width = width;
        self.height = height;
        self.textbuf.resize(height, width);
    }

    /// Resizes the grid to `width` columns and `height` rows, and shows it.
    pub fn resize(&mut self, width: usize, height: usize)
        requires
            old(self).wf(),
            old(self).resize_ok(width, height),
        ensures
            resized(*old(self), *final(self), width, height),
            final(self).is_visible(),
    {
        self.visible = true;
        self.set_size(width, height);
    }

    /// Makes the grid a floating window (shown) or a normal one (hidden
    /// until positioned).
    pub fn set_is_float(&mut self, is_float: bool)
        ensures
            final(self).is_visible() == is_float,
            final(self).is_float_window() == is_float,
            final(self).buf() == old(self).buf(),
            final(self).spec_id() == old(self).spec_id(),
            final(self).spec_win() == old(self).spec_win(),
            final(self).spec_width() == old(self).spec_width(),
            final(self).spec_height() == old(self).spec_height(),
            final(self).is_focusable() == old(self).is_focusable(),
    {
        self.visible = is_float;
        self.is_float = is_float;
    }

    pub fn set_focusable(&mut self, focusable: bool)
        ensures
            final(self).is_focusable() == focusable,
            final(self).buf() == old(self).buf(),
            final(self).spec_id() == old(self).spec_id(),
            final(self).spec_win() == old(self).spec_win(),
            final(self).spec_width() == old(self).spec_width(),
            final(self).spec_height() == old(self).spec_height(),
            final(self).is_visible() == old(self).is_visible(),
            final(self).is_float_window() == old(self).is_float_window(),
    {
        self.focusable = focusable;
    }

    /// Writes a `grid_line` event's runs into the grid's text.
    pub fn set_cells(&mut self, row: usize, col: usize, cells: &[GridLineCell])
        requires
            old(self).wf(),
            set_cells_ok(old(self).buf().lines(), old(self).buf().spec_top(), row, col, cells@),
        ensures
            final(self).wf(),
            final(self).buf().lines() == written(old(self).buf().lines(), old(self).buf().spec_top(), row, col, cells@),
            final(self).buf().caches() == old(self).buf().caches().update(
                first_line(old(self).buf().lines(), old(self).buf().spec_top() + row),
                false,
            ),
            final(self).buf().spec_rows() == old(self).buf().spec_rows(),
            final(self).buf().spec_cols() == old(self).buf().spec_cols(),
            final(self).buf().spec_top() == old(self).buf().spec_top(),
            final(self).buf().spec_bottom() == old(self).buf().spec_bottom(),
            final(self).spec_id() == old(self).spec_id(),
            final(self).spec_win() == old(self).spec_win(),
            final(self).spec_width() == old(self).spec_width(),
            final(self).spec_height() == old(self).spec_height(),
            final(self).is_visible() == old(self).is_visible(),
            final(self).is_float_window() == old(self).is_float_window(),
            final(self).is_focusable() == old(self).is_focusable(),
    {
        self.textbuf.set_cells(row, col, cells);
    }

    /// Whether handling `event` cannot fail.
    pub open spec fn event_ok(&self, event: Event) -> bool {
        match event {
            Event::Clear => self.buf().spec_top() + self.buf().spec_rows() <= usize::MAX,
            Event::Resize { width, height } => self.resize_ok(width, height),
            _ => true,
        }
    }

    /// Handles an event of the grid component.
    pub fn update(&mut self, event: Event)
        requires
            old(self).wf(),
            old(self).event_ok(event),
        ensures
            grid_updated(*old(self), *final(self), event),
    {
        match event {
            Event::Show => self.show(),
            Event::Clear => self.clear(),
            Event::Resize { width, height } => self.resize(width, height),
            Event::ResetCache => {},
            Event::WindowHide => self.set_hidden(),
            Event::WindowClose => self.set_hidden(),
            Event::Scroll { .. } => {},
            Event::Float { focusable } => {
                self.set_is_float(true);
                self.set_focusable(focusable);
            },
        }
    }
}

/// `after` is `before` with only its lines scrolled: still well formed, the
/// same size, viewport, window and state.
pub open spec fn scrolled(before: VimGrid, after: VimGrid) -> bool {
    &&& after.wf()
    &&& after.buf().spec_rows() == before.buf().spec_rows() && after.buf().spec_cols() == before.buf().spec_cols()
    &&& after.buf().spec_top() == before.buf().spec_top() && after.buf().spec_bottom() == before.buf().spec_bottom()
    &&& after.spec_id() == before.spec_id() && after.spec_win() == before.spec_win()
    &&& after.spec_width() == before.spec_width() && after.spec_height() == before.spec_height()
    &&& after.is_visible() == before.is_visible() && after.is_float_window() == before.is_float_window()
    &&& after.is_focusable() == before.is_focusable()
}

/// `g` is a new grid: visible, focusable, not floating, `width` x `height`
/// blank cells with the viewport at the top.
pub open spec fn new_grid(g: VimGrid, id: u64, win: u64, width: usize, height: usize) -> bool {
    &&& g.wf()
    &&& g.spec_id() == id && g.spec_win() == win
    &&& g.spec_width() == width && g.spec_height() == height
    &&& g.is_visible() && g.is_focusable() && !g.is_float_window()
    &&& g.buf().spec_rows() == height && g.buf().spec_cols() == width
    &&& g.buf().spec_top() == 0 && g.buf().spec_bottom() == 0
    &&& g.buf().lines() == blank_text(height as nat, width as nat)
}

/// The grid `after` is `before` with `width` columns and `height` rows: its
/// text resized, the rest as it was (whether it is shown aside).
pub open spec fn resized(before: VimGrid, after: VimGrid, width: usize, height: usize) -> bool {
    &&& after.wf()
    &&& after.spec_width() == width && after.spec_height() == height
    &&& after.buf().spec_rows() == height && after.buf().spec_cols() == width
    &&& after.buf().spec_top() == before.buf().spec_top()
    &&& after.buf().spec_bottom() == before.buf().spec_bottom()
    &&& after.buf().lines() == before.resized_text(width, height)
    &&& after.spec_id() == before.spec_id() && after.spec_win() == before.spec_win()
    &&& after.is_float_window() == before.is_float_window()
    &&& after.is_focusable() == before.is_focusable()
}

/// The grid `after` is what `before` becomes on `event`.
pub open spec fn grid_updated(before: VimGrid, after: VimGrid, event: Event) -> bool {
    let same_place = after.spec_id() == before.spec_id() && after.spec_win() == before.spec_win()
        && after.spec_width() == before.spec_width() && after.spec_height() == before.spec_height();
    let same_kind = after.is_float_window() == before.is_float_window()
        && after.is_focusable() == before.is_focusable();
    let same_frame = after.buf().spec_rows() == before.buf().spec_rows()
        && after.buf().spec_cols() == before.buf().spec_cols()
        && after.buf().spec_top() == before.buf().spec_top()
        && after.buf().spec_bottom() == before.buf().spec_bottom();
    &&& after.wf()
    &&& match event {
        Event::Show => after.is_visible() && after.buf() == before.buf() && same_place && same_kind,
        Event::Clear => {
            &&& after.is_visible() == before.is_visible() && same_place && same_kind && same_frame
            &&& after.buf().lines() == fresh_run(
                before.buf().spec_top() as int,
                before.buf().spec_rows() as nat,
                before.buf().spec_cols() as nat,
            )
        },
        Event::Resize { width, height } => after.is_visible() && resized(before, after, width, height),
        Event::ResetCache => after == before,
        Event::Scroll { .. } => after == before,
        Event::WindowHide => !after.is_visible() && after.buf() == before.buf() && same_place && same_kind,
        Event::WindowClose => !after.is_visible() && after.buf() == before.buf() && same_place && same_kind,
        Event::Float { focusable } => {
            &&& after.is_float_window() && after.is_visible() && after.is_focusable() == focusable
            &&& after.buf() == before.buf() && same_place
        },
    }
}

/// What the set of grids is told to do; positions on screen are the view's.
#[derive(Clone, Debug, PartialEq, Eq)]
pub enum GridEvent {
    Flush,
    ResetCache,
    Show(u64),
    Clear(u64),
    Destroy(u64),
    WindowClose(u64),
    WindowHide(u64),
    Scroll { grid: u64, top: u64, bottom: u64, left: u64, right: u64, rows: i64, columns: i64 },
    Resize { grid: u64, width: u64, height: u64 },
    Add { grid: u64, win: u64, width: usize, height: usize },
    /// The grid is placed at a position, with this size, and shown.
    AtPosition { grid: u64, width: usize, height: usize },
    FloatPosition { grid: u64, focusable: bool },
}

/// The grids Neovim has made, by id.
pub struct VimGrids {
    grids: HashMap<u64, VimGrid>,
}

/// The event a grid gets from an event of the set, if one of them gets one.
pub open spec fn grid_event(event: GridEvent) -> Option<(u64, Event)> {
    match event {
        GridEvent::Show(g) => Some((g, Event::Show)),
        GridEvent::Clear(g) => Some((g, Event::Clear)),
        GridEvent::WindowClose(g) => Some((g, Event::WindowClose)),
        GridEvent::WindowHide(g) => Some((g, Event::WindowHide)),
        GridEvent::Resize { grid, width, height } => Some(
            (grid, Event::Resize { width: width as usize, height: height as usize }),
        ),
        GridEvent::AtPosition { grid, width, height } => Some((grid, Event::Resize { width, height })),
        GridEvent::FloatPosition { grid, focusable } => Some((grid, Event::Float { focusable })),
        _ => None,
    }
}

impl VimGrids {
    pub closed spec fn grids(&self) -> Map<u64, VimGrid> {
        self.grids@
    }

    /// Every grid is well formed and kept under its own id.
    pub open spec fn wf(&self) -> bool {
        forall|k: u64| #[trigger] self.grids().contains_key(k) ==> self.grids()[k].wf() && self.grids()[k].spec_id() == k
    }

    pub fn new() -> (res: VimGrids)
        ensures
            res.wf(),
            res.grids() == Map::<u64, VimGrid>::empty(),
    {
        VimGrids { grids: HashMap::new() }
    }

    /// The grid with id `k`.
    pub fn get(&self, k: u64) -> (res: Option<&VimGrid>)
        ensures
            match res {
                Some(g) => self.grids().contains_key(k) && *g == self.grids()[k],
                None => !self.grids().contains_key(k),
            },
    {
        self.grids.get(&k)
    }

    /// Whether handling `event` cannot fail: the grid it names exists (a new
    /// one does not), and the grid can take what it is told.
    pub open spec fn event_ok(&self, event: GridEvent) -> bool {
        &&& match event {
            GridEvent::Destroy(g) => self.grids().contains_key(g),
            GridEvent::Resize { width, height, .. } => width <= usize::MAX && height <= usize::MAX,
            _ => true,
        }
        &&& match grid_event(event) {
            Some((g, e)) => self.grids().contains_key(g) && self.grids()[g].event_ok(e),
            None => true,
        }
    }

    /// Hands `event` to the grid it names: a new grid is added, a destroyed
    /// one removed, and the others told what to do.
    pub fn update(&mut self, event: GridEvent)
        requires
            old(self).wf(),
            old(self).event_ok(event),
        ensures
            final(self).wf(),
            match grid_event(event) {
                Some((g, e)) => exists|after: VimGrid|
                    #![trigger grid_updated(old(self).grids()[g], after, e)]
                    grid_updated(old(self).grids()[g], after, e) && final(self).grids() == old(self).grids().insert(g, after),
                None => match event {
                    GridEvent::Destroy(g) => final(self).grids() == old(self).grids().remove(g),
                    GridEvent::Add { grid, win, width, height } => exists|added: VimGrid|
                        #![trigger old(self).grids().insert(grid, added)]
                        final(self).grids() == old(self).grids().insert(grid, added) && new_grid(added, grid, win, width, height),
                    _ => final(self).grids() == old(self).grids(),
                },
            },
    {
        match event {
            GridEvent::Destroy(g) => {
                self.grids.remove(&g);
                assert(self.grids() == old(self).grids().remove(g));
            },
            GridEvent::Add { grid, win, width, height } => {
                let added = VimGrid::new(grid, win, width, height);
                self.grids.insert(grid, added);
                assert(self.grids() == old(self).grids().insert(grid, added));
            },
            GridEvent::Show(g) => self.send(g, Event::Show),
            GridEvent::Clear(g) => self.send(g, Event::Clear),
            GridEvent::WindowClose(g) => self.send(g, Event::WindowClose),
            GridEvent::WindowHide(g) => self.send(g, Event::WindowHide),
            GridEvent::Resize { grid, width, height } => {
                self.send(grid, Event::Resize { width: width as usize, height: height as usize })
            },
            GridEvent::AtPosition { grid, width, height } => self.send(grid, Event::Resize { width, height }),
            GridEvent::FloatPosition { grid, focusable } => self.send(grid, Event::Float { focusable }),
            GridEvent::Flush => {},
            GridEvent::ResetCache => {},
            GridEvent::Scroll { .. } => {},
        }
    }

    /// Hands `event` to grid `g`.
    fn send(&mut self, g: u64, event: Event)
        requires
            old(self).wf(),
            old(self).grids().contains_key(g),
            old(self).grids()[g].event_ok(event),
        ensures
            final(self).wf(),
            exists|after: VimGrid|
                #![trigger grid_updated(old(self).grids()[g], after, event)]
                grid_updated(old(self).grids()[g], after, event) && final(self).grids() == old(self).grids().insert(g, after),
    {
        let mut grid = self.grids.remove(&g).unwrap();
        let ghost before = grid;
        grid.update(event);
        let ghost after = grid;
        self.grids.insert(g, grid);
        assert(grid_updated(before, after, event));
    }
}

} // verus!
