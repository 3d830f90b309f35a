use std::collections::HashMap;

use vstd::prelude::*;
use vstd::string::*;

use crate::cursor::{with_mode, Cursor, CursorMode};
use crate::factory::{insert_change, touched, Factory};
use crate::grid::{grid_updated, new_grid, resized, scrolled, Event, VimGrid};
use crate::highlights::HighlightDefinitions;
use crate::metrics::{char_height_units, heights, max_from_one, pixels, recomputed, Metrics};
use crate::opts::Opts;
use crate::strings::{is_blank, join, joined, replace, replaced, split, split_on, trim, trimmed, views};
use crate::style::{Colors, Style};
use crate::text::GridLineCell;
use crate::textbuf::{scroll_down_ok, scroll_up_ok, scrolled_down, scrolled_up, set_cells_ok, written};

verus! {

broadcast use vstd::std_specs::hash::group_hash_axioms;

/// The pieces of a title that are not empty, trimmed.
pub open spec fn title_parts(pieces: Seq<Seq<char>>) -> Seq<Seq<char>>
    decreases pieces.len(),
{
    if pieces.len() == 0 {
        Seq::empty()
    } else {
        let rest = title_parts(pieces.drop_last());
        if pieces.last().len() == 0 {
            rest
        } else {
            rest.push(trimmed(pieces.last()))
        }
    }
}

/// The window title shown for the title Neovim sets: the pieces between runs
/// of five spaces, trimmed, those that are not empty joined by two spaces.
pub open spec fn title_text(title: Seq<char>) -> Seq<char> {
    joined(title_parts(split_on(title, seq![' ', ' ', ' ', ' ', ' '])), seq![' ', ' '])
}

/// The window title shown for the title Neovim sets.
pub fn window_title(title: &str) -> (res: String)
    ensures
        res@ == title_text(title@),
{
    proof {
        reveal_strlit("     ");
        reveal_strlit("  ");
        assert("     "@ =~= seq![' ', ' ', ' ', ' ', ' ']);
        assert("  "@ =~= seq![' ', ' ']);
    }
    let pieces = split(title, "     ");
    let mut parts: Vec<String> = Vec::new();
    let mut i: usize = 0;
    while i < pieces.len()
        invariant
            i <= pieces@.len(),
            views(parts@) == title_parts(views(pieces@).take(i as int)),
        decreases pieces@.len() - i,
    {
        let ghost before = views(pieces@).take(i as int);
        let ghost after = views(pieces@).take(i + 1);
        proof {
            assert(after.drop_last() =~= before);
            assert(after.last() == pieces@[i as int]@);
        }
        if pieces[i].as_str().unicode_len() > 0 {
            let t = trim(pieces[i].as_str());
            let ghost prev = views(parts@);
            parts.push(t);
            assert(views(parts@) =~= prev.push(t@));
        }
        i = i + 1;
    }
    proof {
        assert(views(pieces@).take(i as int) =~= views(pieces@));
    }
    join(&parts, "  ")
}

/// The font a `guifont` value names, in the form the font system reads:
/// the size marker `:h` becomes a space.
pub open spec fn font_name(guifont: Seq<char>) -> Seq<char> {
    replaced(guifont, seq![':', 'h'], seq![' '])
}

/// The editor mode Neovim reports.
#[derive(Clone, Debug, PartialEq, Eq)]
pub enum EditorMode {
    Normal,
    Insert,
    Visual,
    Replace,
    CmdLine,
    Unknown(String),
}

/// An option of Neovim's that concerns the user interface.
#[derive(Clone, Debug, PartialEq, Eq)]
pub enum GuiOption {
    AmbiWidth(String),
    ArabicShape(bool),
    Emoji(bool),
    GuiFont(String),
    GuiFontSet(String),
    GuiFontWide(String),
    LineSpace(u64),
    Pumblend(u64),
    ShowTabLine(u64),
    TermGuiColors(bool),
    Unknown(String),
}

/// A redraw event from Neovim, as the editor model takes it.  Where handling
/// the event asks Neovim about a window, the answer comes with the event:
/// `window` is the window's number, `size` the window's width and height.
pub enum RedrawEvent<C> {
    SetTitle { title: String },
    OptionSet { gui_option: GuiOption },
    DefaultColorsSet { colors: Colors<C> },
    HighlightAttributesDefine { id: u64, style: Style<C> },
    Clear { grid: u64 },
    GridLine { grid: u64, row: u64, column_start: u64, cells: Vec<GridLineCell> },
    Scroll { grid: u64, top: u64, bottom: u64, left: u64, right: u64, rows: i64, columns: i64 },
    Resize { grid: u64, width: u64, height: u64 },
    WindowPosition { grid: u64, window: u64, start_row: u64, start_column: u64, width: u64, height: u64 },
    WindowViewport { grid: u64, window: Option<u64>, size: Option<(u64, u64)> },
    WindowFloatPosition { grid: u64, anchor_grid: u64, focusable: bool },
    WindowHide { grid: u64 },
    WindowClose { grid: u64 },
    Destroy { grid: u64 },
    Flush,
    CursorGoto { grid: u64, row: u64, column: u64 },
    ModeInfoSet { cursor_modes: Vec<CursorMode> },
    ModeChange { mode: EditorMode, mode_index: u64 },
    BusyStart,
    BusyStop,
    MouseOn,
    MouseOff,
    /// A message event; the model keeps no messages.
    Message,
}

/// The state of the editor window: options, modes, the cursor, the
/// highlight groups and the grids, and which window each grid belongs to.
pub struct AppModel<C> {
    /// The command line options the editor was started with.
    pub opts: Opts,
    pub title: String,
    pub default_width: i32,
    pub default_height: i32,
    pub guifont: Option<String>,
    pub guifontset: Option<String>,
    pub guifontwide: Option<String>,
    /// The font in use, in the form the font system reads.
    pub font_description: String,
    pub font_changed: bool,
    /// The size of a cell.
    pub metrics: Metrics,
    pub show_tab_line: Option<u64>,
    pub mode: EditorMode,
    pub mouse_on: bool,
    pub cursor: Cursor,
    pub cursor_at: Option<u64>,
    pub cursor_mode: usize,
    pub cursor_modes: Vec<CursorMode>,
    pub hldefs: HighlightDefinitions<C>,
    pub flush: bool,
    pub focused: u64,
    pub background_changed: bool,
    pub vgrids: Factory<VimGrid>,
    /// The window number of each grid.
    pub relationships: HashMap<u64, u64>,
}

/// The grid that has the focus after `grid` is hidden or closed: the first
/// one if it was `grid`, else the one it was.
pub open spec fn focus_after_hide(focused: u64, grid: u64) -> u64 {
    if focused == grid {
        1
    } else {
        focused
    }
}

impl<C: Copy> AppModel<C> {
    pub open spec fn grids(&self) -> Map<u64, VimGrid> {
        self.vgrids.components()
    }

    /// Every grid is well formed and kept under its own id, and belongs to
    /// a window.
    pub open spec fn wf(&self) -> bool {
        &&& forall|k: u64| #[trigger] self.grids().contains_key(k) ==> self.grids()[k].wf() && self.grids()[k].spec_id() == k
        &&& self.relationships@.dom() == self.grids().dom()
    }

    /// The model before Neovim has drawn anything: the title and size from
    /// the options, the default font, highlight groups with `defaults`.
    pub fn new(opts: Opts, defaults: Colors<C>) -> (res: Self)
        ensures
            res.wf(),
            res.opts == opts,
            res.title@ == opts.title@,
            res.default_width == opts.width && res.default_height == opts.height,
            res.guifont is None && res.guifontset is None && res.guifontwide is None,
            res.font_description@ == "monospace 11"@,
            !res.font_changed && res.show_tab_line is None,
            res.metrics.spec_charwidth() == 1 && res.metrics.spec_charheight() == 2,
            res.metrics.spec_linespace() == 0 && res.metrics.spec_height() == 2 && res.metrics.spec_width() == 1,
            res.mode == EditorMode::Normal,
            !res.mouse_on,
            res.cursor_at is None && res.cursor_mode == 0 && res.cursor_modes@.len() == 0,
            res.hldefs.styles() == Map::<u64, Style<C>>::empty().insert(0, Style::plain(defaults)),
            !res.flush && res.focused == 1 && !res.background_changed,
            res.grids() == Map::<u64, VimGrid>::empty(),
            res.relationships@ == Map::<u64, u64>::empty(),
    {
        let vgrids: Factory<VimGrid> = Factory::new();
        AppModel {
            title: opts.title.clone(),
            default_width: opts.width,
            default_height: opts.height,
            opts,
            guifont: None,
            guifontset: None,
            guifontwide: None,
            font_description: String::from_str("monospace 11"),
            font_changed: false,
            metrics: Metrics::new(),
            show_tab_line: None,
            mode: EditorMode::Normal,
            mouse_on: false,
            cursor: Cursor::new(),
            cursor_at: None,
            cursor_mode: 0,
            cursor_modes: Vec::new(),
            hldefs: HighlightDefinitions::new(defaults),
            flush: false,
            focused: 1,
            background_changed: false,
            vgrids,
            relationships: HashMap::new(),
        }
    }

    /// Takes the cell size from the font in use, laid out: the logical
    /// extents of the printable ASCII characters and the height the font
    /// reports, in font units.  Everything else stays as it is.
    pub fn recompute(&mut self, extents: &Vec<(i32, i32)>, font_height: i32)
        requires
            pixels(char_height_units(max_from_one(heights(extents@), extents@.len()), font_height as int))
                + old(self).metrics.spec_linespace() <= u64::MAX,
        ensures
            *final(self) == (AppModel { metrics: final(self).metrics, ..*old(self) }),
            recomputed(old(self).metrics, final(self).metrics, extents@, font_height as int),
    {
        self.metrics.recompute(extents, font_height);
    }
}

/// `after` is `before` with grid `g`, which exists, changed through the
/// factory into `after.grids()[g]`.
pub open spec fn grid_changed<C: Copy>(before: AppModel<C>, after: AppModel<C>, g: u64) -> bool {
    &&& before.vgrids.components().contains_key(g)
    &&& after.vgrids.components() == before.vgrids.components().insert(g, after.vgrids.components()[g])
    &&& after.vgrids.staged() == touched(before.vgrids.staged(), g)
    &&& after.vgrids.flushes() == before.vgrids.flushes()
}

/// `after` is `before` with grid `g`, which did not exist, added as a new
/// grid of window `win`.
pub open spec fn grid_added<C: Copy>(before: AppModel<C>, after: AppModel<C>, g: u64, win: u64, width: usize, height: usize) -> bool {
    &&& !before.vgrids.components().contains_key(g)
    &&& after.vgrids.components() == before.vgrids.components().insert(g, after.vgrids.components()[g])
    &&& new_grid(after.vgrids.components()[g], g, win, width, height)
    &&& after.vgrids.staged() == before.vgrids.staged().insert(g, insert_change(before.vgrids.staged(), g))
    &&& after.vgrids.flushes() == before.vgrids.flushes()
    &&& after.relationships@ == before.relationships@.insert(g, win)
}

impl<C: Copy> AppModel<C> {
    /// Whether handling `event` cannot fail: the grids it works on exist
    /// and can take what they are told, sizes fit in `usize`, a scroll moves
    /// rows, and a mode index names a known mode.
    pub open spec fn event_ok(&self, event: RedrawEvent<C>) -> bool {
        let grids = self.grids();
        let cursor_grid_ok = match self.cursor_at {
            Some(p) => grids.contains_key(p),
            None => true,
        };
        match event {
            RedrawEvent::OptionSet { gui_option: GuiOption::LineSpace(space) } => {
                self.metrics.spec_charheight() + space <= u64::MAX
            },
            RedrawEvent::Clear { grid } => grids.contains_key(grid) ==> grids[grid].event_ok(Event::Clear),
            RedrawEvent::GridLine { grid, row, column_start, cells } => {
                &&& grids.contains_key(grid)
                &&& row <= usize::MAX && column_start <= usize::MAX
                &&& set_cells_ok(grids[grid].buf().lines(), grids[grid].buf().spec_top(), row as usize, column_start as usize, cells@)
            },
            RedrawEvent::Scroll { grid, rows, .. } => {
                &&& grids.contains_key(grid) && rows != 0 && rows != i64::MIN
                &&& -(usize::MAX as int) <= rows <= usize::MAX
                &&& rows > 0 ==> scroll_up_ok(grids[grid].buf().lines(), rows as nat)
                &&& rows < 0 ==> scroll_down_ok(grids[grid].buf().lines(), (-rows) as nat)
            },
            RedrawEvent::Resize { grid, width, height } => {
                &&& width <= usize::MAX && height <= usize::MAX
                &&& grids.contains_key(grid) ==> grids[grid].resize_ok(width as usize, height as usize)
            },
            RedrawEvent::WindowPosition { grid, width, height, .. } => {
                &&& width <= usize::MAX && height <= usize::MAX
                &&& grids.contains_key(grid) ==> grids[grid].resize_ok(width as usize, height as usize)
            },
            RedrawEvent::WindowViewport { size, .. } => match size {
                Some((width, height)) => width <= usize::MAX && height <= usize::MAX,
                None => true,
            },
            RedrawEvent::WindowFloatPosition { grid, anchor_grid, .. } => grids.contains_key(grid) && grids.contains_key(anchor_grid),
            RedrawEvent::WindowHide { grid } => grids.contains_key(grid),
            RedrawEvent::CursorGoto { grid, .. } => match self.cursor_at {
                Some(p) => p != grid ==> grids.contains_key(p) && grids.contains_key(grid),
                None => true,
            },
            RedrawEvent::ModeInfoSet { cursor_modes } => self.cursor_mode < cursor_modes@.len() && cursor_grid_ok,
            RedrawEvent::ModeChange { mode_index, .. } => mode_index < self.cursor_modes@.len() && cursor_grid_ok,
            _ => true,
        }
    }
}

impl<C: Copy> AppModel<C> {
    /// Handles a redraw event from Neovim.
    pub fn update(&mut self, event: RedrawEvent<C>)
        requires
            old(self).wf(),
            old(self).event_ok(event),
        ensures
            final(self).wf(),
            stepped(*old(self), *final(self), event),
    {
        match event {
            RedrawEvent::SetTitle { title } => {
                self.title = window_title(title.as_str());
            },
            RedrawEvent::OptionSet { gui_option } => self.set_option(gui_option),
            RedrawEvent::DefaultColorsSet { colors } => {
                self.background_changed = true;
                self.hldefs.set_defaults(colors);
            },
            RedrawEvent::HighlightAttributesDefine { id, style } => {
                self.hldefs.set(id, style);
            },
            RedrawEvent::Clear { grid } => self.clear_grid(grid),
            RedrawEvent::GridLine { grid, row, column_start, cells } => self.grid_line(grid, row, column_start, cells),
            RedrawEvent::Scroll { grid, top, bottom, left, right, rows, columns } => {
                self.scroll(grid, top, bottom, left, right, rows, columns)
            },
            RedrawEvent::Resize { grid, width, height } => self.resize_grid(grid, width, height),
            RedrawEvent::WindowPosition { grid, window, start_row, start_column, width, height } => {
                self.window_position(grid, window, start_row, start_column, width, height)
            },
            RedrawEvent::WindowViewport { grid, window, size } => self.window_viewport(grid, window, size),
            RedrawEvent::WindowFloatPosition { grid, anchor_grid, focusable } => {
                self.float_position(grid, anchor_grid, focusable)
            },
            RedrawEvent::WindowHide { grid } => self.hide_window(grid),
            RedrawEvent::WindowClose { grid } => self.remove_grid(grid),
            RedrawEvent::Destroy { grid } => self.remove_grid(grid),
            RedrawEvent::Flush => {
                self.flush = true;
                self.vgrids.flush();
            },
            RedrawEvent::CursorGoto { grid, row, column } => self.cursor_goto(grid, row, column),
            RedrawEvent::ModeInfoSet { cursor_modes } => self.set_cursor_modes(cursor_modes),
            RedrawEvent::ModeChange { mode, mode_index } => self.change_mode(mode, mode_index),
            RedrawEvent::MouseOn => {
                self.mouse_on = true;
            },
            RedrawEvent::MouseOff => {
                self.mouse_on = false;
            },
            RedrawEvent::BusyStart => {},
            RedrawEvent::BusyStop => {},
            RedrawEvent::Message => {},
        }
    }

    /// Clears grid `grid`, if it exists.
    fn clear_grid(&mut self, grid: u64)
        requires
            old(self).wf(),
            old(self).event_ok((RedrawEvent::Clear { grid })),
        ensures
            final(self).wf(),
            stepped(*old(self), *final(self), (RedrawEvent::Clear { grid })),
    {
        match self.vgrids.get_mut(grid) {
            Some(vgrid) => vgrid.clear(),
            None => {},
        }
        assert(self.grids().dom() =~= old(self).grids().dom());
    }

    /// Writes a line of runs into grid `grid`.
    fn grid_line(&mut self, grid: u64, row: u64, column_start: u64, cells: Vec<GridLineCell>)
        requires
            old(self).wf(),
            old(self).event_ok((RedrawEvent::GridLine { grid, row, column_start, cells })),
        ensures
            final(self).wf(),
            stepped(*old(self), *final(self), (RedrawEvent::GridLine { grid, row, column_start, cells })),
    {
        match self.vgrids.get_mut(grid) {
            Some(vgrid) => vgrid.set_cells(row as usize, column_start as usize, cells.as_slice()),
            None => {},
        }
        assert(self.grids().dom() =~= old(self).grids().dom());
    }

    /// Scrolls grid `grid` by `rows` rows: up when `rows` is positive, down
    /// when it is negative.
    fn scroll(&mut self, grid: u64, top: u64, bottom: u64, left: u64, right: u64, rows: i64, columns: i64)
        requires
            old(self).wf(),
            old(self).event_ok((RedrawEvent::Scroll { grid, top, bottom, left, right, rows, columns })),
        ensures
            final(self).wf(),
            stepped(*old(self), *final(self), (RedrawEvent::Scroll { grid, top, bottom, left, right, rows, columns })),
    {
        match self.vgrids.get_mut(grid) {
            Some(vgrid) => if rows > 0 {
                vgrid.up(rows as usize);
            } else {
                vgrid.down((-rows) as usize);
            },
            None => {},
        }
        assert(self.grids().dom() =~= old(self).grids().dom());
    }

    /// Resizes grid `grid`, or adds it to window 0 when it is new; it gets the focus.
    fn resize_grid(&mut self, grid: u64, width: u64, height: u64)
        requires
            old(self).wf(),
            old(self).event_ok((RedrawEvent::Resize { grid, width, height })),
        ensures
            final(self).wf(),
            stepped(*old(self), *final(self), (RedrawEvent::Resize { grid, width, height })),
    {
        self.focused = grid;
        if self.vgrids.get(grid).is_some() {
            match self.vgrids.get_mut(grid) {
                Some(vgrid) => vgrid.set_size(width as usize, height as usize),
                None => {},
            }
            assert(self.grids().dom() =~= old(self).grids().dom());
        } else {
            self.add_grid(grid, 0, width as usize, height as usize);
        }
    }

    /// Places grid `grid` in window `window`, adding it when it is new, and shows it.
    fn window_position(&mut self, grid: u64, window: u64, start_row: u64, start_column: u64, width: u64, height: u64)
        requires
            old(self).wf(),
            old(self).event_ok((RedrawEvent::WindowPosition { grid, window, start_row, start_column, width, height })),
        ensures
            final(self).wf(),
            stepped(*old(self), *final(self), (RedrawEvent::WindowPosition { grid, window, start_row, start_column, width, height })),
    {
        self.focused = grid;
        if self.vgrids.get(grid).is_none() {
            self.add_grid(grid, window, width as usize, height as usize);
        } else {
            match self.vgrids.get_mut(grid) {
                Some(vgrid) => vgrid.resize(width as usize, height as usize),
                None => {},
            }
            self.relationships.insert(grid, window);
            assert(self.grids().dom() =~= old(self).grids().dom());
            assert(self.relationships@.dom() =~= old(self).relationships@.dom());
        }
    }

    /// Shows grid `grid` in window `window`, adding it with `size` when it is new.
    fn window_viewport(&mut self, grid: u64, window: Option<u64>, size: Option<(u64, u64)>)
        requires
            old(self).wf(),
            old(self).event_ok((RedrawEvent::WindowViewport { grid, window, size })),
        ensures
            final(self).wf(),
            stepped(*old(self), *final(self), (RedrawEvent::WindowViewport { grid, window, size })),
    {
        match window {
            None => {},
            Some(w) => if self.vgrids.get(grid).is_none() {
                match size {
                    Some((width, height)) => self.add_grid(grid, w, width as usize, height as usize),
                    None => {},
                }
            } else {
                match self.vgrids.get_mut(grid) {
                    Some(vgrid) => vgrid.show(),
                    None => {},
                }
                self.relationships.insert(grid, w);
                assert(self.grids().dom() =~= old(self).grids().dom());
                assert(self.relationships@.dom() =~= old(self).relationships@.dom());
            },
        }
    }

    /// Makes grid `grid` a floating window.
    fn float_position(&mut self, grid: u64, anchor_grid: u64, focusable: bool)
        requires
            old(self).wf(),
            old(self).event_ok((RedrawEvent::WindowFloatPosition { grid, anchor_grid, focusable })),
        ensures
            final(self).wf(),
            stepped(*old(self), *final(self), (RedrawEvent::WindowFloatPosition { grid, anchor_grid, focusable })),
    {
        match self.vgrids.get_mut(grid) {
            Some(vgrid) => {
                vgrid.set_is_float(true);
                vgrid.set_focusable(focusable);
            },
            None => {},
        }
        assert(self.grids().dom() =~= old(self).grids().dom());
    }

    /// Hides grid `grid`; the focus leaves it.
    fn hide_window(&mut self, grid: u64)
        requires
            old(self).wf(),
            old(self).event_ok((RedrawEvent::WindowHide { grid })),
        ensures
            final(self).wf(),
            stepped(*old(self), *final(self), (RedrawEvent::WindowHide { grid })),
    {
        if self.focused == grid {
            self.focused = 1;
        }
        match self.vgrids.get_mut(grid) {
            Some(vgrid) => vgrid.set_hidden(),
            None => {},
        }
        assert(self.grids().dom() =~= old(self).grids().dom());
    }

    /// Takes the cursor modes Neovim knows; the cursor takes on the current one.
    fn set_cursor_modes(&mut self, cursor_modes: Vec<CursorMode>)
        requires
            old(self).wf(),
            old(self).event_ok((RedrawEvent::ModeInfoSet { cursor_modes })),
        ensures
            final(self).wf(),
            stepped(*old(self), *final(self), (RedrawEvent::ModeInfoSet { cursor_modes })),
    {
        self.cursor_modes = cursor_modes;
        let m = self.cursor_modes[self.cursor_mode];
        self.touch_cursor_grid();
        self.cursor.set_mode(m);
    }

    /// Switches to mode `mode`, the cursor to cursor mode `mode_index`.
    fn change_mode(&mut self, mode: EditorMode, mode_index: u64)
        requires
            old(self).wf(),
            old(self).event_ok((RedrawEvent::ModeChange { mode, mode_index })),
        ensures
            final(self).wf(),
            stepped(*old(self), *final(self), (RedrawEvent::ModeChange { mode, mode_index })),
    {
        assert(mode_index < self.cursor_modes.len());
        self.mode = mode;
        self.cursor_mode = mode_index as usize;
        let m = self.cursor_modes[self.cursor_mode];
        self.touch_cursor_grid();
        self.cursor.set_mode(m);
    }

    /// Takes on a user interface option.
    fn set_option(&mut self, gui_option: GuiOption)
        requires
            old(self).event_ok((RedrawEvent::OptionSet { gui_option })),
        ensures
            stepped(*old(self), *final(self), (RedrawEvent::OptionSet { gui_option })),
    {
        match gui_option {
            GuiOption::GuiFont(font) => {
                if !is_blank(font.as_str()) {
                    proof {
                        reveal_strlit(":h");
                        reveal_strlit(" ");
                        assert(":h"@ =~= seq![':', 'h']);
                        assert(" "@ =~= seq![' ']);
                    }
                    self.font_description = replace(font.as_str(), ":h", " ");
                    self.guifont = Some(font);
                    self.font_changed = true;
                }
            },
            GuiOption::GuiFontSet(set) => {
                self.guifontset = Some(set);
            },
            GuiOption::GuiFontWide(wide) => {
                self.guifontwide = Some(wide);
            },
            GuiOption::LineSpace(space) => {
                self.metrics.set_linespace(space);
            },
            GuiOption::ShowTabLine(show) => {
                self.show_tab_line = Some(show);
            },
            _ => {},
        }
    }

    /// Adds a new grid of window `win`.
    fn add_grid(&mut self, grid: u64, win: u64, width: usize, height: usize)
        requires
            old(self).wf(),
            !old(self).grids().contains_key(grid),
        ensures
            final(self).wf(),
            *final(self) == (AppModel { vgrids: final(self).vgrids, relationships: final(self).relationships, ..*old(self) }),
            grid_added(*old(self), *final(self), grid, win, width, height),
    {
        let vgrid = VimGrid::new(grid, win, width, height);
        self.vgrids.insert(grid, vgrid);
        self.relationships.insert(grid, win);
        proof {
            assert(self.relationships@.dom() =~= self.grids().dom());
        }
    }

    /// Removes grid `grid`, and its window with it; the focus leaves it.
    fn remove_grid(&mut self, grid: u64)
        requires
            old(self).wf(),
        ensures
            final(self).wf(),
            stepped(*old(self), *final(self), (RedrawEvent::Destroy { grid })),
            stepped(*old(self), *final(self), (RedrawEvent::WindowClose { grid })),
    {
        if self.focused == grid {
            self.focused = 1;
        }
        self.relationships.remove(&grid);
        self.vgrids.remove(grid);
        proof {
            assert(self.relationships@.dom() =~= self.grids().dom());
        }
    }

    /// Moves the cursor to `row`, `column` of grid `grid`.
    fn cursor_goto(&mut self, grid: u64, row: u64, column: u64)
        requires
            old(self).wf(),
            old(self).event_ok((RedrawEvent::CursorGoto { grid, row, column })),
        ensures
            final(self).wf(),
            stepped(*old(self), *final(self), (RedrawEvent::CursorGoto { grid, row, column })),
    {
        let previous = self.cursor_at;
        self.cursor_at = Some(grid);
        match previous {
            Some(p) => if p != grid {
                self.vgrids.get_mut(p);
                assert(self.grids() =~= old(self).grids());
                self.vgrids.get_mut(grid);
            },
            None => {
                self.vgrids.get_mut(grid);
            },
        }
        assert(self.grids() =~= old(self).grids());
        let exists = match self.vgrids.get_mut(grid) {
            Some(_) => true,
            None => false,
        };
        assert(self.grids() =~= old(self).grids());
        if exists {
            self.cursor.set_grid(grid);
            self.cursor.set_coord(column, row);
        }
    }

    /// Marks the grid that shows the cursor as changed.
    fn touch_cursor_grid(&mut self)
        requires
            old(self).wf(),
        ensures
            final(self).wf(),
            *final(self) == (AppModel { vgrids: final(self).vgrids, ..*old(self) }),
            final(self).grids() == old(self).grids(),
            final(self).vgrids.staged() == match old(self).cursor_at {
                Some(p) => touched(old(self).vgrids.staged(), p),
                None => old(self).vgrids.staged(),
            },
            final(self).vgrids.flushes() == old(self).vgrids.flushes(),
    {
        match self.cursor_at {
            Some(p) => {
                self.vgrids.get_mut(p);
            },
            None => {},
        }
        assert(self.grids() =~= old(self).grids());
    }
}

/// The model `after` is what `before` becomes on `event`.
pub open spec fn stepped<C: Copy>(before: AppModel<C>, after: AppModel<C>, event: RedrawEvent<C>) -> bool {
    match event {
        RedrawEvent::SetTitle { title } => after == AppModel { title: after.title, ..before } && after.title@ == title_text(title@),
        RedrawEvent::OptionSet { gui_option } => match gui_option {
            GuiOption::GuiFont(font) => if trimmed(font@).len() == 0 {
                after == before
            } else {
                &&& after == AppModel {
                    guifont: Some(font),
                    font_description: after.font_description,
                    font_changed: true,
                    ..before
                }
                &&& after.font_description@ == font_name(font@)
            },
            GuiOption::GuiFontSet(set) => after == AppModel { guifontset: Some(set), ..before },
            GuiOption::GuiFontWide(wide) => after == AppModel { guifontwide: Some(wide), ..before },
            GuiOption::LineSpace(space) => {
                &&& after == AppModel { metrics: after.metrics, ..before }
                &&& after.metrics.spec_linespace() == space
                &&& after.metrics.spec_charwidth() == before.metrics.spec_charwidth()
                &&& after.metrics.spec_charheight() == before.metrics.spec_charheight()
                &&& after.metrics.spec_height() == before.metrics.spec_charheight() + space
                &&& after.metrics.spec_width() == before.metrics.spec_width()
            },
            GuiOption::ShowTabLine(show) => after == AppModel { show_tab_line: Some(show), ..before },
            _ => after == before,
        },
        RedrawEvent::DefaultColorsSet { colors } => {
            &&& after == AppModel { hldefs: after.hldefs, background_changed: true, ..before }
            &&& after.hldefs.styles() == before.hldefs.styles().insert(0, Style::plain(colors))
            &&& after.hldefs.default_colors() == Some(colors)
        },
        RedrawEvent::HighlightAttributesDefine { id, style } => {
            &&& after == AppModel { hldefs: after.hldefs, ..before }
            &&& after.hldefs.styles() == before.hldefs.styles().insert(id, style)
            &&& after.hldefs.default_colors() == before.hldefs.default_colors()
        },
        RedrawEvent::Clear { grid } => if before.grids().contains_key(grid) {
            &&& after == AppModel { vgrids: after.vgrids, ..before }
            &&& grid_changed(before, after, grid)
            &&& grid_updated(before.grids()[grid], after.grids()[grid], Event::Clear)
        } else {
            after == AppModel { vgrids: after.vgrids, ..before } && after.grids() == before.grids()
                && after.vgrids.staged() == touched(before.vgrids.staged(), grid)
                && after.vgrids.flushes() == before.vgrids.flushes()
        },
        RedrawEvent::GridLine { grid, row, column_start, cells } => {
            let g = before.grids()[grid];
            let h = after.grids()[grid];
            &&& after == AppModel { vgrids: after.vgrids, ..before }
            &&& grid_changed(before, after, grid)
            &&& h.buf().lines() == written(g.buf().lines(), g.buf().spec_top(), row as usize, column_start as usize, cells@)
            &&& h.buf().spec_rows() == g.buf().spec_rows() && h.buf().spec_cols() == g.buf().spec_cols()
            &&& h.buf().spec_top() == g.buf().spec_top() && h.buf().spec_bottom() == g.buf().spec_bottom()
            &&& h.wf() && h.spec_id() == g.spec_id() && h.spec_win() == g.spec_win()
            &&& h.spec_width() == g.spec_width() && h.spec_height() == g.spec_height()
            &&& h.is_visible() == g.is_visible() && h.is_float_window() == g.is_float_window()
            &&& h.is_focusable() == g.is_focusable()
        },
        RedrawEvent::Scroll { grid, rows, .. } => {
            let g = before.grids()[grid];
            let h = after.grids()[grid];
            &&& after == AppModel { vgrids: after.vgrids, ..before }
            &&& grid_changed(before, after, grid)
            &&& scrolled(g, h)
            &&& h.buf().lines() == if rows > 0 {
                scrolled_up(g.buf().lines(), rows as nat, g.buf().spec_cols() as nat)
            } else {
                scrolled_down(g.buf().lines(), (-rows) as nat, g.buf().spec_cols() as nat)
            }
        },
        RedrawEvent::Resize { grid, width, height } => if before.grids().contains_key(grid) {
            &&& after == AppModel { vgrids: after.vgrids, focused: grid, ..before }
            &&& grid_changed(before, after, grid)
            &&& resized(before.grids()[grid], after.grids()[grid], width as usize, height as usize)
            &&& after.grids()[grid].is_visible() == before.grids()[grid].is_visible()
        } else {
            &&& after == AppModel { vgrids: after.vgrids, relationships: after.relationships, focused: grid, ..before }
            &&& grid_added(before, after, grid, 0, width as usize, height as usize)
        },
        RedrawEvent::WindowPosition { grid, window, width, height, .. } => if before.grids().contains_key(grid) {
            &&& after == AppModel { vgrids: after.vgrids, relationships: after.relationships, focused: grid, ..before }
            &&& grid_changed(before, after, grid)
            &&& grid_updated(before.grids()[grid], after.grids()[grid], Event::Resize { width: width as usize, height: height as usize })
            &&& after.relationships@ == before.relationships@.insert(grid, window)
        } else {
            &&& after == AppModel { vgrids: after.vgrids, relationships: after.relationships, focused: grid, ..before }
            &&& grid_added(before, after, grid, window, width as usize, height as usize)
        },
        RedrawEvent::WindowViewport { grid, window, size } => match window {
            None => after == before,
            Some(w) => if before.grids().contains_key(grid) {
                &&& after == AppModel { vgrids: after.vgrids, relationships: after.relationships, ..before }
                &&& grid_changed(before, after, grid)
                &&& grid_updated(before.grids()[grid], after.grids()[grid], Event::Show)
                &&& after.relationships@ == before.relationships@.insert(grid, w)
            } else {
                match size {
                    None => after == before,
                    Some((width, height)) => {
                        &&& after == AppModel { vgrids: after.vgrids, relationships: after.relationships, ..before }
                        &&& grid_added(before, after, grid, w, width as usize, height as usize)
                    },
                }
            },
        },
        RedrawEvent::WindowFloatPosition { grid, focusable, .. } => {
            &&& after == AppModel { vgrids: after.vgrids, ..before }
            &&& grid_changed(before, after, grid)
            &&& grid_updated(before.grids()[grid], after.grids()[grid], Event::Float { focusable })
        },
        RedrawEvent::WindowHide { grid } => {
            &&& after == AppModel { vgrids: after.vgrids, focused: focus_after_hide(before.focused, grid), ..before }
            &&& grid_changed(before, after, grid)
            &&& grid_updated(before.grids()[grid], after.grids()[grid], Event::WindowHide)
        },
        RedrawEvent::WindowClose { grid } => {
            &&& after == AppModel {
                vgrids: after.vgrids,
                relationships: after.relationships,
                focused: focus_after_hide(before.focused, grid),
                ..before
            }
            &&& after.grids() == before.grids().remove(grid)
            &&& after.relationships@ == before.relationships@.remove(grid)
        },
        RedrawEvent::Destroy { grid } => {
            &&& after == AppModel {
                vgrids: after.vgrids,
                relationships: after.relationships,
                focused: focus_after_hide(before.focused, grid),
                ..before
            }
            &&& after.grids() == before.grids().remove(grid)
            &&& after.relationships@ == before.relationships@.remove(grid)
        },
        RedrawEvent::Flush => {
            &&& after == AppModel { vgrids: after.vgrids, flush: true, ..before }
            &&& after.grids() == before.grids()
            &&& after.vgrids.flushes() == before.vgrids.flushes().union_prefer_right(before.vgrids.staged())
            &&& after.vgrids.staged().is_empty()
        },
        RedrawEvent::CursorGoto { grid, row, column } => {
            &&& after == AppModel { vgrids: after.vgrids, cursor: after.cursor, cursor_at: Some(grid), ..before }
            &&& after.grids() == before.grids()
            &&& if before.grids().contains_key(grid) {
                after.cursor == Cursor { grid, col: column, row, ..before.cursor }
            } else {
                after.cursor == before.cursor
            }
        },
        RedrawEvent::ModeInfoSet { cursor_modes } => {
            &&& after == AppModel { vgrids: after.vgrids, cursor: after.cursor, cursor_modes, ..before }
            &&& after.grids() == before.grids()
            &&& after.cursor == with_mode(before.cursor, cursor_modes@[before.cursor_mode as int])
        },
        RedrawEvent::ModeChange { mode, mode_index } => {
            &&& after == AppModel {
                vgrids: after.vgrids,
                cursor: after.cursor,
                mode,
                cursor_mode: mode_index as usize,
                ..before
            }
            &&& after.grids() == before.grids()
            &&& after.cursor == with_mode(before.cursor, before.cursor_modes@[mode_index as int])
        },
        RedrawEvent::MouseOn => after == AppModel { mouse_on: true, ..before },
        RedrawEvent::MouseOff => after == AppModel { mouse_on: false, ..before },
        _ => after == before,
    }
}

} // verus!
