use vstd::prelude::*;
use vstd::string::*;

use crate::highlights::HighlightDefinitions;
use crate::keys::{char_to_string, str_eq};
use crate::style::color_or;
use crate::text::{CellView, TextCell};

verus! {

#[derive(Copy, Clone, Debug, PartialEq, Eq)]
pub enum CursorShape {
    Block,
    Horizontal,
    Vertical,
}

pub open spec fn shape_of_name(name: Seq<char>) -> Option<CursorShape> {
    if name == "block"@ {
        Some(CursorShape::Block)
    } else if name == "horizontal"@ {
        Some(CursorShape::Horizontal)
    } else if name == "vertical"@ {
        Some(CursorShape::Vertical)
    } else {
        None
    }
}

impl CursorShape {
    /// The shape Neovim names in `mode_info_set`.
    pub fn from_type_name(name: &str) -> (res: Option<CursorShape>)
        ensures
            res == shape_of_name(name@),
    {
        if str_eq(name, "block") {
            Some(CursorShape::Block)
        } else if str_eq(name, "horizontal") {
            Some(CursorShape::Horizontal)
        } else if str_eq(name, "vertical") {
            Some(CursorShape::Vertical)
        } else {
            None
        }
    }
}

/// One entry of Neovim's `mode_info_set`.  `cell_percentage` is the share of
/// the cell the cursor covers, in percent.
#[derive(Copy, Clone, Debug, Default, PartialEq, Eq)]
pub struct CursorMode {
    pub shape: Option<CursorShape>,
    pub style: Option<u64>,
    pub cell_percentage: Option<u64>,
    pub blinkwait: Option<u64>,
    pub blinkon: Option<u64>,
    pub blinkoff: Option<u64>,
}

/// The grid cursor: where it is, how it looks and blinks, and the cell under it.
pub struct Cursor {
    pub col: u64,
    pub row: u64,
    pub grid: u64,
    pub shape: CursorShape,
    pub cell_percentage: Option<u64>,
    pub blinkwait: Option<u64>,
    pub blinkon: Option<u64>,
    pub blinkoff: Option<u64>,
    pub style: Option<u64>,
    pub enabled: bool,
    /// How many cells the character under the cursor takes (0, 1 or 2).
    pub width: u8,
    pub cell: TextCell,
}

/// Messages the cursor component handles.
pub enum CursorMessage {
    Goto(u64, u64, u64, TextCell),
    SetMode(CursorMode),
    SetCell(TextCell, bool),
}

/// The cursor `c` once it takes on mode `m`: the shape only when the mode
/// names one, the style, cell share and blink times as the mode has them.
pub open spec fn with_mode(c: Cursor, m: CursorMode) -> Cursor {
    Cursor {
        shape: match m.shape {
            Some(s) => s,
            None => c.shape,
        },
        style: m.style,
        cell_percentage: m.cell_percentage,
        blinkwait: m.blinkwait,
        blinkon: m.blinkon,
        blinkoff: m.blinkoff,
        ..c
    }
}

/// The timing of a blinking cursor: the delay before it starts, the length of
/// one on-off period, and the point of the period, in percent, where it turns off.
#[derive(Copy, Clone, Debug, PartialEq, Eq)]
pub struct BlinkTiming {
    pub delay: u64,
    pub duration: u64,
    pub off_at_percent: u64,
}

/// How many cells a character takes: two for a double-width cell, none for
/// an empty cell or a zero-width character, one otherwise.
pub open spec fn cell_width(cell: CellView, zero_width: bool) -> u8 {
    if cell.text.len() == 0 {
        0
    } else if cell.double_width {
        2
    } else if zero_width {
        0
    } else {
        1
    }
}

pub open spec fn blink_timing_of(blinkon: Option<u64>, blinkoff: Option<u64>, blinkwait: Option<u64>) -> Option<BlinkTiming> {
    match (blinkon, blinkoff, blinkwait) {
        (Some(on), Some(off), Some(wait)) => if on > 0 && off > 0 && wait > 0 {
            Some(BlinkTiming {
                delay: wait,
                duration: (on + off) as u64,
                off_at_percent: ((on * 100) / (on + off)) as u64,
            })
        } else {
            None
        },
        _ => None,
    }
}

/// Decimal digits of `n`.
pub open spec fn decimal(n: nat) -> Seq<char>
    decreases n,
{
    if n < 10 {
        seq![(('0' as u8) + n) as char]
    } else {
        decimal(n / 10) + seq![(('0' as u8) + (n % 10)) as char]
    }
}

/// The decimal digits of `n`, as `u64::to_string` writes them.
fn u64_to_string(n: u64) -> (res: String)
    ensures
        res@ == decimal(n as nat),
    decreases n,
{
    let d = (48u8 + (n % 10) as u8) as char;
    assert(d == (('0' as u8) + (n % 10) as nat) as char);
    if n < 10 {
        char_to_string(d)
    } else {
        let mut s = u64_to_string(n / 10);
        let ghost front = s@;
        s.append(char_to_string(d).as_str());
        assert(s@ =~= front + seq![d]);
        s
    }
}

/// The CSS animation that makes the cursor widget blink with `timing`.
pub open spec fn blink_css(timing: BlinkTiming) -> Seq<char> {
    ".blink {\n  animation-name: blinking;\n  animation-delay: "@ + decimal(timing.delay as nat)
        + "ms;\n  animation-duration: "@ + decimal(timing.duration as nat)
        + "ms;\n  animation-iteration-count: infinite;\n  animation-timing-function: steps(2, start);\n}\n\n@keyframes blinking {\n  "@
        + decimal(timing.off_at_percent as nat) + "% { opacity: 0; }\n}\n"@
}

impl Cursor {
    pub fn new() -> (res: Cursor)
        ensures
            res.col == 0 && res.row == 0 && res.grid == 0,
            res.shape == CursorShape::Block,
            res.style is None && res.cell_percentage is None,
            res.blinkwait is None && res.blinkon is None && res.blinkoff is None,
            res.enabled,
            res.width == 1,
            res.cell@ == crate::text::blank_cell(0, 0),
    {
        Cursor {
            col: 0,
            row: 0,
            grid: 0,
            shape: CursorShape::Block,
            cell_percentage: None,
            blinkwait: None,
            blinkon: None,
            blinkoff: None,
            style: None,
            enabled: true,
            width: 1,
            cell: TextCell::default(),
        }
    }

    /// Whether blinking can be timed without the durations overflowing;
    /// only a cursor whose three times are all positive is timed at all.
    pub open spec fn blink_fits(&self) -> bool {
        match (self.blinkon, self.blinkoff, self.blinkwait) {
            (Some(on), Some(off), Some(wait)) => on > 0 && off > 0 && wait > 0 ==> on * 100 <= u64::MAX && on
                + off <= u64::MAX,
            _ => true,
        }
    }

    /// The blink timing, when the cursor blinks at all (every time is positive).
    pub fn blink_timing(&self) -> (res: Option<BlinkTiming>)
        requires
            self.blink_fits(),
        ensures
            res == blink_timing_of(self.blinkon, self.blinkoff, self.blinkwait),
    {
        let blinkon = match self.blinkon {
            Some(on) if on > 0 => on,
            _ => return None,
        };
        let blinkoff = match self.blinkoff {
            Some(off) if off > 0 => off,
            _ => return None,
        };
        let blinkwait = match self.blinkwait {
            Some(wait) if wait > 0 => wait,
            _ => return None,
        };
        let duration = blinkon + blinkoff;
        Some(BlinkTiming { delay: blinkwait, duration, off_at_percent: blinkon * 100 / duration })
    }

    /// The CSS that makes the cursor blink, when it blinks.
    pub fn maybe_blinking(&self) -> (res: Option<String>)
        requires
            self.blink_fits(),
        ensures
            match blink_timing_of(self.blinkon, self.blinkoff, self.blinkwait) {
                Some(t) => res matches Some(css) && css@ == blink_css(t),
                None => res is None,
            },
    {
        let timing = match self.blink_timing() {
            Some(t) => t,
            None => return None,
        };
        let mut css = String::from_str(".blink {\n  animation-name: blinking;\n  animation-delay: ");
        css.append(u64_to_string(timing.delay).as_str());
        css.append("ms;\n  animation-duration: ");
        css.append(u64_to_string(timing.duration).as_str());
        css.append(
            "ms;\n  animation-iteration-count: infinite;\n  animation-timing-function: steps(2, start);\n}\n\n@keyframes blinking {\n  ",
        );
        css.append(u64_to_string(timing.off_at_percent).as_str());
        css.append("% { opacity: 0; }\n}\n");
        Some(css)
    }

    pub fn blinkon(&self) -> (res: Option<u64>)
        ensures
            res == self.blinkon,
    {
        self.blinkon
    }

    pub fn blinkoff(&self) -> (res: Option<u64>)
        ensures
            res == self.blinkoff,
    {
        self.blinkoff
    }

    pub fn blinkwait(&self) -> (res: Option<u64>)
        ensures
            res == self.blinkwait,
    {
        self.blinkwait
    }

    pub fn cell(&self) -> (res: &TextCell)
        ensures
            res == &self.cell,
    {
        &self.cell
    }

    /// Puts `cell` under the cursor; `zero_width` tells whether its first
    /// character takes no room.
    pub fn set_cell(&mut self, cell: TextCell, zero_width: bool)
        ensures
            *final(self) == (Cursor { cell, width: cell_width(cell@, zero_width), ..*old(self) }),
    {
        let width: u8 = if cell.text.as_str().unicode_len() == 0 {
            0
        } else if cell.double_width {
            2
        } else if zero_width {
            0
        } else {
            1
        };
        self.cell = cell;
        self.width = width;
    }

    /// Takes on a mode: the shape only when the mode names one, everything
    /// else as the mode has it.
    pub fn set_mode(&mut self, cursor_mode: CursorMode)
        ensures
            *final(self) == with_mode(*old(self), cursor_mode),
    {
        if let Some(shape) = cursor_mode.shape {
            self.shape = shape;
        }
        self.style = cursor_mode.style;
        self.cell_percentage = cursor_mode.cell_percentage;
        self.blinkwait = cursor_mode.blinkwait;
        self.blinkon = cursor_mode.blinkon;
        self.blinkoff = cursor_mode.blinkoff;
    }

    pub fn set_grid(&mut self, grid: u64)
        ensures
            *final(self) == (Cursor { grid, ..*old(self) }),
    {
        self.grid = grid;
    }

    pub fn set_coord(&mut self, col: u64, row: u64)
        ensures
            *final(self) == (Cursor { col, row, ..*old(self) }),
    {
        self.col = col;
        self.row = row;
    }

    /// Handles a message of the cursor component.
    pub fn update(&mut self, message: CursorMessage)
        ensures
            match message {
                CursorMessage::Goto(grid, col, row, cell) => *final(self) == (Cursor { grid, col, row, cell, ..*old(self) }),
                CursorMessage::SetMode(mode) => *final(self) == with_mode(*old(self), mode),
                CursorMessage::SetCell(cell, zero_width) => *final(self) == (Cursor {
                    cell,
                    width: cell_width(cell@, zero_width),
                    ..*old(self)
                }),
            },
    {
        match message {
            CursorMessage::Goto(grid, col, row, cell) => {
                self.cell = cell;
                self.grid = grid;
                self.col = col;
                self.row = row;
            },
            CursorMessage::SetMode(mode) => {
                self.set_mode(mode);
            },
            CursorMessage::SetCell(cell, zero_width) => {
                self.set_cell(cell, zero_width);
            },
        }
    }

    /// The style the cursor is drawn with, when it has one besides the default.
    pub open spec fn own_style(&self) -> Option<u64> {
        match self.style {
            Some(s) => if s != 0 {
                Some(s)
            } else {
                None
            },
            None => None,
        }
    }

    /// Whether the cursor colors can be resolved against `hldefs`.
    pub open spec fn colors_resolvable<C: Copy>(&self, hldefs: HighlightDefinitions<C>) -> bool {
        &&& hldefs.default_colors() is Some
        &&& match self.own_style() {
            Some(s) => hldefs.styles().contains_key(s),
            None => true,
        }
    }

    /// The color of the character under the cursor: the foreground of the
    /// cursor's style, else the default background.
    pub fn foreground<C: Copy>(&self, hldefs: &HighlightDefinitions<C>) -> (res: C)
        requires
            self.colors_resolvable(*hldefs),
            self.own_style() matches Some(s) ==> hldefs.styles()[s].colors.foreground is Some
                || hldefs.default_colors().unwrap().background is Some,
            self.own_style() is None ==> hldefs.default_colors().unwrap().background is Some,
        ensures
            res == match self.own_style() {
                Some(s) => color_or(
                    hldefs.styles()[s].colors.foreground,
                    hldefs.default_colors().unwrap().background,
                ),
                None => hldefs.default_colors().unwrap().background.unwrap(),
            },
    {
        let default_colors = hldefs.defaults().unwrap();
        match self.style {
            Some(style_id) if style_id != 0 => {
                let style = hldefs.get(style_id).unwrap();
                match style.colors.foreground {
                    Some(c) => c,
                    None => default_colors.background.unwrap(),
                }
            },
            _ => default_colors.background.unwrap(),
        }
    }

    /// The color of the cursor block and its blend (0 opaque .. 100
    /// transparent): the background of the cursor's style with that style's
    /// blend, else the default foreground with the default group's blend (100
    /// when the default group is missing).
    pub fn background<C: Copy>(&self, hldefs: &HighlightDefinitions<C>) -> (res: (C, u8))
        requires
            self.colors_resolvable(*hldefs),
            self.own_style() matches Some(s) ==> hldefs.styles()[s].colors.background is Some
                || hldefs.default_colors().unwrap().foreground is Some,
            self.own_style() is None ==> hldefs.default_colors().unwrap().foreground is Some,
        ensures
            res == match self.own_style() {
                Some(s) => (
                    color_or(
                        hldefs.styles()[s].colors.background,
                        hldefs.default_colors().unwrap().foreground,
                    ),
                    hldefs.styles()[s].blend,
                ),
                None => (
                    hldefs.default_colors().unwrap().foreground.unwrap(),
                    if hldefs.styles().contains_key(0) {
                        hldefs.styles()[0].blend
                    } else {
                        100u8
                    },
                ),
            },
    {
        let default_colors = hldefs.defaults().unwrap();
        match self.style {
            Some(style_id) if style_id != 0 => {
                let style = hldefs.get(style_id).unwrap();
                let color = match style.colors.background {
                    Some(c) => c,
                    None => default_colors.foreground.unwrap(),
                };
                (color, style.blend)
            },
            _ => {
                let blend = match hldefs.get(0) {
                    Some(s) => s.blend,
                    None => 100,
                };
                (default_colors.foreground.unwrap(), blend)
            },
        }
    }
}

} // verus!
