use vstd::prelude::*;
use vstd::string::*;

use crate::keys::{char_to_string, Modifiers, ToInput};

verus! {

#[derive(Copy, Clone, Debug, PartialEq, Eq)]
pub enum MouseAction {
    Drag,
    Press,
    Release,
    /// Wheel directions.
    Up,
    Down,
    Left,
    Right,
}

pub open spec fn action_name(a: MouseAction) -> Seq<char> {
    match a {
        MouseAction::Drag => "drag"@,
        MouseAction::Press => "press"@,
        MouseAction::Release => "release"@,
        MouseAction::Up => "up"@,
        MouseAction::Down => "down"@,
        MouseAction::Left => "left"@,
        MouseAction::Right => "right"@,
    }
}

impl MouseAction {
    /// The name Neovim's `nvim_input_mouse` knows the action by.
    pub fn as_str(&self) -> (res: &'static str)
        ensures
            res@ == action_name(*self),
    {
        match self {
            MouseAction::Drag => "drag",
            MouseAction::Press => "press",
            MouseAction::Release => "release",
            MouseAction::Up => "up",
            MouseAction::Down => "down",
            MouseAction::Left => "left",
            MouseAction::Right => "right",
        }
    }
}

#[derive(Copy, Clone, Debug, PartialEq, Eq)]
pub enum MouseButton {
    Left,
    Right,
    Middle,
}

pub open spec fn button_name(b: MouseButton) -> Seq<char> {
    match b {
        MouseButton::Left => "left"@,
        MouseButton::Right => "right"@,
        MouseButton::Middle => "middle"@,
    }
}

impl MouseButton {
    /// The name Neovim's `nvim_input_mouse` knows the button by.
    pub fn as_str(&self) -> (res: &'static str)
        ensures
            res@ == button_name(*self),
    {
        match self {
            MouseButton::Left => "left",
            MouseButton::Right => "right",
            MouseButton::Middle => "middle",
        }
    }

    /// The button GTK numbers `n` (1 left, 2 middle, 3 right).
    pub fn from_gtk_button(n: u32) -> (res: Option<MouseButton>)
        ensures
            res == (if n == 1 {
                Some(MouseButton::Left)
            } else if n == 2 {
                Some(MouseButton::Middle)
            } else if n == 3 {
                Some(MouseButton::Right)
            } else {
                None
            }),
    {
        if n == 1 {
            Some(MouseButton::Left)
        } else if n == 2 {
            Some(MouseButton::Middle)
        } else if n == 3 {
            Some(MouseButton::Right)
        } else {
            None
        }
    }
}

/// A cell of a grid, as mouse events address it.
#[derive(Copy, Clone, Debug, PartialEq, Eq)]
pub struct CellPos {
    pub col: u32,
    pub row: u32,
}

/// Commands that must reach Neovim in order: keyboard and mouse input.
#[derive(Clone, Debug, PartialEq, Eq)]
pub enum SerialCommand {
    Keyboard(String),
    MouseButton { action: MouseAction, button: MouseButton, modifier: Modifiers, grid_id: u64, position: CellPos },
    Scroll { direction: String, grid_id: u64, position: CellPos, modifier: Modifiers },
    Drag { button: MouseButton, grid_id: u64, position: CellPos, modifier: Modifiers },
}

/// `s` with each `<` written `<lt>`, so that Neovim takes it as typed text
/// and not as the start of a key name.
pub open spec fn escaped_input(s: Seq<char>) -> Seq<char>
    decreases s.len(),
{
    if s.len() == 0 {
        Seq::empty()
    } else {
        escaped_input(s.drop_last()) + if s.last() == '<' {
            seq!['<', 'l', 't', '>']
        } else {
            seq![s.last()]
        }
    }
}

/// The keyboard command for text the input method commits: the text with
/// each `<` escaped.
pub fn committed_text(text: &str) -> (res: SerialCommand)
    ensures
        res matches SerialCommand::Keyboard(k) && k@ == escaped_input(text@),
{
    let n = text.unicode_len();
    let mut out = String::new();
    let mut i: usize = 0;
    proof {
        assert(text@.take(0) =~= Seq::<char>::empty());
    }
    while i < n
        invariant
            n == text@.len(),
            i <= n,
            out@ == escaped_input(text@.take(i as int)),
        decreases n - i,
    {
        let c = text.get_char(i);
        proof {
            assert(text@.take(i + 1).drop_last() =~= text@.take(i as int));
            assert(text@.take(i + 1).last() == c);
        }
        if c == '<' {
            let lt = "<lt>";
            proof {
                reveal_strlit("<lt>");
            }
            out.append(lt);
        } else {
            out.append(char_to_string(c).as_str());
        }
        i = i + 1;
    }
    proof {
        assert(text@.take(n as int) =~= text@);
    }
    SerialCommand::Keyboard(out)
}

/// Commands that may run concurrently.
#[derive(Clone, Debug, PartialEq, Eq)]
pub enum ParallelCommand {
    Quit,
    Resize { width: u64, height: u64 },
    FileDrop(String),
    FocusLost,
    FocusGained,
    DisplayAvailableFonts(Vec<String>),
}

#[derive(Clone, Debug, PartialEq, Eq)]
pub enum UiCommand {
    Serial(SerialCommand),
    Parallel(ParallelCommand),
}

impl UiCommand {
    pub fn from_serial(serial: SerialCommand) -> (res: UiCommand)
        ensures
            res == UiCommand::Serial(serial),
    {
        UiCommand::Serial(serial)
    }

    pub fn from_parallel(parallel: ParallelCommand) -> (res: UiCommand)
        ensures
            res == UiCommand::Parallel(parallel),
    {
        UiCommand::Parallel(parallel)
    }
}

/// A call of the Neovim API, with its arguments.
#[derive(Clone, Debug, PartialEq, Eq)]
pub enum NvimCall {
    /// `nvim_input`.
    Input(String),
    /// `nvim_input_mouse(button, action, modifier, grid, row, col)`.
    InputMouse { button: String, action: String, modifier: String, grid: i64, row: i64, col: i64 },
    /// `nvim_command`.
    Command(String),
    /// `nvim_ui_try_resize(width, height)`.
    TryResize { width: i64, height: i64 },
    /// `nvim_buf_set_lines(0, 0, -1, false, lines)`: the current buffer's text.
    SetBufLines(Vec<String>),
}

/// The lines that head the list of available fonts.
pub open spec fn font_help_header() -> Seq<Seq<char>> {
    seq![
        "What follows are the font names available for guifont. You can try any of them with <CR> in normal mode."@,
        ""@,
        "To switch to one of them, use one of them, type:"@,
        ""@,
        "    :set guifont=<font name>:h<font size>"@,
        ""@,
        "where <font name> is one of the following with spaces escaped"@,
        "and <font size> is the desired font size. As an example:"@,
        ""@,
        "    :set guifont=Cascadia\\ Code\\ PL:h12"@,
        ""@,
        "You may specify multiple fonts for fallback purposes separated by commas like so:"@,
        ""@,
        "    :set guifont=Cascadia\\ Code\\ PL,Delugia\\ Nerd\\ Font:h12"@,
        ""@,
        "Make sure to add the above command when you're happy with it to your .vimrc file or similar config to make it permanent."@,
        "------------------------------"@,
        "Available Fonts on this System"@,
        "------------------------------"@,
    ]
}

pub open spec fn string_views(v: Seq<String>) -> Seq<Seq<char>> {
    v.map_values(|s: String| s@)
}

pub open spec fn max_u64(a: u64, b: u64) -> u64 {
    if a >= b {
        a
    } else {
        b
    }
}

pub open spec fn focus_lost_command() -> Seq<char> {
    "if exists('#FocusLost') | doautocmd <nomodeline> FocusLost | endif"@
}

pub open spec fn focus_gained_command() -> Seq<char> {
    "if exists('#FocusGained') | doautocmd <nomodeline> FocusGained | endif"@
}

/// Whether `call` is the command `text`.
pub open spec fn is_command(call: NvimCall, text: Seq<char>) -> bool {
    call matches NvimCall::Command(c) && c@ == text
}

fn command(text: &str) -> (res: NvimCall)
    ensures
        is_command(res, text@),
{
    NvimCall::Command(String::from_str(text))
}

/// `call` is the Neovim call that carries out `command`.
pub open spec fn serial_plan(command: SerialCommand, res: NvimCall) -> bool {
    match command {
        SerialCommand::Keyboard(s) => res matches NvimCall::Input(i) && i@ == s@,
        SerialCommand::MouseButton { action, button, modifier, grid_id, position } => res
            matches NvimCall::InputMouse { button: b, action: a, modifier: m, grid, row, col }
            && b@ == button_name(button) && a@ == action_name(action) && m@ == Seq::<char>::empty()
            && grid == grid_id as i64 && row == position.row as i64 && col == position.col as i64,
        SerialCommand::Scroll { direction, grid_id, position, modifier } => res
            matches NvimCall::InputMouse { button: b, action: a, modifier: m, grid, row, col }
            && b@ == "wheel"@ && a@ == direction@ && m@ == modifier.prefix()
            && grid == grid_id as i64 && row == position.row as i64 && col == position.col as i64,
        SerialCommand::Drag { button, grid_id, position, modifier } => res
            matches NvimCall::InputMouse { button: b, action: a, modifier: m, grid, row, col }
            && b@ == button_name(button) && a@ == "drag"@ && m@ == modifier.prefix()
            && grid == grid_id as i64 && row == position.row as i64 && col == position.col as i64,
    }
}

impl SerialCommand {
    /// The Neovim call that carries out the command.
    pub fn plan(&self) -> (res: NvimCall)
        ensures
            serial_plan(*self, res),
    {
        match self {
            SerialCommand::Keyboard(input) => NvimCall::Input(input.clone()),
            SerialCommand::MouseButton { action, button, modifier, grid_id, position } => {
                NvimCall::InputMouse {
                    button: String::from_str(button.as_str()),
                    action: String::from_str(action.as_str()),
                    modifier: String::new(),
                    grid: *grid_id as i64,
                    row: position.row as i64,
                    col: position.col as i64,
                }
            },
            SerialCommand::Scroll { direction, grid_id, position, modifier } => {
                let m = modifier.to_input().unwrap();
                NvimCall::InputMouse {
                    button: String::from_str("wheel"),
                    action: direction.clone(),
                    modifier: m,
                    grid: *grid_id as i64,
                    row: position.row as i64,
                    col: position.col as i64,
                }
            },
            SerialCommand::Drag { button, grid_id, position, modifier } => {
                let m = modifier.to_input().unwrap();
                NvimCall::InputMouse {
                    button: String::from_str(button.as_str()),
                    action: String::from_str("drag"),
                    modifier: m,
                    grid: *grid_id as i64,
                    row: position.row as i64,
                    col: position.col as i64,
                }
            },
        }
    }
}

/// `res` are the Neovim calls that carry out `command`, in order.
pub open spec fn parallel_plan(command: ParallelCommand, res: Seq<NvimCall>) -> bool {
    match command {
        ParallelCommand::Quit => res.len() == 1 && is_command(res[0], "qa!"@),
        ParallelCommand::Resize { width, height } => res.len() == 1 && res[0]
            == NvimCall::TryResize {
            width: max_u64(width, 10) as i64,
            height: max_u64(height, 3) as i64,
        },
        ParallelCommand::FocusLost => res.len() == 1 && is_command(res[0], focus_lost_command()),
        ParallelCommand::FocusGained => res.len() == 1 && is_command(res[0], focus_gained_command()),
        ParallelCommand::FileDrop(path) => res.len() == 1 && is_command(res[0], "e "@ + path@),
        ParallelCommand::DisplayAvailableFonts(fonts) => {
            &&& res.len() == 9
            &&& is_command(res[0], "split"@)
            &&& is_command(res[1], "noswapfile hide enew"@)
            &&& is_command(res[2], "setlocal buftype=nofile"@)
            &&& is_command(res[3], "setlocal bufhidden=hide"@)
            &&& is_command(res[4], "\"setlocal nobuflisted"@)
            &&& is_command(res[5], "\"lcd ~"@)
            &&& is_command(res[6], "file scratch"@)
            &&& res[7] matches NvimCall::SetBufLines(lines)
                && string_views(lines@) == font_help_header() + string_views(fonts@)
            &&& is_command(res[8], "nnoremap <buffer> <CR> <cmd>lua vim.opt.guifont=vim.fn.getline('.')<CR>"@)
        },
    }
}

impl ParallelCommand {
    pub fn plan(&self) -> (res: Vec<NvimCall>)
        ensures
            parallel_plan(*self, res@),
    {
        let mut calls: Vec<NvimCall> = Vec::new();
        match self {
            ParallelCommand::Quit => {
                calls.push(command("qa!"));
            },
            ParallelCommand::Resize { width, height } => {
                let w: u64 = if *width >= 10 { *width } else { 10 };
                let h: u64 = if *height >= 3 { *height } else { 3 };
                calls.push(NvimCall::TryResize { width: w as i64, height: h as i64 });
            },
            ParallelCommand::FocusLost => {
                calls.push(command("if exists('#FocusLost') | doautocmd <nomodeline> FocusLost | endif"));
            },
            ParallelCommand::FocusGained => {
                calls.push(command("if exists('#FocusGained') | doautocmd <nomodeline> FocusGained | endif"));
            },
            ParallelCommand::FileDrop(path) => {
                let mut c = String::from_str("e ");
                c.append(path.as_str());
                calls.push(NvimCall::Command(c));
            },
            ParallelCommand::DisplayAvailableFonts(fonts) => {
                let content = font_list(fonts);
                calls.push(command("split"));
                calls.push(command("noswapfile hide enew"));
                calls.push(command("setlocal buftype=nofile"));
                calls.push(command("setlocal bufhidden=hide"));
                calls.push(command("\"setlocal nobuflisted"));
                calls.push(command("\"lcd ~"));
                calls.push(command("file scratch"));
                calls.push(NvimCall::SetBufLines(content));
                calls.push(command("nnoremap <buffer> <CR> <cmd>lua vim.opt.guifont=vim.fn.getline('.')<CR>"));
            },
        }
        calls
    }
}

/// The text of the scratch buffer listing the fonts: a help header, then
/// one font per line.
pub fn font_list(fonts: &Vec<String>) -> (res: Vec<String>)
    ensures
        string_views(res@) == font_help_header() + string_views(fonts@),
{
    let mut content: Vec<String> = Vec::new();
        content.push(String::from_str("What follows are the font names available for guifont. You can try any of them with <CR> in normal mode."));
        content.push(String::from_str(""));
        content.push(String::from_str("To switch to one of them, use one of them, type:"));
        content.push(String::from_str(""));
        content.push(String::from_str("    :set guifont=<font name>:h<font size>"));
        content.push(String::from_str(""));
        content.push(String::from_str("where <font name> is one of the following with spaces escaped"));
        content.push(String::from_str("and <font size> is the desired font size. As an example:"));
        content.push(String::from_str(""));
        content.push(String::from_str("    :set guifont=Cascadia\\ Code\\ PL:h12"));
        content.push(String::from_str(""));
        content.push(String::from_str("You may specify multiple fonts for fallback purposes separated by commas like so:"));
        content.push(String::from_str(""));
        content.push(String::from_str("    :set guifont=Cascadia\\ Code\\ PL,Delugia\\ Nerd\\ Font:h12"));
        content.push(String::from_str(""));
        content.push(String::from_str("Make sure to add the above command when you're happy with it to your .vimrc file or similar config to make it permanent."));
        content.push(String::from_str("------------------------------"));
        content.push(String::from_str("Available Fonts on this System"));
        content.push(String::from_str("------------------------------"));
    proof {
        assert(string_views(content@) =~= font_help_header());
    }
    let mut i: usize = 0;
    while i < fonts.len()
        invariant
            i <= fonts@.len(),
            string_views(content@) =~= font_help_header() + string_views(fonts@.take(i as int)),
        decreases fonts@.len() - i,
    {
        let ghost before = content@;
        content.push(fonts[i].clone());
        proof {
            assert(string_views(content@) =~= string_views(before).push(fonts@[i as int]@));
            assert(fonts@.take(i + 1) =~= fonts@.take(i as int).push(fonts@[i as int]));
            assert(string_views(fonts@.take(i + 1)) =~= string_views(fonts@.take(i as int)).push(fonts@[i as int]@));
        }
        i = i + 1;
    }
    proof {
        assert(fonts@.take(fonts@.len() as int) =~= fonts@);
    }
    content
}

/// What the command executor does next.
#[derive(Clone, Debug, PartialEq, Eq)]
pub enum CommandStep {
    /// The application is quitting: the executor stops.
    Stop,
    /// The channel of commands has closed: the executor asks to quit.
    Quit,
    /// Make this call, after those of earlier serial commands.
    RunSerial(NvimCall),
    /// Make these calls, in order, alongside everything else.
    RunParallel(Vec<NvimCall>),
}

/// The next step of the command executor: nothing more once quitting;
/// asking to quit when no command can come any more; else carrying out the
/// command, keyboard and mouse input in order and the rest concurrently.
pub fn command_step(running: bool, command: Option<UiCommand>) -> (res: CommandStep)
    ensures
        !running ==> res == CommandStep::Stop,
        running ==> match command {
            None => res == CommandStep::Quit,
            Some(UiCommand::Serial(s)) => res matches CommandStep::RunSerial(call) && serial_plan(s, call),
            Some(UiCommand::Parallel(p)) => res matches CommandStep::RunParallel(calls) && parallel_plan(p, calls@),
        },
{
    if !running {
        return CommandStep::Stop;
    }
    match command {
        None => CommandStep::Quit,
        Some(UiCommand::Serial(s)) => CommandStep::RunSerial(s.plan()),
        Some(UiCommand::Parallel(p)) => CommandStep::RunParallel(p.plan()),
    }
}

/// A mouse button held down since it was pressed at a cell.
#[derive(Copy, Clone, Debug, PartialEq, Eq)]
pub struct Dragging {
    pub btn: MouseButton,
    pub pos: CellPos,
}

/// What the mouse did over a grid, at a cell, with the modifiers held; GTK
/// numbers the buttons.
#[derive(Copy, Clone, Debug, PartialEq, Eq)]
pub enum MouseEvent {
    Press { button: u32, position: CellPos, modifier: Modifiers },
    Release { button: u32, position: CellPos, modifier: Modifiers },
    Motion { position: CellPos, modifier: Modifiers },
}

pub open spec fn gtk_button(n: u32) -> Option<MouseButton> {
    if n == 1 {
        Some(MouseButton::Left)
    } else if n == 2 {
        Some(MouseButton::Middle)
    } else if n == 3 {
        Some(MouseButton::Right)
    } else {
        None
    }
}

/// The next dragging state and the command for Neovim, if any, after a mouse
/// event over grid `grid`: a press of a known button starts dragging and is
/// sent; a release ends dragging, and is sent when the button is known; a
/// motion while dragging to another cell is sent as a drag and moves the
/// dragging on.
pub open spec fn mouse_spec(dragging: Option<Dragging>, event: MouseEvent, grid: u64) -> (Option<Dragging>, Option<SerialCommand>) {
    match event {
        MouseEvent::Press { button, position, modifier } => match gtk_button(button) {
            Some(btn) => (
                Some(Dragging { btn, pos: position }),
                Some(SerialCommand::MouseButton { action: MouseAction::Press, button: btn, modifier, grid_id: grid, position }),
            ),
            None => (dragging, None),
        },
        MouseEvent::Release { button, position, modifier } => match gtk_button(button) {
            Some(btn) => (
                None,
                Some(SerialCommand::MouseButton { action: MouseAction::Release, button: btn, modifier, grid_id: grid, position }),
            ),
            None => (None, None),
        },
        MouseEvent::Motion { position, modifier } => match dragging {
            Some(d) => if d.pos != position {
                (
                    Some(Dragging { btn: d.btn, pos: position }),
                    Some(SerialCommand::Drag { button: d.btn, grid_id: grid, position, modifier }),
                )
            } else {
                (dragging, None)
            },
            None => (None, None),
        },
    }
}

/// Decides what a mouse event over grid `grid` does.
pub fn mouse_step(dragging: Option<Dragging>, event: MouseEvent, grid: u64) -> (res: (Option<Dragging>, Option<SerialCommand>))
    ensures
        res == mouse_spec(dragging, event, grid),
{
    match event {
        MouseEvent::Press { button, position, modifier } => match MouseButton::from_gtk_button(button) {
            Some(btn) => (
                Some(Dragging { btn, pos: position }),
                Some(SerialCommand::MouseButton { action: MouseAction::Press, button: btn, modifier, grid_id: grid, position }),
            ),
            None => (dragging, None),
        },
        MouseEvent::Release { button, position, modifier } => match MouseButton::from_gtk_button(button) {
            Some(btn) => (
                None,
                Some(SerialCommand::MouseButton { action: MouseAction::Release, button: btn, modifier, grid_id: grid, position }),
            ),
            None => (None, None),
        },
        MouseEvent::Motion { position, modifier } => match dragging {
            Some(d) => if d.pos.col != position.col || d.pos.row != position.row {
                (
                    Some(Dragging { btn: d.btn, pos: position }),
                    Some(SerialCommand::Drag { button: d.btn, grid_id: grid, position, modifier }),
                )
            } else {
                (dragging, None)
            },
            None => (None, None),
        },
    }
}

/// The cell a mouse event happened at.
pub open spec fn event_position(event: MouseEvent) -> CellPos {
    match event {
        MouseEvent::Press { position, .. } => position,
        MouseEvent::Release { position, .. } => position,
        MouseEvent::Motion { position, .. } => position,
    }
}

/// The modifiers held during a mouse event.
pub open spec fn event_modifier(event: MouseEvent) -> Modifiers {
    match event {
        MouseEvent::Press { modifier, .. } => modifier,
        MouseEvent::Release { modifier, .. } => modifier,
        MouseEvent::Motion { modifier, .. } => modifier,
    }
}

/// Every mouse command is sent for the grid the event happened over, at the
/// cell of the event (a release too, wherever the drag had got to), with the
/// modifiers held during it.
pub proof fn lemma_mouse_command_at_event(dragging: Option<Dragging>, event: MouseEvent, grid: u64)
    ensures
        match mouse_spec(dragging, event, grid).1 {
            Some(SerialCommand::MouseButton { grid_id, position, modifier, .. }) => grid_id == grid
                && position == event_position(event) && modifier == event_modifier(event),
            Some(SerialCommand::Drag { grid_id, position, modifier, .. }) => grid_id == grid
                && position == event_position(event) && modifier == event_modifier(event),
            Some(_) => false,
            None => true,
        },
{
}

/// GTK's buttons 1, 2 and 3 are the left, middle and right buttons: a press
/// of one starts dragging it from the pressed cell and is sent as a press of
/// that button, a release of one is sent as a release of that button; a
/// release always ends dragging, and the other buttons send nothing.
pub proof fn lemma_mouse_buttons(dragging: Option<Dragging>, button: u32, position: CellPos, modifier: Modifiers, grid: u64)
    ensures
        ({
            let (next, cmd) = mouse_spec(dragging, MouseEvent::Press { button, position, modifier }, grid);
            &&& button == 1 ==> next == Some(Dragging { btn: MouseButton::Left, pos: position })
                && (cmd matches Some(SerialCommand::MouseButton { action: MouseAction::Press, button: MouseButton::Left, .. }))
            &&& button == 2 ==> next == Some(Dragging { btn: MouseButton::Middle, pos: position })
                && (cmd matches Some(SerialCommand::MouseButton { action: MouseAction::Press, button: MouseButton::Middle, .. }))
            &&& button == 3 ==> next == Some(Dragging { btn: MouseButton::Right, pos: position })
                && (cmd matches Some(SerialCommand::MouseButton { action: MouseAction::Press, button: MouseButton::Right, .. }))
            &&& !(1 <= button <= 3) ==> next == dragging && cmd is None
        }),
        ({
            let (next, cmd) = mouse_spec(dragging, MouseEvent::Release { button, position, modifier }, grid);
            &&& next is None
            &&& button == 1 ==> (cmd matches Some(SerialCommand::MouseButton { action: MouseAction::Release, button: MouseButton::Left, .. }))
            &&& button == 2 ==> (cmd matches Some(SerialCommand::MouseButton { action: MouseAction::Release, button: MouseButton::Middle, .. }))
            &&& button == 3 ==> (cmd matches Some(SerialCommand::MouseButton { action: MouseAction::Release, button: MouseButton::Right, .. }))
            &&& !(1 <= button <= 3) ==> cmd is None
        }),
{
}

/// A motion sends nothing unless a button is being dragged and the mouse
/// reached another cell; then it is sent as a drag of that button, which
/// goes on from the new cell.
pub proof fn lemma_mouse_motion(dragging: Option<Dragging>, position: CellPos, modifier: Modifiers, grid: u64)
    ensures
        ({
            let (next, cmd) = mouse_spec(dragging, MouseEvent::Motion { position, modifier }, grid);
            match dragging {
                Some(d) => if d.pos == position {
                    next == dragging && cmd is None
                } else {
                    next == Some(Dragging { btn: d.btn, pos: position })
                        && (cmd matches Some(SerialCommand::Drag { button, .. }) && button == d.btn)
                },
                None => next is None && cmd is None,
            }
        }),
{
}

/// The cell and grid a mouse command is about.
pub open spec fn command_cell(command: SerialCommand) -> Option<(u64, CellPos)> {
    match command {
        SerialCommand::MouseButton { grid_id, position, .. } => Some((grid_id, position)),
        SerialCommand::Scroll { grid_id, position, .. } => Some((grid_id, position)),
        SerialCommand::Drag { grid_id, position, .. } => Some((grid_id, position)),
        SerialCommand::Keyboard(_) => None,
    }
}

/// Mouse input reaches Neovim for the command's grid, with its row as the
/// row and its column as the column; keyboard input is sent as typed.
pub proof fn lemma_plan_keeps_cell(command: SerialCommand, call: NvimCall)
    requires
        serial_plan(command, call),
    ensures
        command_cell(command) matches Some((g, p)) ==> (call matches NvimCall::InputMouse { grid, row, col, .. }
            && grid == g as i64 && row == p.row as i64 && col == p.col as i64),
        command matches SerialCommand::Keyboard(s) ==> (call matches NvimCall::Input(i) && i@ == s@),
{
}

} // verus!
