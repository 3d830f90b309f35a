use reovim::cursor::{CursorMode, CursorShape};
use reovim::editor::{window_title, AppModel, EditorMode, GuiOption, RedrawEvent};
use reovim::opts::Opts;
use reovim::style::{Colors, Style};
use reovim::text::GridLineCell;

fn opts() -> Opts {
    Opts {
        nvim_path: None,
        remote_tcp: None,
        width: 1024,
        height: 768,
        verbose: 0,
        files: Vec::new(),
        nvim_args: Vec::new(),
        title: "Reovim".to_string(),
        size: None,
    }
}

fn colors() -> Colors<u32> {
    Colors { foreground: Some(0), background: Some(0xffffff), special: None }
}

fn model() -> AppModel<u32> {
    AppModel::new(opts(), colors())
}

fn plain_style(fg: u32) -> Style<u32> {
    Style {
        colors: Colors { foreground: Some(fg), background: None, special: None },
        reverse: false,
        italic: false,
        bold: false,
        strikethrough: false,
        underline: false,
        undercurl: false,
        blend: 0,
    }
}

fn mode(shape: Option<CursorShape>, blinkon: Option<u64>) -> CursorMode {
    CursorMode { shape, style: None, cell_percentage: Some(25), blinkwait: None, blinkon, blinkoff: None }
}

#[test]
fn titles() {
    assert_eq!(window_title("main.rs     (~/src)     - NVIM"), "main.rs  (~/src)  - NVIM");
    assert_eq!(window_title("  padded  "), "padded");
    assert_eq!(window_title(""), "");
    assert_eq!(window_title("a          b"), "a  b");
    assert_eq!(window_title("x       y"), "x  y");
}

#[test]
fn new_model() {
    let m = model();
    assert_eq!(m.opts, opts());
    assert_eq!(m.title, "Reovim");
    assert_eq!((m.default_width, m.default_height), (1024, 768));
    assert_eq!(m.font_description, "monospace 11");
    assert_eq!(m.mode, EditorMode::Normal);
    assert_eq!(m.focused, 1);
    assert!(m.vgrids.is_empty());
    assert_eq!(m.hldefs.get(0), Some(&Style::new(colors())));
}

#[test]
fn set_title() {
    let mut m = model();
    m.update(RedrawEvent::SetTitle { title: "[No Name]     - NVIM".to_string() });
    assert_eq!(m.title, "[No Name]  - NVIM");
}

#[test]
fn guifont_option() {
    let mut m = model();
    m.update(RedrawEvent::OptionSet { gui_option: GuiOption::GuiFont("Fira Code:h12".to_string()) });
    assert_eq!(m.guifont.as_deref(), Some("Fira Code:h12"));
    assert_eq!(m.font_description, "Fira Code 12");
    assert!(m.font_changed);
}

#[test]
fn blank_guifont_is_ignored() {
    let mut m = model();
    m.update(RedrawEvent::OptionSet { gui_option: GuiOption::GuiFont("   ".to_string()) });
    assert_eq!(m.guifont, None);
    assert_eq!(m.font_description, "monospace 11");
    assert!(!m.font_changed);
}

#[test]
fn other_options() {
    let mut m = model();
    m.update(RedrawEvent::OptionSet { gui_option: GuiOption::GuiFontSet("a,b".to_string()) });
    m.update(RedrawEvent::OptionSet { gui_option: GuiOption::GuiFontWide("w".to_string()) });
    m.update(RedrawEvent::OptionSet { gui_option: GuiOption::LineSpace(3) });
    m.update(RedrawEvent::OptionSet { gui_option: GuiOption::ShowTabLine(2) });
    m.update(RedrawEvent::OptionSet { gui_option: GuiOption::Emoji(true) });
    assert_eq!(m.guifontset.as_deref(), Some("a,b"));
    assert_eq!(m.guifontwide.as_deref(), Some("w"));
    assert_eq!(m.metrics.linespace(), 3);
    assert_eq!(m.show_tab_line, Some(2));
}

#[test]
fn highlights_and_default_colors() {
    let mut m = model();
    m.update(RedrawEvent::HighlightAttributesDefine { id: 7, style: plain_style(0x123456) });
    assert_eq!(m.hldefs.get(7), Some(&plain_style(0x123456)));
    let dark = Colors { foreground: Some(0xffffff), background: Some(0), special: Some(0xff0000) };
    m.update(RedrawEvent::DefaultColorsSet { colors: dark });
    assert!(m.background_changed);
    assert_eq!(m.hldefs.defaults(), Some(&dark));
    assert_eq!(m.hldefs.get(0), Some(&Style::new(dark)));
    assert_eq!(m.hldefs.get(7), Some(&plain_style(0x123456)));
}

#[test]
fn resize_adds_then_resizes_a_grid() {
    let mut m = model();
    m.update(RedrawEvent::Resize { grid: 2, width: 10, height: 4 });
    assert_eq!(m.focused, 2);
    let g = m.vgrids.get(2).unwrap();
    assert_eq!((g.width(), g.height(), g.win()), (10, 4, 0));
    assert_eq!(m.relationships.get(&2), Some(&0));
    m.update(RedrawEvent::Resize { grid: 2, width: 6, height: 3 });
    let g = m.vgrids.get(2).unwrap();
    assert_eq!((g.width(), g.height()), (6, 3));
    assert_eq!(g.textbuf().rows(), 3);
    assert_eq!(g.textbuf().cols(), 6);
}

#[test]
fn grid_line_writes_into_the_grid() {
    let mut m = model();
    m.update(RedrawEvent::Resize { grid: 1, width: 5, height: 2 });
    let cells = vec![GridLineCell { text: "h".to_string(), hldef: Some(1), repeat: None, double_width: false }];
    m.update(RedrawEvent::GridLine { grid: 1, row: 1, column_start: 2, cells });
    let cell = m.vgrids.get(1).unwrap().textbuf().cell(1, 2).unwrap();
    assert_eq!(cell.text, "h");
    assert_eq!(cell.hldef, Some(1));
    m.update(RedrawEvent::Clear { grid: 1 });
    assert_eq!(m.vgrids.get(1).unwrap().textbuf().cell(1, 2).unwrap().text, " ");
}

#[test]
fn windows_come_and_go() {
    let mut m = model();
    m.update(RedrawEvent::WindowPosition { grid: 3, window: 1001, start_row: 0, start_column: 0, width: 8, height: 2 });
    assert_eq!(m.focused, 3);
    assert_eq!(m.relationships.get(&3), Some(&1001));
    assert_eq!(m.vgrids.get(3).unwrap().win(), 1001);
    m.update(RedrawEvent::WindowHide { grid: 3 });
    assert!(!m.vgrids.get(3).unwrap().visible());
    assert_eq!(m.focused, 1);
    m.update(RedrawEvent::WindowViewport { grid: 3, window: Some(1002), size: None });
    assert!(m.vgrids.get(3).unwrap().visible());
    assert_eq!(m.relationships.get(&3), Some(&1002));
    m.update(RedrawEvent::WindowClose { grid: 3 });
    assert!(m.vgrids.get(3).is_none());
    assert!(m.relationships.get(&3).is_none());
}

#[test]
fn viewport_of_unknown_window() {
    let mut m = model();
    m.update(RedrawEvent::WindowViewport { grid: 4, window: None, size: Some((3, 3)) });
    assert!(m.vgrids.get(4).is_none());
    m.update(RedrawEvent::WindowViewport { grid: 4, window: Some(1000), size: None });
    assert!(m.vgrids.get(4).is_none());
    m.update(RedrawEvent::WindowViewport { grid: 4, window: Some(1000), size: Some((3, 2)) });
    let g = m.vgrids.get(4).unwrap();
    assert_eq!((g.width(), g.height(), g.win()), (3, 2, 1000));
}

#[test]
fn float_windows() {
    let mut m = model();
    m.update(RedrawEvent::Resize { grid: 1, width: 20, height: 10 });
    m.update(RedrawEvent::Resize { grid: 5, width: 4, height: 2 });
    m.update(RedrawEvent::WindowFloatPosition { grid: 5, anchor_grid: 1, focusable: false });
    let g = m.vgrids.get(5).unwrap();
    assert!(g.is_float());
    assert!(g.visible());
    assert!(!g.focusable());
}

#[test]
fn destroy_keeps_focus_elsewhere() {
    let mut m = model();
    m.update(RedrawEvent::Resize { grid: 2, width: 3, height: 3 });
    m.update(RedrawEvent::Resize { grid: 6, width: 3, height: 3 });
    m.update(RedrawEvent::Destroy { grid: 2 });
    assert_eq!(m.focused, 6);
    assert!(m.vgrids.get(2).is_none());
    assert_eq!(m.vgrids.len(), 1);
}

#[test]
fn cursor_follows_goto() {
    let mut m = model();
    m.update(RedrawEvent::Resize { grid: 1, width: 10, height: 5 });
    m.update(RedrawEvent::CursorGoto { grid: 1, row: 2, column: 7 });
    assert_eq!(m.cursor_at, Some(1));
    assert_eq!((m.cursor.grid, m.cursor.row, m.cursor.col), (1, 2, 7));
    m.update(RedrawEvent::Resize { grid: 2, width: 10, height: 5 });
    m.update(RedrawEvent::CursorGoto { grid: 2, row: 0, column: 1 });
    assert_eq!(m.cursor_at, Some(2));
    assert_eq!((m.cursor.grid, m.cursor.row, m.cursor.col), (2, 0, 1));
}

#[test]
fn modes_change_the_cursor() {
    let mut m = model();
    let modes = vec![mode(Some(CursorShape::Block), None), mode(Some(CursorShape::Vertical), Some(400))];
    m.update(RedrawEvent::ModeInfoSet { cursor_modes: modes });
    assert_eq!(m.cursor.shape, CursorShape::Block);
    m.update(RedrawEvent::ModeChange { mode: EditorMode::Insert, mode_index: 1 });
    assert_eq!(m.mode, EditorMode::Insert);
    assert_eq!(m.cursor_mode, 1);
    assert_eq!(m.cursor.shape, CursorShape::Vertical);
    assert_eq!(m.cursor.blinkon, Some(400));
    assert_eq!(m.cursor.cell_percentage, Some(25));
}

#[test]
fn mouse_and_flush() {
    let mut m = model();
    m.update(RedrawEvent::MouseOn);
    assert!(m.mouse_on);
    m.update(RedrawEvent::MouseOff);
    assert!(!m.mouse_on);
    m.update(RedrawEvent::Flush);
    assert!(m.flush);
    m.update(RedrawEvent::BusyStart);
    m.update(RedrawEvent::Message);
    assert_eq!(m.title, "Reovim");
}

#[test]
fn font_measures_set_the_cell_size() {
    let mut m = model();
    m.update(RedrawEvent::OptionSet { gui_option: GuiOption::LineSpace(2) });
    m.recompute(&vec![(7168, 15360), (7000, 16000)], 15000);
    assert_eq!(m.metrics.width(), 7);
    assert_eq!(m.metrics.charheight(), 15);
    assert_eq!(m.metrics.height(), 17);
    assert_eq!(m.title, "Reovim");
}

#[test]
fn scroll_moves_the_text() {
    let mut m = model();
    m.update(RedrawEvent::Resize { grid: 1, width: 2, height: 3 });
    let cells = vec![GridLineCell { text: "x".to_string(), hldef: None, repeat: None, double_width: false }];
    m.update(RedrawEvent::GridLine { grid: 1, row: 2, column_start: 0, cells });
    m.update(RedrawEvent::Scroll { grid: 1, top: 0, bottom: 3, left: 0, right: 2, rows: 2, columns: 0 });
    assert_eq!(m.vgrids.get(1).unwrap().textbuf().cell(0, 0).unwrap().text, "x");
    assert_eq!(m.vgrids.get(1).unwrap().textbuf().cell(2, 0).unwrap().text, " ");
}
