use reovim::cursor::{Cursor, CursorMessage, CursorMode, CursorShape};
use reovim::highlights::HighlightDefinitions;
use reovim::style::{Colors, Style};
use reovim::text::TextCell;

#[test]
fn test_from_type_name() {
    assert_eq!(CursorShape::from_type_name("block"), Some(CursorShape::Block));
    assert_eq!(CursorShape::from_type_name("horizontal"), Some(CursorShape::Horizontal));
    assert_eq!(CursorShape::from_type_name("vertical"), Some(CursorShape::Vertical));
}

#[test]
fn unknown_shape_name() {
    assert_eq!(CursorShape::from_type_name("Block"), None);
    assert_eq!(CursorShape::from_type_name(""), None);
}

fn blinking_cursor(on: u64, off: u64, wait: u64) -> Cursor {
    let mut cursor = Cursor::new();
    cursor.set_mode(CursorMode {
        shape: None,
        style: None,
        cell_percentage: None,
        blinkwait: Some(wait),
        blinkon: Some(on),
        blinkoff: Some(off),
    });
    cursor
}

#[test]
fn blinking_css() {
    let cursor = blinking_cursor(400, 250, 700);
    let css = cursor.maybe_blinking().unwrap();
    let expected = ".blink {
  animation-name: blinking;
  animation-delay: 700ms;
  animation-duration: 650ms;
  animation-iteration-count: infinite;
  animation-timing-function: steps(2, start);
}

@keyframes blinking {
  61% { opacity: 0; }
}
";
    assert_eq!(css, expected);
}

#[test]
fn no_blinking_without_times() {
    assert_eq!(blinking_cursor(0, 250, 700).maybe_blinking(), None);
    assert_eq!(blinking_cursor(400, 0, 700).maybe_blinking(), None);
    assert_eq!(blinking_cursor(400, 250, 0).maybe_blinking(), None);
    assert_eq!(Cursor::new().maybe_blinking(), None);
}

#[test]
fn set_mode_keeps_shape_when_none() {
    let mut cursor = Cursor::new();
    cursor.set_mode(CursorMode { shape: Some(CursorShape::Horizontal), style: Some(1), cell_percentage: Some(25), blinkwait: Some(1), blinkon: Some(1), blinkoff: Some(1) });
    assert_eq!(cursor.shape, CursorShape::Horizontal);
    assert_eq!(cursor.style, Some(1));
    assert_eq!(cursor.cell_percentage, Some(25));
    cursor.set_mode(CursorMode::default());
    assert_eq!(cursor.shape, CursorShape::Horizontal);
    assert_eq!(cursor.style, None);
    assert_eq!(cursor.cell_percentage, None);
    assert_eq!(cursor.blinkon, None);
}

#[test]
fn cell_width_under_cursor() {
    let mut cursor = Cursor::new();
    let mut cell = TextCell::default();
    cell.text = "漢".to_string();
    cell.double_width = true;
    cursor.set_cell(cell.clone(), false);
    assert_eq!(cursor.width, 2);
    cell.double_width = false;
    cursor.set_cell(cell.clone(), true);
    assert_eq!(cursor.width, 0);
    cursor.set_cell(cell.clone(), false);
    assert_eq!(cursor.width, 1);
    cell.text = String::new();
    cursor.set_cell(cell, false);
    assert_eq!(cursor.width, 0);
}

#[test]
fn goto_moves_cursor() {
    let mut cursor = Cursor::new();
    let mut cell = TextCell::default();
    cell.text = "x".to_string();
    cursor.update(CursorMessage::Goto(3, 7, 2, cell.clone()));
    assert_eq!((cursor.grid, cursor.col, cursor.row), (3, 7, 2));
    assert_eq!(cursor.cell, cell);
}

#[test]
fn cursor_colors_follow_style() {
    let defaults = Colors { foreground: Some(1u32), background: Some(2u32), special: None };
    let mut hldefs = HighlightDefinitions::new(defaults);
    let mut cursor = Cursor::new();
    assert_eq!(cursor.foreground(&hldefs), 2);
    assert_eq!(cursor.background(&hldefs), (1, 0));
    let mut style = Style::new(Colors { foreground: Some(5u32), background: None, special: None });
    style.blend = 30;
    hldefs.set(9, style);
    cursor.style = Some(9);
    assert_eq!(cursor.foreground(&hldefs), 5);
    assert_eq!(cursor.background(&hldefs), (1, 30));
}

#[test]
fn huge_times_without_an_off_time_do_not_blink() {
    let cursor = blinking_cursor(u64::MAX, 0, 700);
    assert_eq!(cursor.maybe_blinking(), None);
}
