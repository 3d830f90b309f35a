use reovim::grid::{Event, GridEvent, VimGrid, VimGrids};
use reovim::text::GridLineCell;

#[test]
fn new_grid_is_shown_and_blank() {
    let g = VimGrid::new(3, 1000, 5, 2);
    assert_eq!((g.id(), g.win(), g.width(), g.height()), (3, 1000, 5, 2));
    assert!(g.visible());
    assert!(g.focusable());
    assert!(!g.is_float());
    assert_eq!(g.textbuf().rows(), 2);
    assert_eq!(g.textbuf().cols(), 5);
    assert_eq!(g.textbuf().cell(1, 4).unwrap().text, " ");
}

#[test]
fn grid_events() {
    let mut g = VimGrid::new(1, 1, 4, 2);
    g.update(Event::WindowHide);
    assert!(!g.visible());
    g.update(Event::Show);
    assert!(g.visible());
    g.update(Event::WindowClose);
    assert!(!g.visible());
    g.update(Event::Resize { width: 6, height: 3 });
    assert!(g.visible());
    assert_eq!((g.width(), g.height()), (6, 3));
    assert_eq!(g.textbuf().nlines(), 3);
    g.update(Event::Float { focusable: false });
    assert!(g.is_float() && g.visible() && !g.focusable());
    g.update(Event::Scroll { top: 0, bottom: 3, left: 0, right: 6, rows: 1, columns: 0 });
    g.update(Event::ResetCache);
    assert_eq!((g.width(), g.height()), (6, 3));
}

#[test]
fn clearing_a_grid() {
    let mut g = VimGrid::new(1, 1, 3, 1);
    g.set_cells(0, 0, &[GridLineCell { text: "z".to_string(), hldef: None, repeat: Some(3), double_width: false }]);
    assert_eq!(g.textbuf().cell(0, 2).unwrap().text, "z");
    g.update(Event::Clear);
    assert_eq!(g.textbuf().cell(0, 2).unwrap().text, " ");
}

#[test]
fn normal_window_is_hidden_until_placed() {
    let mut g = VimGrid::new(1, 1, 3, 1);
    g.set_is_float(false);
    assert!(!g.visible());
    g.set_is_float(true);
    assert!(g.visible());
    g.set_hidden();
    g.set_win(77);
    assert_eq!(g.win(), 77);
    assert!(!g.visible());
}

#[test]
fn grid_set_adds_and_removes() {
    let mut grids = VimGrids::new();
    grids.update(GridEvent::Add { grid: 2, win: 1000, width: 4, height: 2 });
    grids.update(GridEvent::Add { grid: 3, win: 1001, width: 2, height: 2 });
    assert_eq!(grids.get(2).unwrap().win(), 1000);
    grids.update(GridEvent::WindowHide(2));
    assert!(!grids.get(2).unwrap().visible());
    grids.update(GridEvent::AtPosition { grid: 2, width: 5, height: 3 });
    let g = grids.get(2).unwrap();
    assert!(g.visible());
    assert_eq!((g.width(), g.height()), (5, 3));
    grids.update(GridEvent::Resize { grid: 3, width: 7, height: 1 });
    assert_eq!(grids.get(3).unwrap().width(), 7);
    grids.update(GridEvent::FloatPosition { grid: 3, focusable: true });
    assert!(grids.get(3).unwrap().is_float());
    grids.update(GridEvent::Destroy(2));
    assert!(grids.get(2).is_none());
    assert!(grids.get(3).is_some());
    grids.update(GridEvent::Flush);
    grids.update(GridEvent::ResetCache);
    assert!(grids.get(3).is_some());
}
