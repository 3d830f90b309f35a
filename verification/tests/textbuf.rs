use reovim::text::{GridLineCell, LayoutCache};
use reovim::textbuf::TextBuf;

fn run(text: &str, hldef: Option<u64>, repeat: Option<u64>) -> GridLineCell {
    GridLineCell { text: text.to_string(), hldef, repeat, double_width: false }
}

#[test]
fn new_buffer_is_blank() {
    let tb = TextBuf::new(4, 2);
    assert_eq!(tb.rows(), 2);
    assert_eq!(tb.cols(), 4);
    assert_eq!(tb.nlines(), 2);
    assert_eq!(tb.top(), 0);
    assert_eq!(tb.bottom(), 0);
    assert_eq!(tb.line(0).unwrap().nr(), 0);
    assert_eq!(tb.line(1).unwrap().nr(), 1);
    for row in 0..2 {
        for col in 0..4 {
            let cell = tb.cell(row, col).unwrap();
            assert_eq!(cell.text, " ");
            assert_eq!(cell.hldef, None);
        }
    }
    assert!(tb.cell(2, 0).is_none());
    assert!(tb.cell(0, 4).is_none());
}

#[test]
fn written_cells_read_back() {
    let mut tb = TextBuf::new(4, 2);
    tb.set_cells(1, 1, &[run("a", Some(3), Some(2))]);
    let texts: Vec<String> = (0..4).map(|c| tb.cell(1, c).unwrap().text).collect();
    assert_eq!(texts, vec![" ", "a", "a", " "]);
    assert_eq!(tb.cell(1, 1).unwrap().hldef, Some(3));
    assert_eq!(tb.cell(1, 2).unwrap().hldef, Some(3));
    assert_eq!(tb.cell(1, 0).unwrap().hldef, None);
    // The other line is untouched.
    assert_eq!(tb.cell(0, 1).unwrap().text, " ");
}

#[test]
fn byte_ranges_follow_the_text() {
    let mut tb = TextBuf::new(3, 1);
    tb.set_cells(0, 0, &[run("é", None, None), run("ab", None, None)]);
    let cells: Vec<(String, usize, usize)> = (0..3)
        .map(|c| {
            let cell = tb.cell(0, c).unwrap();
            (cell.text, cell.start_index, cell.end_index)
        })
        .collect();
    assert_eq!(
        cells,
        vec![("é".to_string(), 0, 2), ("ab".to_string(), 2, 4), (" ".to_string(), 4, 5)]
    );
}

#[test]
fn resize_keeps_text_and_shape() {
    let mut tb = TextBuf::new(4, 2);
    tb.set_cells(1, 1, &[run("x", None, None)]);
    tb.resize(3, 2);
    assert_eq!(tb.rows(), 3);
    assert_eq!(tb.cols(), 2);
    assert_eq!(tb.nlines(), 3);
    for row in 0..3 {
        assert_eq!(tb.line(row).unwrap().len(), 2);
    }
    assert_eq!(tb.cell(1, 1).unwrap().text, "x");
    assert_eq!(tb.cell(2, 0).unwrap().text, " ");
    assert_eq!(tb.line(2).unwrap().nr(), 2);
}

#[test]
fn clear_makes_fresh_lines() {
    let mut tb = TextBuf::new(2, 2);
    tb.set_cells(0, 0, &[run("q", None, Some(2))]);
    tb.clear();
    assert_eq!(tb.nlines(), 2);
    assert_eq!(tb.cell(0, 0).unwrap().text, " ");
    assert_eq!(tb.cell(0, 1).unwrap().text, " ");
}

#[test]
fn first_viewport_renumbers() {
    let mut tb = TextBuf::new(2, 3);
    tb.set_viewport(5, 8);
    assert_eq!(tb.top(), 5);
    assert_eq!(tb.bottom(), 8);
    let nrs: Vec<usize> = (0..tb.nlines()).map(|i| tb.line(i).unwrap().nr()).collect();
    assert_eq!(nrs, vec![5, 6, 7]);
}

#[test]
fn moved_viewport_has_its_top_line() {
    let mut tb = TextBuf::new(2, 3);
    tb.set_viewport(5, 8);
    tb.set_viewport(9, 12);
    assert_eq!(tb.top(), 9);
    let nrs: Vec<usize> = (0..tb.nlines()).map(|i| tb.line(i).unwrap().nr()).collect();
    assert!(nrs.contains(&9), "{:?}", nrs);
    assert!(nrs.contains(&10) && nrs.contains(&11), "{:?}", nrs);
    assert!(nrs.windows(2).all(|w| w[0] < w[1]), "{:?}", nrs);
    for i in 0..tb.nlines() {
        assert_eq!(tb.line(i).unwrap().len(), 2);
    }
}

#[test]
fn same_viewport_changes_nothing() {
    let mut tb = TextBuf::new(2, 3);
    tb.set_viewport(5, 8);
    tb.set_viewport(5, 9);
    let nrs: Vec<usize> = (0..tb.nlines()).map(|i| tb.line(i).unwrap().nr()).collect();
    assert_eq!(nrs, vec![5, 6, 7]);
    assert_eq!(tb.bottom(), 9);
}

#[test]
fn flushed_numbers_count_from_the_top() {
    let mut tb = TextBuf::new(2, 3);
    tb.set_viewport(4, 7);
    tb.flush_nrs();
    let nrs: Vec<usize> = (0..tb.nlines()).map(|i| tb.line(i).unwrap().nr()).collect();
    assert_eq!(nrs, vec![4, 5, 6]);
}

fn texts(tb: &TextBuf) -> Vec<(usize, String)> {
    (0..tb.nlines()).map(|i| (tb.line(i).unwrap().nr(), tb.cell(i, 0).unwrap().text)).collect()
}

#[test]
fn scrolling_up_drops_the_head() {
    let mut tb = TextBuf::new(1, 3);
    tb.set_cells(0, 0, &[run("a", None, None)]);
    tb.set_cells(1, 0, &[run("b", None, None)]);
    tb.set_cells(2, 0, &[run("c", None, None)]);
    tb.up(2);
    assert_eq!(texts(&tb), vec![(2, "c".to_string()), (3, " ".to_string()), (4, " ".to_string())]);
    tb.up(7);
    assert_eq!(texts(&tb), vec![(5, " ".to_string()), (6, " ".to_string()), (7, " ".to_string())]);
    assert_eq!(tb.rows(), 3);
}

#[test]
fn scrolling_down_drops_the_tail() {
    let mut tb = TextBuf::new(1, 3);
    tb.set_viewport(5, 8);
    tb.set_cells(0, 0, &[run("a", None, None)]);
    tb.set_cells(1, 0, &[run("b", None, None)]);
    tb.down(1);
    assert_eq!(texts(&tb), vec![(4, " ".to_string()), (5, "a".to_string()), (6, "b".to_string())]);
    tb.down(0);
    assert_eq!(texts(&tb), vec![(4, " ".to_string()), (5, "a".to_string()), (6, "b".to_string())]);
}

#[test]
fn moved_viewport_keeps_lines_in_order() {
    let mut tb = TextBuf::new(1, 3);
    tb.set_viewport(5, 8);
    tb.set_cells(1, 0, &[run("k", None, None)]);
    tb.set_viewport(2, 5);
    let nrs: Vec<usize> = (0..tb.nlines()).map(|i| tb.line(i).unwrap().nr()).collect();
    assert!(nrs.windows(2).all(|w| w[0] < w[1]), "{:?}", nrs);
    assert!(nrs.contains(&5) && nrs.contains(&6) && nrs.contains(&7));
    assert!(nrs.contains(&2) && nrs.contains(&3) && nrs.contains(&4));
    let kept = (0..tb.nlines()).find(|&i| tb.line(i).unwrap().nr() == 6).unwrap();
    assert_eq!(tb.cell(kept, 0).unwrap().text, "k");
}

#[test]
fn writing_a_line_drops_its_layout() {
    let mut tb = TextBuf::new(3, 2);
    tb.set_line_cache(0, LayoutCache);
    tb.set_line_cache(1, LayoutCache);
    assert!(tb.line(0).unwrap().cache().is_some());
    tb.set_cells(1, 0, &[run("x", None, None)]);
    assert!(tb.line(1).unwrap().cache().is_none());
    assert!(tb.line(0).unwrap().cache().is_some());
    assert_eq!(tb.cell(1, 0).unwrap().text, "x");
}

#[test]
fn viewport_moving_down_past_the_lines() {
    let mut tb = TextBuf::new(1, 2);
    tb.set_viewport(3, 5);
    tb.set_viewport(10, 12);
    let nrs: Vec<usize> = (0..tb.nlines()).map(|i| tb.line(i).unwrap().nr()).collect();
    assert_eq!(nrs, vec![3, 4, 10, 11, 12]);
}
