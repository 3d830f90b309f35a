use reovim::highlights::HighlightDefinitions;
use reovim::itemize::{itemize, FontKind};
use reovim::style::{Colors, Style};
use reovim::text::{TextCell, TextLine};

fn cell(text: &str, hldef: Option<u64>) -> TextCell {
    TextCell { text: text.to_string(), hldef, double_width: false, start_index: 0, end_index: 0 }
}

fn line(cells: Vec<TextCell>) -> TextLine {
    TextLine { nr: 0, cells, cache: None }
}

fn hldefs() -> HighlightDefinitions<u32> {
    let colors = Colors { foreground: Some(0), background: Some(1), special: None };
    let mut h = HighlightDefinitions::new(colors);
    h.set(1, Style::new(colors));
    h.set(2, Style { bold: true, ..Style::new(colors) });
    h.set(3, Style { bold: true, italic: true, ..Style::new(colors) });
    h
}

fn summary(items: &[reovim::itemize::Item]) -> Vec<(String, FontKind, Vec<usize>)> {
    items.iter().map(|i| (i.text.clone(), i.font, i.cells.clone())).collect()
}

#[test]
fn runs_split_at_group_changes() {
    let l = line(vec![
        cell("a", None),
        cell("b", None),
        cell("\u{1f600}", Some(1)),
        cell("", Some(1)),
        cell("c", Some(2)),
        cell("d", Some(2)),
    ]);
    let (items, text) = itemize(&l, &hldefs());
    assert_eq!(text, "ab\u{1f600}cd");
    assert_eq!(
        summary(&items),
        vec![
            ("ab".to_string(), FontKind::Regular, vec![0, 1]),
            ("\u{1f600}".to_string(), FontKind::Emoji, vec![2, 2, 3]),
            ("cd".to_string(), FontKind::Bold, vec![4, 4, 5]),
        ]
    );
    let joined: String = items.iter().map(|i| i.text.as_str()).collect();
    assert_eq!(joined, text);
}

#[test]
fn keycap_bases_are_not_emoji() {
    let l = line(vec![cell("1", Some(3)), cell("#", Some(3))]);
    let (items, text) = itemize(&l, &hldefs());
    assert_eq!(text, "1#");
    assert_eq!(summary(&items), vec![("1#".to_string(), FontKind::BoldItalic, vec![0, 1])]);
}

#[test]
fn empty_line_has_no_runs() {
    let (items, text) = itemize(&line(Vec::new()), &hldefs());
    assert!(items.is_empty());
    assert!(text.is_empty());
}
