use reovim::highlights::HighlightDefinitions;
use reovim::style::{Colors, Style};

fn colors(fg: u32) -> Colors<u32> {
    Colors { foreground: Some(fg), background: None, special: None }
}

#[test]
fn read_after_write() {
    let mut h = HighlightDefinitions::new(colors(0));
    assert_eq!(h.get(HighlightDefinitions::<u32>::DEFAULT), Some(&Style::new(colors(0))));
    assert_eq!(h.get(4), None);
    let s = Style::new(colors(9));
    h.set(4, s);
    assert_eq!(h.get(4), Some(&s));
    assert_eq!(h.get(0), Some(&Style::new(colors(0))));
    let t = Style { bold: true, ..Style::new(colors(1)) };
    h.set(4, t);
    assert_eq!(h.get(4), Some(&t));
}

#[test]
fn defaults_define_group_zero() {
    let mut h = HighlightDefinitions::new(colors(0));
    assert_eq!(h.defaults(), Some(&colors(0)));
    h.set(0, Style { italic: true, ..Style::new(colors(5)) });
    h.set_defaults(colors(7));
    assert_eq!(h.defaults(), Some(&colors(7)));
    assert_eq!(h.get(0), Some(&Style::new(colors(7))));
}
