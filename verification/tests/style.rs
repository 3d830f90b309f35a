use reovim::style::{Colors, Style};

#[derive(Copy, Clone, Debug, PartialEq)]
struct Color {
    red: f32,
    green: f32,
    blue: f32,
    alpha: f32,
}

impl Color {
    const fn new(red: f32, green: f32, blue: f32, alpha: f32) -> Color {
        Color { red, green, blue, alpha }
    }
}

const COLORS: Colors<Color> = Colors {
    foreground: Some(Color::new(0.1, 0.1, 0.1, 0.1)),
    background: Some(Color::new(0.2, 0.1, 0.1, 0.1)),
    special: Some(Color::new(0.3, 0.1, 0.1, 0.1)),
};

const DEFAULT_COLORS: Colors<Color> = Colors {
    foreground: Some(Color::new(0.1, 0.2, 0.1, 0.1)),
    background: Some(Color::new(0.2, 0.2, 0.1, 0.1)),
    special: Some(Color::new(0.3, 0.2, 0.1, 0.1)),
};

#[test]
fn test_foreground() {
    let mut style = Style::new(COLORS);

    assert_eq!(style.foreground(&DEFAULT_COLORS), COLORS.foreground.unwrap());
    style.colors.foreground = None;
    assert_eq!(style.foreground(&DEFAULT_COLORS), DEFAULT_COLORS.foreground.unwrap());
}

#[test]
fn test_foreground_reverse() {
    let mut style = Style::new(COLORS);
    style.reverse = true;

    assert_eq!(style.foreground(&DEFAULT_COLORS), COLORS.background.unwrap());
    style.colors.background = None;
    assert_eq!(style.foreground(&DEFAULT_COLORS), DEFAULT_COLORS.background.unwrap());
}

#[test]
fn test_background() {
    let mut style = Style::new(COLORS);

    assert_eq!(style.background(&DEFAULT_COLORS), COLORS.background.unwrap());
    style.colors.background = None;
    assert_eq!(style.background(&DEFAULT_COLORS), DEFAULT_COLORS.background.unwrap());
}

#[test]
fn test_background_reverse() {
    let mut style = Style::new(COLORS);
    style.reverse = true;

    assert_eq!(style.background(&DEFAULT_COLORS), COLORS.foreground.unwrap());
    style.colors.foreground = None;
    assert_eq!(style.background(&DEFAULT_COLORS), DEFAULT_COLORS.foreground.unwrap());
}

#[test]
fn test_special() {
    let mut style = Style::new(COLORS);

    assert_eq!(style.special(&DEFAULT_COLORS), COLORS.special.unwrap());
    style.colors.special = None;
    assert_eq!(style.special(&DEFAULT_COLORS), DEFAULT_COLORS.special.unwrap());
}

#[test]
fn reverse_swaps_resolved_colors() {
    let plain = Style::new(COLORS);
    let mut reversed = plain;
    reversed.reverse = true;
    assert_eq!(reversed.foreground(&DEFAULT_COLORS), plain.background(&DEFAULT_COLORS));
    assert_eq!(reversed.background(&DEFAULT_COLORS), plain.foreground(&DEFAULT_COLORS));
}

#[test]
fn new_style_has_no_attributes() {
    let style = Style::new(COLORS);
    assert!(!style.reverse && !style.italic && !style.bold);
    assert!(!style.strikethrough && !style.underline && !style.undercurl);
    assert_eq!(style.blend, 0);
}
