use reovim::strings::{is_blank, is_whitespace, join, replace, split, trim};

#[test]
fn whitespace_agrees_with_std() {
    for u in 0u32..=0x10ffff {
        if let Some(c) = char::from_u32(u) {
            assert_eq!(is_whitespace(c), c.is_whitespace(), "U+{:04X}", u);
        }
    }
}

#[test]
fn trim_agrees_with_std() {
    for s in ["", "   ", "  a b  ", "\u{3000}x\u{2028}", "\ty\n", "plain", " \u{a0}z\u{85} "] {
        assert_eq!(trim(s), s.trim());
    }
}

#[test]
fn blank_strings() {
    assert!(is_blank(""));
    assert!(is_blank(" \t\n\u{2003}"));
    assert!(!is_blank("  x "));
}

#[test]
fn split_agrees_with_std() {
    let cases = [
        ("a     b", "     "),
        ("     ", "     "),
        ("", "     "),
        ("a          b", "     "),
        ("x      y", "     "),
        ("aaa", "aa"),
        ("Fira:h12", ":h"),
        ("no match here", ":h"),
    ];
    for (s, pat) in cases {
        let expected: Vec<String> = s.split(pat).map(String::from).collect();
        assert_eq!(split(s, pat), expected, "{:?} split on {:?}", s, pat);
    }
}

#[test]
fn join_with_separator() {
    let parts = vec!["a".to_string(), "".to_string(), "c".to_string()];
    assert_eq!(join(&parts, ", "), "a, , c");
    assert_eq!(join(&Vec::new(), "-"), "");
    assert_eq!(join(&vec!["only".to_string()], "-"), "only");
}

#[test]
fn replace_agrees_with_std() {
    for (s, from, to) in [
        ("Fira Code:h12", ":h", " "),
        (":h:h", ":h", " "),
        ("aaaa", "aa", "b"),
        ("nothing", "xyz", "q"),
        ("", ":h", " "),
    ] {
        assert_eq!(replace(s, from, to), s.replace(from, to));
    }
}
