use reovim::keys::{map_keyname, str_eq, KeyPress, Modifiers, ToInput};

fn key(name: &str, unicode: Option<char>, modifiers: Modifiers) -> KeyPress {
    KeyPress { name: name.to_string(), unicode, modifiers }
}

#[test]
fn key_names() {
    assert_eq!(map_keyname("asciicircum".to_string()), Some("^"));
    assert_eq!(map_keyname("Return".to_string()), Some("CR"));
    assert_eq!(map_keyname("Escape".to_string()), Some("Esc"));
    assert_eq!(map_keyname("F12".to_string()), Some("F12"));
    assert_eq!(map_keyname("Tab".to_string()), Some("Tab"));
    assert_eq!(map_keyname("Super_L".to_string()), None);
}

#[test]
fn plain_and_modified_keys() {
    let none = Modifiers::default();
    let ctrl = Modifiers { control: true, ..none };
    assert_eq!(key("a", Some('a'), none).to_input().as_deref(), Some("a"));
    assert_eq!(key("a", Some('a'), ctrl).to_input().as_deref(), Some("<C-a>"));
    assert_eq!(key("Return", Some('\r'), none).to_input().as_deref(), Some("<CR>"));
    let all = Modifiers { shift: true, control: true, alt: true, super_: true, others: false };
    assert_eq!(key("Escape", None, all).to_input().as_deref(), Some("<S-C-A-M-Esc>"));
    assert_eq!(key("Shift_L", None, none).to_input(), None);
}

#[test]
fn modifier_prefixes() {
    let m = Modifiers { shift: true, alt: true, ..Modifiers::default() };
    assert_eq!(m.to_input().as_deref(), Some("S-A-"));
    assert!(Modifiers::default().is_empty());
    assert!(!Modifiers { others: true, ..Modifiers::default() }.is_empty());
    assert_eq!(Modifiers::default().to_input().as_deref(), Some(""));
}

#[test]
fn string_equality() {
    assert!(str_eq("abc", "abc"));
    assert!(!str_eq("abc", "abd"));
    assert!(!str_eq("ab", "abc"));
    assert!(str_eq("", ""));
}
