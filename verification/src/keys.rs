use vstd::prelude::*;
use vstd::string::*;

verus! {

/// Compares two strings character by character.
pub fn str_eq(a: &str, b: &str) -> (res: bool)
    ensures
        res == (a@ == b@),
{
    let n = a.unicode_len();
    let m = b.unicode_len();
    if n != m {
        return false;
    }
    let mut i: usize = 0;
    while i < n
        invariant
            n == a@.len(),
            m == b@.len(),
            n == m,
            i <= n,
            forall|j: int| 0 <= j < i ==> a@[j] == b@[j],
        decreases n - i,
    {
        if a.get_char(i) != b.get_char(i) {
            return false;
        }
        i = i + 1;
    }
    assert(a@ =~= b@);
    true
}

/// The name Neovim gives to a GTK key that is more than one character long,
/// if Neovim knows it.
pub open spec fn keyname_spec(name: Seq<char>) -> Option<Seq<char>> {
    if name == "asciicircum"@ {
        Some("^"@)
    } else if name == "slash"@ {
        Some("/"@)
    } else if name == "backslash"@ {
        Some("\\"@)
    } else if name == "dead_circumflex"@ {
        Some("^"@)
    } else if name == "at"@ {
        Some("@"@)
    } else if name == "numbersign"@ {
        Some("#"@)
    } else if name == "colon"@ {
        Some(":"@)
    } else if name == "dollar"@ {
        Some("$"@)
    } else if name == "percent"@ {
        Some("%"@)
    } else if name == "ampersand"@ {
        Some("&"@)
    } else if name == "asterisk"@ {
        Some("*"@)
    } else if name == "parenleft"@ {
        Some("("@)
    } else if name == "parenright"@ {
        Some(")"@)
    } else if name == "underscore"@ {
        Some("_"@)
    } else if name == "plus"@ {
        Some("+"@)
    } else if name == "minus"@ {
        Some("-"@)
    } else if name == "bracketleft"@ {
        Some("["@)
    } else if name == "bracketright"@ {
        Some("]"@)
    } else if name == "braceleft"@ {
        Some("{"@)
    } else if name == "braceright"@ {
        Some("}"@)
    } else if name == "dead_diaeresis"@ {
        Some("\""@)
    } else if name == "dead_acute"@ {
        Some("\'"@)
    } else if name == "less"@ {
        Some("<"@)
    } else if name == "greater"@ {
        Some(">"@)
    } else if name == "comma"@ {
        Some(","@)
    } else if name == "period"@ {
        Some("."@)
    } else if name == "BackSpace"@ {
        Some("BS"@)
    } else if name == "Insert"@ {
        Some("Insert"@)
    } else if name == "Return"@ {
        Some("CR"@)
    } else if name == "Escape"@ {
        Some("Esc"@)
    } else if name == "Delete"@ {
        Some("Del"@)
    } else if name == "Page_Up"@ {
        Some("PageUp"@)
    } else if name == "Page_Down"@ {
        Some("PageDown"@)
    } else if name == "Enter"@ {
        Some("CR"@)
    } else if name == "ISO_Left_Tab"@ {
        Some("Tab"@)
    } else if name == "Tab"@ {
        Some("Tab"@)
    } else if name == "Up"@ {
        Some("Up"@)
    } else if name == "Down"@ {
        Some("Down"@)
    } else if name == "Left"@ {
        Some("Left"@)
    } else if name == "Right"@ {
        Some("Right"@)
    } else if name == "Home"@ {
        Some("Home"@)
    } else if name == "End"@ {
        Some("End"@)
    } else if name == "F1"@ {
        Some("F1"@)
    } else if name == "F2"@ {
        Some("F2"@)
    } else if name == "F3"@ {
        Some("F3"@)
    } else if name == "F4"@ {
        Some("F4"@)
    } else if name == "F5"@ {
        Some("F5"@)
    } else if name == "F6"@ {
        Some("F6"@)
    } else if name == "F7"@ {
        Some("F7"@)
    } else if name == "F8"@ {
        Some("F8"@)
    } else if name == "F9"@ {
        Some("F9"@)
    } else if name == "F10"@ {
        Some("F10"@)
    } else if name == "F11"@ {
        Some("F11"@)
    } else if name == "F12"@ {
        Some("F12"@)
    } else {
        None
    }
}

/// Maps a GTK key name to the name Neovim gives the key in `<...>` notation.
#[verifier::rlimit(50)]
pub fn map_keyname(keyname: String) -> (res: Option<&'static str>)
    ensures
        match res {
            Some(s) => keyname_spec(keyname@) == Some(s@),
            None => keyname_spec(keyname@) is None,
        },
{
    let name = keyname.as_str();
    if str_eq(name, "asciicircum") {
        Some("^")
    } else if str_eq(name, "slash") {
        Some("/")
    } else if str_eq(name, "backslash") {
        Some("\\")
    } else if str_eq(name, "dead_circumflex") {
        Some("^")
    } else if str_eq(name, "at") {
        Some("@")
    } else if str_eq(name, "numbersign") {
        Some("#")
    } else if str_eq(name, "colon") {
        Some(":")
    } else if str_eq(name, "dollar") {
        Some("$")
    } else if str_eq(name, "percent") {
        Some("%")
    } else if str_eq(name, "ampersand") {
        Some("&")
    } else if str_eq(name, "asterisk") {
        Some("*")
    } else if str_eq(name, "parenleft") {
        Some("(")
    } else if str_eq(name, "parenright") {
        Some(")")
    } else if str_eq(name, "underscore") {
        Some("_")
    } else if str_eq(name, "plus") {
        Some("+")
    } else if str_eq(name, "minus") {
        Some("-")
    } else if str_eq(name, "bracketleft") {
        Some("[")
    } else if str_eq(name, "bracketright") {
        Some("]")
    } else if str_eq(name, "braceleft") {
        Some("{")
    } else if str_eq(name, "braceright") {
        Some("}")
    } else if str_eq(name, "dead_diaeresis") {
        Some("\"")
    } else if str_eq(name, "dead_acute") {
        Some("\'")
    } else if str_eq(name, "less") {
        Some("<")
    } else if str_eq(name, "greater") {
        Some(">")
    } else if str_eq(name, "comma") {
        Some(",")
    } else if str_eq(name, "period") {
        Some(".")
    } else if str_eq(name, "BackSpace") {
        Some("BS")
    } else if str_eq(name, "Insert") {
        Some("Insert")
    } else if str_eq(name, "Return") {
        Some("CR")
    } else if str_eq(name, "Escape") {
        Some("Esc")
    } else if str_eq(name, "Delete") {
        Some("Del")
    } else if str_eq(name, "Page_Up") {
        Some("PageUp")
    } else if str_eq(name, "Page_Down") {
        Some("PageDown")
    } else if str_eq(name, "Enter") {
        Some("CR")
    } else if str_eq(name, "ISO_Left_Tab") {
        Some("Tab")
    } else if str_eq(name, "Tab") {
        Some("Tab")
    } else if str_eq(name, "Up") {
        Some("Up")
    } else if str_eq(name, "Down") {
        Some("Down")
    } else if str_eq(name, "Left") {
        Some("Left")
    } else if str_eq(name, "Right") {
        Some("Right")
    } else if str_eq(name, "Home") {
        Some("Home")
    } else if str_eq(name, "End") {
        Some("End")
    } else if str_eq(name, "F1") {
        Some("F1")
    } else if str_eq(name, "F2") {
        Some("F2")
    } else if str_eq(name, "F3") {
        Some("F3")
    } else if str_eq(name, "F4") {
        Some("F4")
    } else if str_eq(name, "F5") {
        Some("F5")
    } else if str_eq(name, "F6") {
        Some("F6")
    } else if str_eq(name, "F7") {
        Some("F7")
    } else if str_eq(name, "F8") {
        Some("F8")
    } else if str_eq(name, "F9") {
        Some("F9")
    } else if str_eq(name, "F10") {
        Some("F10")
    } else if str_eq(name, "F11") {
        Some("F11")
    } else if str_eq(name, "F12") {
        Some("F12")
    } else {
        None
    }
}

/// Produces the Neovim input notation of a key or modifier state.
pub trait ToInput {
    fn to_input(&self) -> Option<String>;
}

/// The keyboard modifiers held during a key press.  `others` stands for any
/// modifier besides the four that Neovim is told about (Caps Lock, a held
/// mouse button, ...).
#[derive(Copy, Clone, Debug, Default, PartialEq, Eq)]
pub struct Modifiers {
    pub shift: bool,
    pub control: bool,
    pub alt: bool,
    pub super_: bool,
    pub others: bool,
}

impl Modifiers {
    /// Whether no modifier at all is held.
    pub open spec fn none_held(self) -> bool {
        !self.shift && !self.control && !self.alt && !self.super_ && !self.others
    }

    /// The prefix Neovim expects for the held modifiers, as in `<S-C-x>`.
    pub open spec fn prefix(self) -> Seq<char> {
        (if self.shift { "S-"@ } else { Seq::empty() }) + (if self.control { "C-"@ } else {
            Seq::empty()
        }) + (if self.alt { "A-"@ } else { Seq::empty() }) + (if self.super_ { "M-"@ } else {
            Seq::empty()
        })
    }

    pub fn is_empty(&self) -> (res: bool)
        ensures
            res == self.none_held(),
    {
        !self.shift && !self.control && !self.alt && !self.super_ && !self.others
    }
}

impl ToInput for Modifiers {
    /// Always the prefix of the held modifiers (possibly empty).
    fn to_input(&self) -> (res: Option<String>)
        ensures
            res matches Some(s) && s@ == self.prefix(),
    {
        let mut input = String::new();
        if self.shift {
            input.append("S-");
        }
        if self.control {
            input.append("C-");
        }
        if self.alt {
            input.append("A-");
        }
        if self.super_ {
            input.append("M-");
        }
        Some(input)
    }
}

/// A key press: the GTK name of the key, the character it types (if any) and
/// the modifiers held.
#[derive(Clone, Debug, PartialEq, Eq)]
pub struct KeyPress {
    pub name: String,
    pub unicode: Option<char>,
    pub modifiers: Modifiers,
}

/// What Neovim is sent for a key press, or `None` when the key has no Neovim name.
pub open spec fn key_input_spec(name: Seq<char>, unicode: Option<char>, modifiers: Modifiers) -> Option<Seq<char>> {
    if name.len() > 1 {
        match keyname_spec(name) {
            Some(k) => Some("<"@ + modifiers.prefix() + k + ">"@),
            None => None,
        }
    } else if !modifiers.none_held() {
        Some("<"@ + modifiers.prefix() + seq![unicode.unwrap()] + ">"@)
    } else {
        Some(seq![unicode.unwrap()])
    }
}

/// `char::to_string`.
#[verifier::external_body]
pub(crate) fn char_to_string(c: char) -> (res: String)
    ensures
        res@ == seq![c],
{
    c.to_string()
}

impl KeyPress {
    /// A key whose name is a single character must type a character.
    pub open spec fn well_formed(self) -> bool {
        self.name@.len() <= 1 ==> self.unicode is Some
    }
}

impl ToInput for KeyPress {
    fn to_input(&self) -> (res: Option<String>)
        ensures
            self.well_formed() ==> match res {
                Some(s) => key_input_spec(self.name@, self.unicode, self.modifiers) == Some(s@),
                None => key_input_spec(self.name@, self.unicode, self.modifiers) is None,
            },
            !self.well_formed() ==> res is None,
    {
        let modkey = match self.modifiers.to_input() {
            Some(m) => m,
            None => return None,
        };
        if self.name.as_str().unicode_len() > 1 {
            let mapped = match map_keyname(self.name.clone()) {
                Some(k) => k,
                None => return None,
            };
            let mut out = String::new();
            out.append("<");
            out.append(modkey.as_str());
            out.append(mapped);
            out.append(">");
            Some(out)
        } else {
            let k = match self.unicode {
                Some(c) => char_to_string(c),
                None => return None,
            };
            if !self.modifiers.is_empty() {
                let mut out = String::new();
                out.append("<");
                out.append(modkey.as_str());
                out.append(k.as_str());
                out.append(">");
                Some(out)
            } else {
                Some(k)
            }
        }
    }
}

/// The names Neovim gives the GTK keys it knows: the punctuation keys GTK
/// names by word are sent as the character itself, and each special key by
/// its Neovim name (`Delete` as `Del`, `BackSpace` as `BS`, `Return` and
/// `Enter` both as `CR`, and so on).
#[verifier::rlimit(100)]
pub proof fn lemma_key_names()
    ensures
        keyname_spec("asciicircum"@) == Some("^"@),
        keyname_spec("slash"@) == Some("/"@),
        keyname_spec("backslash"@) == Some("\\"@),
        keyname_spec("dead_circumflex"@) == Some("^"@),
        keyname_spec("at"@) == Some("@"@),
        keyname_spec("numbersign"@) == Some("#"@),
        keyname_spec("colon"@) == Some(":"@),
        keyname_spec("dollar"@) == Some("$"@),
        keyname_spec("percent"@) == Some("%"@),
        keyname_spec("ampersand"@) == Some("&"@),
        keyname_spec("asterisk"@) == Some("*"@),
        keyname_spec("parenleft"@) == Some("("@),
        keyname_spec("parenright"@) == Some(")"@),
        keyname_spec("underscore"@) == Some("_"@),
        keyname_spec("plus"@) == Some("+"@),
        keyname_spec("minus"@) == Some("-"@),
        keyname_spec("bracketleft"@) == Some("["@),
        keyname_spec("bracketright"@) == Some("]"@),
        keyname_spec("braceleft"@) == Some("{"@),
        keyname_spec("braceright"@) == Some("}"@),
        keyname_spec("dead_diaeresis"@) == Some("\""@),
        keyname_spec("dead_acute"@) == Some("\'"@),
        keyname_spec("less"@) == Some("<"@),
        keyname_spec("greater"@) == Some(">"@),
        keyname_spec("comma"@) == Some(","@),
        keyname_spec("period"@) == Some("."@),
        keyname_spec("BackSpace"@) == Some("BS"@),
        keyname_spec("Insert"@) == Some("Insert"@),
        keyname_spec("Return"@) == Some("CR"@),
        keyname_spec("Escape"@) == Some("Esc"@),
        keyname_spec("Delete"@) == Some("Del"@),
        keyname_spec("Page_Up"@) == Some("PageUp"@),
        keyname_spec("Page_Down"@) == Some("PageDown"@),
        keyname_spec("Enter"@) == Some("CR"@),
        keyname_spec("ISO_Left_Tab"@) == Some("Tab"@),
        keyname_spec("Tab"@) == Some("Tab"@),
        keyname_spec("Up"@) == Some("Up"@),
        keyname_spec("Down"@) == Some("Down"@),
        keyname_spec("Left"@) == Some("Left"@),
        keyname_spec("Right"@) == Some("Right"@),
        keyname_spec("Home"@) == Some("Home"@),
        keyname_spec("End"@) == Some("End"@),
        keyname_spec("F1"@) == Some("F1"@),
        keyname_spec("F2"@) == Some("F2"@),
        keyname_spec("F3"@) == Some("F3"@),
        keyname_spec("F4"@) == Some("F4"@),
        keyname_spec("F5"@) == Some("F5"@),
        keyname_spec("F6"@) == Some("F6"@),
        keyname_spec("F7"@) == Some("F7"@),
        keyname_spec("F8"@) == Some("F8"@),
        keyname_spec("F9"@) == Some("F9"@),
        keyname_spec("F10"@) == Some("F10"@),
        keyname_spec("F11"@) == Some("F11"@),
        keyname_spec("F12"@) == Some("F12"@),
{
    reveal_strlit("asciicircum");
    assert("asciicircum"@.len() == 11 && "asciicircum"@[0] == 'a' && "asciicircum"@[1] == 's' && "asciicircum"@[2] == 'c' && "asciicircum"@[3] == 'i' && "asciicircum"@[4] == 'i' && "asciicircum"@[5] == 'c' && "asciicircum"@[6] == 'i' && "asciicircum"@[7] == 'r' && "asciicircum"@[8] == 'c' && "asciicircum"@[9] == 'u' && "asciicircum"@[10] == 'm');
    reveal_strlit("slash");
    assert("slash"@.len() == 5 && "slash"@[0] == 's' && "slash"@[1] == 'l' && "slash"@[2] == 'a' && "slash"@[3] == 's' && "slash"@[4] == 'h');
    reveal_strlit("backslash");
    assert("backslash"@.len() == 9 && "backslash"@[0] == 'b' && "backslash"@[1] == 'a' && "backslash"@[2] == 'c' && "backslash"@[3] == 'k' && "backslash"@[4] == 's' && "backslash"@[5] == 'l' && "backslash"@[6] == 'a' && "backslash"@[7] == 's' && "backslash"@[8] == 'h');
    reveal_strlit("dead_circumflex");
    assert("dead_circumflex"@.len() == 15 && "dead_circumflex"@[0] == 'd' && "dead_circumflex"@[1] == 'e' && "dead_circumflex"@[2] == 'a' && "dead_circumflex"@[3] == 'd' && "dead_circumflex"@[4] == '_' && "dead_circumflex"@[5] == 'c' && "dead_circumflex"@[6] == 'i' && "dead_circumflex"@[7] == 'r' && "dead_circumflex"@[8] == 'c' && "dead_circumflex"@[9] == 'u' && "dead_circumflex"@[10] == 'm' && "dead_circumflex"@[11] == 'f' && "dead_circumflex"@[12] == 'l' && "dead_circumflex"@[13] == 'e' && "dead_circumflex"@[14] == 'x');
    reveal_strlit("at");
    assert("at"@.len() == 2 && "at"@[0] == 'a' && "at"@[1] == 't');
    reveal_strlit("numbersign");
    assert("numbersign"@.len() == 10 && "numbersign"@[0] == 'n' && "numbersign"@[1] == 'u' && "numbersign"@[2] == 'm' && "numbersign"@[3] == 'b' && "numbersign"@[4] == 'e' && "numbersign"@[5] == 'r' && "numbersign"@[6] == 's' && "numbersign"@[7] == 'i' && "numbersign"@[8] == 'g' && "numbersign"@[9] == 'n');
    reveal_strlit("colon");
    assert("colon"@.len() == 5 && "colon"@[0] == 'c' && "colon"@[1] == 'o' && "colon"@[2] == 'l' && "colon"@[3] == 'o' && "colon"@[4] == 'n');
    reveal_strlit("dollar");
    assert("dollar"@.len() == 6 && "dollar"@[0] == 'd' && "dollar"@[1] == 'o' && "dollar"@[2] == 'l' && "dollar"@[3] == 'l' && "dollar"@[4] == 'a' && "dollar"@[5] == 'r');
    reveal_strlit("percent");
    assert("percent"@.len() == 7 && "percent"@[0] == 'p' && "percent"@[1] == 'e' && "percent"@[2] == 'r' && "percent"@[3] == 'c' && "percent"@[4] == 'e' && "percent"@[5] == 'n' && "percent"@[6] == 't');
    reveal_strlit("ampersand");
    assert("ampersand"@.len() == 9 && "ampersand"@[0] == 'a' && "ampersand"@[1] == 'm' && "ampersand"@[2] == 'p' && "ampersand"@[3] == 'e' && "ampersand"@[4] == 'r' && "ampersand"@[5] == 's' && "ampersand"@[6] == 'a' && "ampersand"@[7] == 'n' && "ampersand"@[8] == 'd');
    reveal_strlit("asterisk");
    assert("asterisk"@.len() == 8 && "asterisk"@[0] == 'a' && "asterisk"@[1] == 's' && "asterisk"@[2] == 't' && "asterisk"@[3] == 'e' && "asterisk"@[4] == 'r' && "asterisk"@[5] == 'i' && "asterisk"@[6] == 's' && "asterisk"@[7] == 'k');
    reveal_strlit("parenleft");
    assert("parenleft"@.len() == 9 && "parenleft"@[0] == 'p' && "parenleft"@[1] == 'a' && "parenleft"@[2] == 'r' && "parenleft"@[3] == 'e' && "parenleft"@[4] == 'n' && "parenleft"@[5] == 'l' && "parenleft"@[6] == 'e' && "parenleft"@[7] == 'f' && "parenleft"@[8] == 't');
    reveal_strlit("parenright");
    assert("parenright"@.len() == 10 && "parenright"@[0] == 'p' && "parenright"@[1] == 'a' && "parenright"@[2] == 'r' && "parenright"@[3] == 'e' && "parenright"@[4] == 'n' && "parenright"@[5] == 'r' && "parenright"@[6] == 'i' && "parenright"@[7] == 'g' && "parenright"@[8] == 'h' && "parenright"@[9] == 't');
    reveal_strlit("underscore");
    assert("underscore"@.len() == 10 && "underscore"@[0] == 'u' && "underscore"@[1] == 'n' && "underscore"@[2] == 'd' && "underscore"@[3] == 'e' && "underscore"@[4] == 'r' && "underscore"@[5] == 's' && "underscore"@[6] == 'c' && "underscore"@[7] == 'o' && "underscore"@[8] == 'r' && "underscore"@[9] == 'e');
    reveal_strlit("plus");
    assert("plus"@.len() == 4 && "plus"@[0] == 'p' && "plus"@[1] == 'l' && "plus"@[2] == 'u' && "plus"@[3] == 's');
    reveal_strlit("minus");
    assert("minus"@.len() == 5 && "minus"@[0] == 'm' && "minus"@[1] == 'i' && "minus"@[2] == 'n' && "minus"@[3] == 'u' && "minus"@[4] == 's');
    reveal_strlit("bracketleft");
    assert("bracketleft"@.len() == 11 && "bracketleft"@[0] == 'b' && "bracketleft"@[1] == 'r' && "bracketleft"@[2] == 'a' && "bracketleft"@[3] == 'c' && "bracketleft"@[4] == 'k' && "bracketleft"@[5] == 'e' && "bracketleft"@[6] == 't' && "bracketleft"@[7] == 'l' && "bracketleft"@[8] == 'e' && "bracketleft"@[9] == 'f' && "bracketleft"@[10] == 't');
    reveal_strlit("bracketright");
    assert("bracketright"@.len() == 12 && "bracketright"@[0] == 'b' && "bracketright"@[1] == 'r' && "bracketright"@[2] == 'a' && "bracketright"@[3] == 'c' && "bracketright"@[4] == 'k' && "bracketright"@[5] == 'e' && "bracketright"@[6] == 't' && "bracketright"@[7] == 'r' && "bracketright"@[8] == 'i' && "bracketright"@[9] == 'g' && "bracketright"@[10] == 'h' && "bracketright"@[11] == 't');
    reveal_strlit("braceleft");
    assert("braceleft"@.len() == 9 && "braceleft"@[0] == 'b' && "braceleft"@[1] == 'r' && "braceleft"@[2] == 'a' && "braceleft"@[3] == 'c' && "braceleft"@[4] == 'e' && "braceleft"@[5] == 'l' && "braceleft"@[6] == 'e' && "braceleft"@[7] == 'f' && "braceleft"@[8] == 't');
    reveal_strlit("braceright");
    assert("braceright"@.len() == 10 && "braceright"@[0] == 'b' && "braceright"@[1] == 'r' && "braceright"@[2] == 'a' && "braceright"@[3] == 'c' && "braceright"@[4] == 'e' && "braceright"@[5] == 'r' && "braceright"@[6] == 'i' && "braceright"@[7] == 'g' && "braceright"@[8] == 'h' && "braceright"@[9] == 't');
    reveal_strlit("dead_diaeresis");
    assert("dead_diaeresis"@.len() == 14 && "dead_diaeresis"@[0] == 'd' && "dead_diaeresis"@[1] == 'e' && "dead_diaeresis"@[2] == 'a' && "dead_diaeresis"@[3] == 'd' && "dead_diaeresis"@[4] == '_' && "dead_diaeresis"@[5] == 'd' && "dead_diaeresis"@[6] == 'i' && "dead_diaeresis"@[7] == 'a' && "dead_diaeresis"@[8] == 'e' && "dead_diaeresis"@[9] == 'r' && "dead_diaeresis"@[10] == 'e' && "dead_diaeresis"@[11] == 's' && "dead_diaeresis"@[12] == 'i' && "dead_diaeresis"@[13] == 's');
    reveal_strlit("dead_acute");
    assert("dead_acute"@.len() == 10 && "dead_acute"@[0] == 'd' && "dead_acute"@[1] == 'e' && "dead_acute"@[2] == 'a' && "dead_acute"@[3] == 'd' && "dead_acute"@[4] == '_' && "dead_acute"@[5] == 'a' && "dead_acute"@[6] == 'c' && "dead_acute"@[7] == 'u' && "dead_acute"@[8] == 't' && "dead_acute"@[9] == 'e');
    reveal_strlit("less");
    assert("less"@.len() == 4 && "less"@[0] == 'l' && "less"@[1] == 'e' && "less"@[2] == 's' && "less"@[3] == 's');
    reveal_strlit("greater");
    assert("greater"@.len() == 7 && "greater"@[0] == 'g' && "greater"@[1] == 'r' && "greater"@[2] == 'e' && "greater"@[3] == 'a' && "greater"@[4] == 't' && "greater"@[5] == 'e' && "greater"@[6] == 'r');
    reveal_strlit("comma");
    assert("comma"@.len() == 5 && "comma"@[0] == 'c' && "comma"@[1] == 'o' && "comma"@[2] == 'm' && "comma"@[3] == 'm' && "comma"@[4] == 'a');
    reveal_strlit("period");
    assert("period"@.len() == 6 && "period"@[0] == 'p' && "period"@[1] == 'e' && "period"@[2] == 'r' && "period"@[3] == 'i' && "period"@[4] == 'o' && "period"@[5] == 'd');
    reveal_strlit("BackSpace");
    assert("BackSpace"@.len() == 9 && "BackSpace"@[0] == 'B' && "BackSpace"@[1] == 'a' && "BackSpace"@[2] == 'c' && "BackSpace"@[3] == 'k' && "BackSpace"@[4] == 'S' && "BackSpace"@[5] == 'p' && "BackSpace"@[6] == 'a' && "BackSpace"@[7] == 'c' && "BackSpace"@[8] == 'e');
    reveal_strlit("Insert");
    assert("Insert"@.len() == 6 && "Insert"@[0] == 'I' && "Insert"@[1] == 'n' && "Insert"@[2] == 's' && "Insert"@[3] == 'e' && "Insert"@[4] == 'r' && "Insert"@[5] == 't');
    reveal_strlit("Return");
    assert("Return"@.len() == 6 && "Return"@[0] == 'R' && "Return"@[1] == 'e' && "Return"@[2] == 't' && "Return"@[3] == 'u' && "Return"@[4] == 'r' && "Return"@[5] == 'n');
    reveal_strlit("Escape");
    assert("Escape"@.len() == 6 && "Escape"@[0] == 'E' && "Escape"@[1] == 's' && "Escape"@[2] == 'c' && "Escape"@[3] == 'a' && "Escape"@[4] == 'p' && "Escape"@[5] == 'e');
    reveal_strlit("Delete");
    assert("Delete"@.len() == 6 && "Delete"@[0] == 'D' && "Delete"@[1] == 'e' && "Delete"@[2] == 'l' && "Delete"@[3] == 'e' && "Delete"@[4] == 't' && "Delete"@[5] == 'e');
    reveal_strlit("Page_Up");
    assert("Page_Up"@.len() == 7 && "Page_Up"@[0] == 'P' && "Page_Up"@[1] == 'a' && "Page_Up"@[2] == 'g' && "Page_Up"@[3] == 'e' && "Page_Up"@[4] == '_' && "Page_Up"@[5] == 'U' && "Page_Up"@[6] == 'p');
    reveal_strlit("Page_Down");
    assert("Page_Down"@.len() == 9 && "Page_Down"@[0] == 'P' && "Page_Down"@[1] == 'a' && "Page_Down"@[2] == 'g' && "Page_Down"@[3] == 'e' && "Page_Down"@[4] == '_' && "Page_Down"@[5] == 'D' && "Page_Down"@[6] == 'o' && "Page_Down"@[7] == 'w' && "Page_Down"@[8] == 'n');
    reveal_strlit("Enter");
    assert("Enter"@.len() == 5 && "Enter"@[0] == 'E' && "Enter"@[1] == 'n' && "Enter"@[2] == 't' && "Enter"@[3] == 'e' && "Enter"@[4] == 'r');
    reveal_strlit("ISO_Left_Tab");
    assert("ISO_Left_Tab"@.len() == 12 && "ISO_Left_Tab"@[0] == 'I' && "ISO_Left_Tab"@[1] == 'S' && "ISO_Left_Tab"@[2] == 'O' && "ISO_Left_Tab"@[3] == '_' && "ISO_Left_Tab"@[4] == 'L' && "ISO_Left_Tab"@[5] == 'e' && "ISO_Left_Tab"@[6] == 'f' && "ISO_Left_Tab"@[7] == 't' && "ISO_Left_Tab"@[8] == '_' && "ISO_Left_Tab"@[9] == 'T' && "ISO_Left_Tab"@[10] == 'a' && "ISO_Left_Tab"@[11] == 'b');
    reveal_strlit("Tab");
    assert("Tab"@.len() == 3 && "Tab"@[0] == 'T' && "Tab"@[1] == 'a' && "Tab"@[2] == 'b');
    reveal_strlit("Up");
    assert("Up"@.len() == 2 && "Up"@[0] == 'U' && "Up"@[1] == 'p');
    reveal_strlit("Down");
    assert("Down"@.len() == 4 && "Down"@[0] == 'D' && "Down"@[1] == 'o' && "Down"@[2] == 'w' && "Down"@[3] == 'n');
    reveal_strlit("Left");
    assert("Left"@.len() == 4 && "Left"@[0] == 'L' && "Left"@[1] == 'e' && "Left"@[2] == 'f' && "Left"@[3] == 't');
    reveal_strlit("Right");
    assert("Right"@.len() == 5 && "Right"@[0] == 'R' && "Right"@[1] == 'i' && "Right"@[2] == 'g' && "Right"@[3] == 'h' && "Right"@[4] == 't');
    reveal_strlit("Home");
    assert("Home"@.len() == 4 && "Home"@[0] == 'H' && "Home"@[1] == 'o' && "Home"@[2] == 'm' && "Home"@[3] == 'e');
    reveal_strlit("End");
    assert("End"@.len() == 3 && "End"@[0] == 'E' && "End"@[1] == 'n' && "End"@[2] == 'd');
    reveal_strlit("F1");
    assert("F1"@.len() == 2 && "F1"@[0] == 'F' && "F1"@[1] == '1');
    reveal_strlit("F2");
    assert("F2"@.len() == 2 && "F2"@[0] == 'F' && "F2"@[1] == '2');
    reveal_strlit("F3");
    assert("F3"@.len() == 2 && "F3"@[0] == 'F' && "F3"@[1] == '3');
    reveal_strlit("F4");
    assert("F4"@.len() == 2 && "F4"@[0] == 'F' && "F4"@[1] == '4');
    reveal_strlit("F5");
    assert("F5"@.len() == 2 && "F5"@[0] == 'F' && "F5"@[1] == '5');
    reveal_strlit("F6");
    assert("F6"@.len() == 2 && "F6"@[0] == 'F' && "F6"@[1] == '6');
    reveal_strlit("F7");
    assert("F7"@.len() == 2 && "F7"@[0] == 'F' && "F7"@[1] == '7');
    reveal_strlit("F8");
    assert("F8"@.len() == 2 && "F8"@[0] == 'F' && "F8"@[1] == '8');
    reveal_strlit("F9");
    assert("F9"@.len() == 2 && "F9"@[0] == 'F' && "F9"@[1] == '9');
    reveal_strlit("F10");
    assert("F10"@.len() == 3 && "F10"@[0] == 'F' && "F10"@[1] == '1' && "F10"@[2] == '0');
    reveal_strlit("F11");
    assert("F11"@.len() == 3 && "F11"@[0] == 'F' && "F11"@[1] == '1' && "F11"@[2] == '1');
    reveal_strlit("F12");
    assert("F12"@.len() == 3 && "F12"@[0] == 'F' && "F12"@[1] == '1' && "F12"@[2] == '2');
}

/// A key press whose GTK name is longer than one character is sent as its
/// Neovim name in angle brackets, after the prefix of the held modifiers,
/// whatever character it types; a name Neovim does not know sends nothing.
/// A key named by one character sends that character, in angle brackets
/// after the prefix when a modifier is held.
pub proof fn lemma_key_input(name: Seq<char>, c: char, modifiers: Modifiers)
    ensures
        name.len() > 1 && keyname_spec(name) is Some ==> key_input_spec(name, Some(c), modifiers) == Some(
            "<"@ + modifiers.prefix() + keyname_spec(name)->0 + ">"@,
        ),
        name.len() > 1 && keyname_spec(name) is None ==> key_input_spec(name, Some(c), modifiers) is None,
        name.len() <= 1 && modifiers.none_held() ==> key_input_spec(name, Some(c), modifiers) == Some(seq![c]),
        name.len() <= 1 && !modifiers.none_held() ==> key_input_spec(name, Some(c), modifiers) == Some(
            "<"@ + modifiers.prefix() + seq![c] + ">"@,
        ),
{
}

/// The modifiers are written shift, control, alt, super, in that order, each
/// as its letter and a dash; any other modifier is not written.
pub proof fn lemma_modifier_prefix(m: Modifiers)
    ensures
        m.prefix() == (if m.shift { seq!['S', '-'] } else { Seq::empty() }) + (if m.control { seq!['C', '-'] } else {
            Seq::empty()
        }) + (if m.alt { seq!['A', '-'] } else { Seq::empty() }) + (if m.super_ { seq!['M', '-'] } else { Seq::empty() }),
{
    reveal_strlit("S-");
    reveal_strlit("C-");
    reveal_strlit("A-");
    reveal_strlit("M-");
    assert("S-"@ =~= seq!['S', '-']);
    assert("C-"@ =~= seq!['C', '-']);
    assert("A-"@ =~= seq!['A', '-']);
    assert("M-"@ =~= seq!['M', '-']);
}

} // verus!
