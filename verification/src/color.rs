use vstd::prelude::*;
use vstd::string::*;

use crate::keys::char_to_string;

verus! {

/// A color as red, green and blue channels of one byte each.
#[derive(Copy, Clone, Debug, Default, PartialEq, Eq)]
pub struct Rgb {
    pub red: u8,
    pub green: u8,
    pub blue: u8,
}

/// Colors Neovim sends as 24-bit integers, shown as `#rrggbb`.
pub trait ColorExt: Sized {
    fn from_u64(u: u64) -> Self;

    fn to_hex(&self) -> String;
}

/// The lower-case hexadecimal digit for `n` (below 16): `0`-`9` are
/// code points 48-57, `a`-`f` 97-102.
pub open spec fn hex_digit(n: int) -> char {
    if n < 10 {
        (48 + n) as char
    } else {
        (87 + n) as char
    }
}

/// A byte as two hexadecimal digits.
pub open spec fn hex_byte(b: u8) -> Seq<char> {
    seq![hex_digit((b / 16) as int), hex_digit((b % 16) as int)]
}

/// A color written `#rrggbb`.
pub open spec fn hex_of(c: Rgb) -> Seq<char> {
    seq!['#'] + hex_byte(c.red) + hex_byte(c.green) + hex_byte(c.blue)
}

fn digit(n: u8) -> (res: char)
    requires
        n < 16,
    ensures
        res == hex_digit(n as int),
{
    if n < 10 {
        (48u8 + n) as char
    } else {
        (87u8 + n) as char
    }
}

fn push_byte(out: &mut String, b: u8)
    ensures
        final(out)@ == old(out)@ + hex_byte(b),
{
    let ghost start = out@;
    out.append(char_to_string(digit(b / 16)).as_str());
    out.append(char_to_string(digit(b % 16)).as_str());
    assert(out@ =~= start + hex_byte(b));
}

impl ColorExt for Rgb {
    /// The color `0xrrggbb`; bits above the lowest 24 are ignored.
    fn from_u64(v: u64) -> (res: Rgb)
        ensures
            res.red == (v / 65536) % 256,
            res.green == (v / 256) % 256,
            res.blue == v % 256,
    {
        Rgb { red: ((v / 65536) % 256) as u8, green: ((v / 256) % 256) as u8, blue: (v % 256) as u8 }
    }

    fn to_hex(&self) -> (res: String)
        ensures
            res@ == hex_of(*self),
    {
        let mut out = char_to_string('#');
        push_byte(&mut out, self.red);
        push_byte(&mut out, self.green);
        push_byte(&mut out, self.blue);
        out
    }
}

} // verus!
