//! RGB colors sent to the lighting zone, and their textual forms.
use vstd::prelude::*;
use vstd::utf8::is_ascii_chars;
use crate::text::{eq_str, is_ws, lower, lower_chars, slice_chars, trim, trim_end, trim_start, trim_str};

verus! {

/// An 8-bit RGB color.
#[derive(Debug, Clone, Copy, PartialEq, Eq, Structural)]
pub struct HueColor {
    pub red: u8,
    pub green: u8,
    pub blue: u8,
}

/// The named colors accepted by `HueColor::parse_named`.
pub open spec fn named_color(name: Seq<char>) -> Option<HueColor> {
    if name == "red"@ {
        Some(HueColor { red: 255, green: 0, blue: 0 })
    } else if name == "green"@ {
        Some(HueColor { red: 0, green: 255, blue: 0 })
    } else if name == "blue"@ {
        Some(HueColor { red: 0, green: 0, blue: 255 })
    } else if name == "white"@ {
        Some(HueColor { red: 255, green: 255, blue: 255 })
    } else {
        None
    }
}

/// Value of one hexadecimal digit (either case).
pub open spec fn hex_digit(c: char) -> Option<u8> {
    if '0' <= c && c <= '9' {
        Some(((c as u32) - 48) as u8)
    } else if 'a' <= c && c <= 'f' {
        Some(((c as u32) - 87) as u8)
    } else if 'A' <= c && c <= 'F' {
        Some(((c as u32) - 55) as u8)
    } else {
        None
    }
}

/// `u8::from_str_radix` on a two-character string in base 16: two digits, or a `+`
/// sign followed by one digit.
pub open spec fn hex_pair(c1: char, c2: char) -> Option<u8> {
    if c1 == '+' {
        hex_digit(c2)
    } else {
        match (hex_digit(c1), hex_digit(c2)) {
            (Some(a), Some(b)) => Some((a * 16 + b) as u8),
            _ => None,
        }
    }
}

/// `s` without one leading `#`.
pub open spec fn strip_hash(s: Seq<char>) -> Seq<char> {
    if s.len() > 0 && s[0] == '#' {
        s.drop_first()
    } else {
        s
    }
}

/// The color written as six hexadecimal digits, with an optional leading `#`.
pub open spec fn hex_color(text: Seq<char>) -> Option<HueColor> {
    let v = strip_hash(trim(text));
    if v.len() != 6 || !is_ascii_chars(v) {
        None
    } else {
        match (hex_pair(v[0], v[1]), hex_pair(v[2], v[3]), hex_pair(v[4], v[5])) {
            (Some(r), Some(g), Some(b)) => Some(HueColor { red: r, green: g, blue: b }),
            _ => None,
        }
    }
}

/// A named color or, failing that, a hexadecimal one.
pub open spec fn parsed_color(text: Seq<char>) -> Option<HueColor> {
    match named_color(lower(trim(text))) {
        Some(c) => Some(c),
        None => hex_color(text),
    }
}

fn hex_digit_exec(c: char) -> (r: Option<u8>)
    ensures
        r == hex_digit(c),
{
    let v = c as u32;
    if '0' <= c && c <= '9' {
        Some((v - 48) as u8)
    } else if 'a' <= c && c <= 'f' {
        Some((v - 87) as u8)
    } else if 'A' <= c && c <= 'F' {
        Some((v - 55) as u8)
    } else {
        None
    }
}

/// Base-16 value of a two-character string, as `u8::from_str_radix` reads it.
pub fn hex_pair_exec(c1: char, c2: char) -> (r: Option<u8>)
    ensures
        r == hex_pair(c1, c2),
{
    if c1 == '+' {
        hex_digit_exec(c2)
    } else {
        match (hex_digit_exec(c1), hex_digit_exec(c2)) {
            (Some(a), Some(b)) => Some(a * 16 + b),
            _ => None,
        }
    }
}

/// `str::is_ascii` on a character sequence.
pub fn all_ascii(s: &[char]) -> (r: bool)
    ensures
        r == is_ascii_chars(s@),
{
    for i in 0..s.len()
        invariant
            forall|k: int| 0 <= k < i ==> '\0' <= #[trigger] s@[k] <= '\u{7f}',
    {
        let c = s[i];
        if !('\0' <= c && c <= '\u{7f}') {
            return false;
        }
    }
    true
}

impl HueColor {
    /// Full red (`HueColor::RED` of the named colors).
    pub fn red() -> (c: HueColor)
        ensures
            c == (HueColor { red: 255, green: 0, blue: 0 }),
    {
        HueColor { red: 255, green: 0, blue: 0 }
    }

    /// Full green.
    pub fn green() -> (c: HueColor)
        ensures
            c == (HueColor { red: 0, green: 255, blue: 0 }),
    {
        HueColor { red: 0, green: 255, blue: 0 }
    }

    /// Full blue.
    pub fn blue() -> (c: HueColor)
        ensures
            c == (HueColor { red: 0, green: 0, blue: 255 }),
    {
        HueColor { red: 0, green: 0, blue: 255 }
    }

    /// Full white.
    pub fn white() -> (c: HueColor)
        ensures
            c == (HueColor { red: 255, green: 255, blue: 255 }),
    {
        HueColor { red: 255, green: 255, blue: 255 }
    }

    /// `red`, `green`, `blue` or `white`, ignoring ASCII case and surrounding white space.
    pub fn parse_named(value: &str) -> (r: Option<HueColor>)
        ensures
            r == named_color(lower(trim(value@))),
    {
        let t = trim_str(value);
        let n = lower_chars(&t);
        if eq_str(&n, "red") {
            Some(HueColor { red: 255, green: 0, blue: 0 })
        } else if eq_str(&n, "green") {
            Some(HueColor { red: 0, green: 255, blue: 0 })
        } else if eq_str(&n, "blue") {
            Some(HueColor { red: 0, green: 0, blue: 255 })
        } else if eq_str(&n, "white") {
            Some(HueColor { red: 255, green: 255, blue: 255 })
        } else {
            None
        }
    }

    /// A named color, or else `#rrggbb` / `rrggbb` in hexadecimal.
    pub fn parse(value: &str) -> (r: Option<HueColor>)
        ensures
            r == parsed_color(value@),
    {
        match Self::parse_named(value) {
            Some(c) => Some(c),
            None => Self::parse_hex(value),
        }
    }

    /// Six hexadecimal digits with an optional leading `#`.
    pub fn parse_hex(value: &str) -> (r: Option<HueColor>)
        ensures
            r == hex_color(value@),
    {
        let t = trim_str(value);
        let v = if t.len() > 0 && t[0] == '#' {
            slice_chars(&t, 1, t.len())
        } else {
            t
        };
        assert(v@ == strip_hash(trim(value@)));
        if v.len() != 6 || !all_ascii(&v) {
            return None;
        }
        let r = hex_pair_exec(v[0], v[1]);
        let g = hex_pair_exec(v[2], v[3]);
        let b = hex_pair_exec(v[4], v[5]);
        match (r, g, b) {
            (Some(r), Some(g), Some(b)) => Some(HueColor { red: r, green: g, blue: b }),
            _ => None,
        }
    }
}


/// The hexadecimal digit for `n` (below 16), in upper or lower case.
pub open spec fn hex_char(n: int, upper: bool) -> char {
    if n < 10 {
        (48 + n) as char
    } else if upper {
        (55 + n) as char
    } else {
        (87 + n) as char
    }
}

/// A channel value as two hexadecimal digits.
pub open spec fn hex_byte(v: u8, upper: bool) -> Seq<char> {
    seq![hex_char(v as int / 16, upper), hex_char(v as int % 16, upper)]
}

/// A color as six hexadecimal digits (`{:02x}` or `{:02X}` of each channel).
pub open spec fn hex_text(c: HueColor, upper: bool) -> Seq<char> {
    hex_byte(c.red, upper) + hex_byte(c.green, upper) + hex_byte(c.blue, upper)
}

/// A hexadecimal digit reads back as its value, and is neither white space nor `#` nor `+`.
proof fn lemma_hex_char(n: int, upper: bool)
    requires
        0 <= n < 16,
    ensures
        hex_digit(hex_char(n, upper)) == Some(n as u8),
        !is_ws(hex_char(n, upper)),
        hex_char(n, upper) != '#',
        hex_char(n, upper) != '+',
        '\0' <= hex_char(n, upper) <= '\u{7f}',
{
}

/// Two hexadecimal digits read back as the channel value.
proof fn lemma_hex_byte(v: u8, upper: bool)
    ensures
        hex_pair(hex_byte(v, upper)[0], hex_byte(v, upper)[1]) == Some(v),
        !is_ws(hex_byte(v, upper)[0]) && !is_ws(hex_byte(v, upper)[1]),
        hex_byte(v, upper)[0] != '#' && hex_byte(v, upper)[0] != '+',
        '\0' <= hex_byte(v, upper)[0] <= '\u{7f}' && '\0' <= hex_byte(v, upper)[1] <= '\u{7f}',
{
    lemma_hex_char(v as int / 16, upper);
    lemma_hex_char(v as int % 16, upper);
}

/// A six-digit text reads back as the color it was made from.
proof fn lemma_hex_color(c: HueColor, upper: bool, v: Seq<char>)
    requires
        v == hex_text(c, upper),
    ensures
        v.len() == 6,
        is_ascii_chars(v),
        forall|i: int| 0 <= i < 6 ==> !is_ws(#[trigger] v[i]),
        v[0] != '#',
        match (hex_pair(v[0], v[1]), hex_pair(v[2], v[3]), hex_pair(v[4], v[5])) {
            (Some(r), Some(g), Some(b)) => HueColor { red: r, green: g, blue: b } == c,
            _ => false,
        },
{
    lemma_hex_byte(c.red, upper);
    lemma_hex_byte(c.green, upper);
    lemma_hex_byte(c.blue, upper);
    assert(v[0] == hex_byte(c.red, upper)[0] && v[1] == hex_byte(c.red, upper)[1]);
    assert(v[2] == hex_byte(c.green, upper)[0] && v[3] == hex_byte(c.green, upper)[1]);
    assert(v[4] == hex_byte(c.blue, upper)[0] && v[5] == hex_byte(c.blue, upper)[1]);
}

/// A color written as `#` and six lower-case hexadecimal digits, or as six upper-case digits
/// between spaces, parses back to that color.
pub proof fn law_hex_text_round_trip(c: HueColor)
    ensures
        parsed_color(seq!['#'] + hex_text(c, false)) == Some(c),
        parsed_color(seq![' '] + hex_text(c, true) + seq![' ']) == Some(c),
{
    let lo = hex_text(c, false);
    let up = hex_text(c, true);
    lemma_hex_color(c, false, lo);
    lemma_hex_color(c, true, up);
    reveal_strlit("red");
    reveal_strlit("green");
    reveal_strlit("blue");
    reveal_strlit("white");
    let a = seq!['#'] + lo;
    assert(a.drop_first() =~= lo);
    assert(trim_start(a) == a);
    assert(!is_ws(a.last()));
    assert(trim_end(a) == a);
    assert(trim(a) == a);
    assert(lower(trim(a)).len() == 7);
    assert(strip_hash(trim(a)) =~= lo);
    let b = seq![' '] + up + seq![' '];
    let b1 = b.drop_first();
    assert(b1 =~= up + seq![' ']);
    assert(is_ws(' '));
    assert(trim_start(b1) == b1);
    assert(trim_start(b) == b1);
    assert(b1.drop_last() =~= up);
    assert(trim_end(up) == up);
    assert(trim_end(b1) == up);
    assert(trim(b) == up);
    assert(lower(trim(b)).len() == 6);
    assert(strip_hash(trim(b)) == up);
}

} // verus!
