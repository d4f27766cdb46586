//! RGBA colors: construction, parsing from hex and named literals,
//! formatting back to hex, and straight-alpha `over` compositing.
//!
//! The color grammar accepted by [`Color::parse`] is exactly: `#RGB`,
//! `#RRGGBB`, `#RRGGBBAA` (hex digits in either case), and a fixed palette of
//! names (case-insensitive).  Every other string is rejected.

use vstd::prelude::*;
use vstd::string::*;

verus! {

/// An RGBA color with 8-bit channels, stored non-premultiplied.
#[derive(Clone, Copy, Debug, PartialEq, Eq, Structural)]
pub struct Color {
    pub r: u8,
    pub g: u8,
    pub b: u8,
    pub a: u8,
}

/// Why a color literal was rejected.
#[derive(Clone, Copy, Debug, PartialEq, Eq, Structural)]
pub enum ColorError {
    /// Not `#` followed by 3, 6 or 8 hex digits.
    InvalidHex,
    /// Not one of the palette names.
    UnknownName,
}

impl Color {
    /// Builds a color from its four channels.
    pub fn new(r: u8, g: u8, b: u8, a: u8) -> (c: Color)
        ensures
            c == (Color { r, g, b, a }),
    {
        Color { r, g, b, a }
    }

    /// The fully transparent color.
    pub fn transparent() -> (c: Color)
        ensures
            c == (Color { r: 0, g: 0, b: 0, a: 0 }),
    {
        Color { r: 0, g: 0, b: 0, a: 0 }
    }

    /// Opaque white.
    pub fn white() -> (c: Color)
        ensures
            c == (Color { r: 255, g: 255, b: 255, a: 255 }),
    {
        Color { r: 255, g: 255, b: 255, a: 255 }
    }

    /// Opaque black.
    pub fn black() -> (c: Color)
        ensures
            c == (Color { r: 0, g: 0, b: 0, a: 255 }),
    {
        Color { r: 0, g: 0, b: 0, a: 255 }
    }

    /// Opaque red.
    pub fn red() -> (c: Color)
        ensures
            c == (Color { r: 255, g: 0, b: 0, a: 255 }),
    {
        Color { r: 255, g: 0, b: 0, a: 255 }
    }

    /// Opaque green.
    pub fn green() -> (c: Color)
        ensures
            c == (Color { r: 0, g: 255, b: 0, a: 255 }),
    {
        Color { r: 0, g: 255, b: 0, a: 255 }
    }

    /// Opaque blue.
    pub fn blue() -> (c: Color)
        ensures
            c == (Color { r: 0, g: 0, b: 255, a: 255 }),
    {
        Color { r: 0, g: 0, b: 255, a: 255 }
    }
}

/// Whether `c` is an ASCII hex digit.
pub open spec fn is_hex_digit(c: char) -> bool {
    let u = c as u32;
    (48 <= u <= 57) || (97 <= u <= 102) || (65 <= u <= 70)
}

/// The value of a hex digit (meaningful only when `is_hex_digit(c)`).
pub open spec fn hex_digit_val(c: char) -> int {
    let u = c as u32;
    if 48 <= u <= 57 {
        u - 48
    } else if 97 <= u <= 102 {
        u - 87
    } else {
        u - 55
    }
}

/// The uppercase hex digit character for a value below 16.
pub open spec fn hex_digit_char(v: int) -> char {
    if v == 0 { '0' } else if v == 1 { '1' } else if v == 2 { '2' } else if v == 3 { '3' }
    else if v == 4 { '4' } else if v == 5 { '5' } else if v == 6 { '6' } else if v == 7 { '7' }
    else if v == 8 { '8' } else if v == 9 { '9' } else if v == 10 { 'A' } else if v == 11 { 'B' }
    else if v == 12 { 'C' } else if v == 13 { 'D' } else if v == 14 { 'E' } else { 'F' }
}

/// Whether `s` is in the hex color grammar: `#` followed by 3, 6 or 8 hex digits.
pub open spec fn hex_color_ok(s: Seq<char>) -> bool {
    &&& (s.len() == 4 || s.len() == 7 || s.len() == 9)
    &&& s[0] == '#'
    &&& forall|i: int| 1 <= i < s.len() ==> is_hex_digit(#[trigger] s[i])
}

/// The byte encoded by the two hex digits at `s[i]` and `s[i + 1]`.
pub open spec fn hex_pair_val(s: Seq<char>, i: int) -> int {
    hex_digit_val(s[i]) * 16 + hex_digit_val(s[i + 1])
}

/// The color denoted by a string in the hex color grammar.
pub open spec fn spec_hex_color(s: Seq<char>) -> Color {
    if s.len() == 4 {
        Color {
            r: (hex_digit_val(s[1]) * 17) as u8,
            g: (hex_digit_val(s[2]) * 17) as u8,
            b: (hex_digit_val(s[3]) * 17) as u8,
            a: 255,
        }
    } else if s.len() == 7 {
        Color {
            r: hex_pair_val(s, 1) as u8,
            g: hex_pair_val(s, 3) as u8,
            b: hex_pair_val(s, 5) as u8,
            a: 255,
        }
    } else {
        Color {
            r: hex_pair_val(s, 1) as u8,
            g: hex_pair_val(s, 3) as u8,
            b: hex_pair_val(s, 5) as u8,
            a: hex_pair_val(s, 7) as u8,
        }
    }
}

/// The code point of `c`, lowered if `c` is an ASCII uppercase letter.
pub open spec fn lower_u(c: char) -> u32 {
    let u = c as u32;
    if 65 <= u <= 90 {
        (u + 32) as u32
    } else {
        u
    }
}

/// Case-insensitive (ASCII) equality of two character sequences.
pub open spec fn eq_ignore_case(s: Seq<char>, t: Seq<char>) -> bool {
    s.len() == t.len() && forall|i: int| 0 <= i < s.len() ==> lower_u(#[trigger] s[i]) == lower_u(t[i])
}

/// The palette of named colors; `None` when `s` names no palette entry.
pub open spec fn spec_named_color(s: Seq<char>) -> Option<Color> {
    if eq_ignore_case(s, "transparent"@) {
        Some(Color { r: 0, g: 0, b: 0, a: 0 })
    } else if eq_ignore_case(s, "black"@) {
        Some(Color { r: 0, g: 0, b: 0, a: 255 })
    } else if eq_ignore_case(s, "white"@) {
        Some(Color { r: 255, g: 255, b: 255, a: 255 })
    } else if eq_ignore_case(s, "red"@) {
        Some(Color { r: 255, g: 0, b: 0, a: 255 })
    } else if eq_ignore_case(s, "green"@) {
        Some(Color { r: 0, g: 255, b: 0, a: 255 })
    } else if eq_ignore_case(s, "blue"@) {
        Some(Color { r: 0, g: 0, b: 255, a: 255 })
    } else if eq_ignore_case(s, "yellow"@) {
        Some(Color { r: 255, g: 255, b: 0, a: 255 })
    } else if eq_ignore_case(s, "cyan"@) {
        Some(Color { r: 0, g: 255, b: 255, a: 255 })
    } else if eq_ignore_case(s, "magenta"@) {
        Some(Color { r: 255, g: 0, b: 255, a: 255 })
    } else if eq_ignore_case(s, "gray"@) || eq_ignore_case(s, "grey"@) {
        Some(Color { r: 128, g: 128, b: 128, a: 255 })
    } else if eq_ignore_case(s, "lightgray"@) || eq_ignore_case(s, "lightgrey"@) {
        Some(Color { r: 211, g: 211, b: 211, a: 255 })
    } else if eq_ignore_case(s, "darkgray"@) || eq_ignore_case(s, "darkgrey"@) {
        Some(Color { r: 169, g: 169, b: 169, a: 255 })
    } else {
        None
    }
}

/// The full color grammar: a hex literal or a palette name.
pub open spec fn spec_parse_color(s: Seq<char>) -> Option<Color> {
    if hex_color_ok(s) {
        Some(spec_hex_color(s))
    } else {
        spec_named_color(s)
    }
}

/// Reads one hex digit.
fn hex_val_exec(c: char) -> (v: u8)
    requires
        is_hex_digit(c),
    ensures
        v == hex_digit_val(c),
        v <= 15,
{
    let u: u32 = c as u32;
    if 48 <= u && u <= 57 {
        (u - 48) as u8
    } else if 97 <= u && u <= 102 {
        (u - 87) as u8
    } else {
        (u - 55) as u8
    }
}

/// Tests whether a character is a hex digit.
fn is_hex_digit_exec(c: char) -> (b: bool)
    ensures
        b == is_hex_digit(c),
{
    let u: u32 = c as u32;
    (48 <= u && u <= 57) || (97 <= u && u <= 102) || (65 <= u && u <= 70)
}

/// Checks that every character after the leading `#` is a hex digit.
fn all_hex_digits(s: &str) -> (b: bool)
    requires
        s@.len() >= 1,
    ensures
        b == forall|i: int| 1 <= i < s@.len() ==> is_hex_digit(#[trigger] s@[i]),
{
    let n: usize = s.unicode_len();
    let mut i: usize = 1;
    while i < n
        invariant
            1 <= i <= n,
            n == s@.len(),
            forall|j: int| 1 <= j < i ==> is_hex_digit(#[trigger] s@[j]),
        decreases n - i,
    {
        if !is_hex_digit_exec(s.get_char(i)) {
            return false;
        }
        i = i + 1;
    }
    true
}

/// Reads the byte encoded by the hex digits at positions `i` and `i + 1`.
fn hex_pair_exec(s: &str, i: usize) -> (v: u8)
    requires
        i + 1 <= usize::MAX,
        i + 1 < s@.len(),
        is_hex_digit(s@[i as int]),
        is_hex_digit(s@[i + 1]),
    ensures
        v == hex_pair_val(s@, i as int),
{
    let hi: u8 = hex_val_exec(s.get_char(i));
    let lo: u8 = hex_val_exec(s.get_char(i + 1));
    hi * 16 + lo
}

impl Color {
    /// Parses a hex color literal: `#RGB`, `#RRGGBB` or `#RRGGBBAA`.
    /// Returns `Ok` exactly on strings in that grammar.
    pub fn from_hex(s: &str) -> (r: Result<Color, ColorError>)
        ensures
            r is Ok <==> hex_color_ok(s@),
            r matches Ok(c) ==> c == spec_hex_color(s@),
            r matches Err(e) ==> e == ColorError::InvalidHex,
    {
        let n: usize = s.unicode_len();
        if n != 4 && n != 7 && n != 9 {
            return Err(ColorError::InvalidHex);
        }
        if s.get_char(0) != '#' {
            return Err(ColorError::InvalidHex);
        }
        if !all_hex_digits(s) {
            return Err(ColorError::InvalidHex);
        }
        if n == 4 {
            let r: u8 = hex_val_exec(s.get_char(1));
            let g: u8 = hex_val_exec(s.get_char(2));
            let b: u8 = hex_val_exec(s.get_char(3));
            Ok(Color { r: r * 17, g: g * 17, b: b * 17, a: 255 })
        } else if n == 7 {
            Ok(Color {
                r: hex_pair_exec(s, 1),
                g: hex_pair_exec(s, 3),
                b: hex_pair_exec(s, 5),
                a: 255,
            })
        } else {
            Ok(Color {
                r: hex_pair_exec(s, 1),
                g: hex_pair_exec(s, 3),
                b: hex_pair_exec(s, 5),
                a: hex_pair_exec(s, 7),
            })
        }
    }

    /// Parses a color literal: a hex literal or a palette name.
    pub fn parse(s: &str) -> (r: Result<Color, ColorError>)
        ensures
            r is Ok <==> spec_parse_color(s@) is Some,
            r matches Ok(c) ==> spec_parse_color(s@) == Some(c),
    {
        let n: usize = s.unicode_len();
        if n >= 1 && s.get_char(0) == '#' {
            match Color::from_hex(s) {
                Ok(c) => {
                    return Ok(c);
                },
                Err(_) => {
                    // A string that starts with `#` can never be a palette name:
                    // every name starts with a letter.
                    proof {
                        lemma_hash_is_no_name(s@);
                    }
                    return Err(ColorError::InvalidHex);
                },
            }
        }
        if n == 4 || n == 7 || n == 9 {
            // Not starting with `#`, so not in the hex grammar.
            assert(!hex_color_ok(s@));
        }
        match parse_named_color(s) {
            Ok(c) => Ok(c),
            Err(e) => Err(e),
        }
    }
}

/// A string starting with `#` matches no palette name.
proof fn lemma_hash_is_no_name(s: Seq<char>)
    requires
        s.len() >= 1,
        s[0] == '#',
    ensures
        spec_named_color(s) is None,
{
    reveal_strlit("transparent");
    reveal_strlit("black");
    reveal_strlit("white");
    reveal_strlit("red");
    reveal_strlit("green");
    reveal_strlit("blue");
    reveal_strlit("yellow");
    reveal_strlit("cyan");
    reveal_strlit("magenta");
    reveal_strlit("gray");
    reveal_strlit("grey");
    reveal_strlit("lightgray");
    reveal_strlit("lightgrey");
    reveal_strlit("darkgray");
    reveal_strlit("darkgrey");
}

/// Case-insensitive (ASCII) string comparison.
fn str_eq_ignore_case(s: &str, t: &str) -> (b: bool)
    ensures
        b == eq_ignore_case(s@, t@),
{
    let ns: usize = s.unicode_len();
    let nt: usize = t.unicode_len();
    if ns != nt {
        return false;
    }
    let mut i: usize = 0;
    while i < ns
        invariant
            0 <= i <= ns,
            ns == s@.len(),
            ns == t@.len(),
            forall|j: int| 0 <= j < i ==> lower_u(#[trigger] s@[j]) == lower_u(t@[j]),
        decreases ns - i,
    {
        let cs: u32 = s.get_char(i) as u32;
        let ct: u32 = t.get_char(i) as u32;
        let ls: u32 = if 65 <= cs && cs <= 90 { cs + 32 } else { cs };
        let lt: u32 = if 65 <= ct && ct <= 90 { ct + 32 } else { ct };
        if ls != lt {
            return false;
        }
        i = i + 1;
    }
    true
}

/// Looks a name up in the palette. Returns `Ok` exactly on palette names
/// (compared case-insensitively).
pub fn parse_named_color(name: &str) -> (r: Result<Color, ColorError>)
    ensures
        r is Ok <==> spec_named_color(name@) is Some,
        r matches Ok(c) ==> spec_named_color(name@) == Some(c),
        r matches Err(e) ==> e == ColorError::UnknownName,
{
    if str_eq_ignore_case(name, "transparent") {
        Ok(Color { r: 0, g: 0, b: 0, a: 0 })
    } else if str_eq_ignore_case(name, "black") {
        Ok(Color { r: 0, g: 0, b: 0, a: 255 })
    } else if str_eq_ignore_case(name, "white") {
        Ok(Color { r: 255, g: 255, b: 255, a: 255 })
    } else if str_eq_ignore_case(name, "red") {
        Ok(Color { r: 255, g: 0, b: 0, a: 255 })
    } else if str_eq_ignore_case(name, "green") {
        Ok(Color { r: 0, g: 255, b: 0, a: 255 })
    } else if str_eq_ignore_case(name, "blue") {
        Ok(Color { r: 0, g: 0, b: 255, a: 255 })
    } else if str_eq_ignore_case(name, "yellow") {
        Ok(Color { r: 255, g: 255, b: 0, a: 255 })
    } else if str_eq_ignore_case(name, "cyan") {
        Ok(Color { r: 0, g: 255, b: 255, a: 255 })
    } else if str_eq_ignore_case(name, "magenta") {
        Ok(Color { r: 255, g: 0, b: 255, a: 255 })
    } else if str_eq_ignore_case(name, "gray") || str_eq_ignore_case(name, "grey") {
        Ok(Color { r: 128, g: 128, b: 128, a: 255 })
    } else if str_eq_ignore_case(name, "lightgray") || str_eq_ignore_case(name, "lightgrey") {
        Ok(Color { r: 211, g: 211, b: 211, a: 255 })
    } else if str_eq_ignore_case(name, "darkgray") || str_eq_ignore_case(name, "darkgrey") {
        Ok(Color { r: 169, g: 169, b: 169, a: 255 })
    } else {
        Err(ColorError::UnknownName)
    }
}

/// The single hex digit character for a value below 16, as a string slice.
fn hex_digit_str(v: u8) -> (s: &'static str)
    requires
        v <= 15,
    ensures
        s@.len() == 1,
        s@[0] == hex_digit_char(v as int),
{
    proof {
        reveal_strlit("0");
        reveal_strlit("1");
        reveal_strlit("2");
        reveal_strlit("3");
        reveal_strlit("4");
        reveal_strlit("5");
        reveal_strlit("6");
        reveal_strlit("7");
        reveal_strlit("8");
        reveal_strlit("9");
        reveal_strlit("A");
        reveal_strlit("B");
        reveal_strlit("C");
        reveal_strlit("D");
        reveal_strlit("E");
        reveal_strlit("F");
    }
    match v {
        0 => "0",
        1 => "1",
        2 => "2",
        3 => "3",
        4 => "4",
        5 => "5",
        6 => "6",
        7 => "7",
        8 => "8",
        9 => "9",
        10 => "A",
        11 => "B",
        12 => "C",
        13 => "D",
        14 => "E",
        _ => "F",
    }
}

/// The canonical (uppercase) hex spelling of a color: `#RRGGBB` when fully
/// opaque, `#RRGGBBAA` otherwise.
pub open spec fn spec_to_hex(c: Color) -> Seq<char> {
    let rgb = seq![
        '#',
        hex_digit_char(c.r as int / 16),
        hex_digit_char(c.r as int % 16),
        hex_digit_char(c.g as int / 16),
        hex_digit_char(c.g as int % 16),
        hex_digit_char(c.b as int / 16),
        hex_digit_char(c.b as int % 16),
    ];
    if c.a == 255 {
        rgb
    } else {
        rgb + seq![hex_digit_char(c.a as int / 16), hex_digit_char(c.a as int % 16)]
    }
}

impl Color {
    /// Formats the color as an uppercase hex literal: `#RRGGBB` when fully
    /// opaque, `#RRGGBBAA` otherwise.
    pub fn to_hex(&self) -> (s: String)
        ensures
            s@ == spec_to_hex(*self),
    {
        proof {
            reveal_strlit("#");
        }
        let mut out: String = String::new();
        out.append("#");
        out.append(hex_digit_str(self.r / 16));
        out.append(hex_digit_str(self.r % 16));
        out.append(hex_digit_str(self.g / 16));
        out.append(hex_digit_str(self.g % 16));
        out.append(hex_digit_str(self.b / 16));
        out.append(hex_digit_str(self.b % 16));
        if self.a != 255 {
            out.append(hex_digit_str(self.a / 16));
            out.append(hex_digit_str(self.a % 16));
        }
        proof {
            assert(out@ =~= spec_to_hex(*self));
        }
        out
    }
}

/// Every formatted hex digit reads back as the value it encodes.
proof fn lemma_digit_round_trip(v: int)
    requires
        0 <= v < 16,
    ensures
        is_hex_digit(hex_digit_char(v)),
        hex_digit_val(hex_digit_char(v)) == v,
{
}

/// Recovering the two digits of a byte from its value.
proof fn lemma_byte_digits(hi: int, lo: int)
    requires
        0 <= hi < 16,
        0 <= lo < 16,
    ensures
        (hi * 16 + lo) / 16 == hi,
        (hi * 16 + lo) % 16 == lo,
        0 <= hi * 16 + lo <= 255,
{
    assert((hi * 16 + lo) / 16 == hi && (hi * 16 + lo) % 16 == lo) by (nonlinear_arith)
        requires
            0 <= hi < 16,
            0 <= lo < 16,
    ;
}

/// Formatting any color as hex and parsing the result returns the same color.
pub proof fn lemma_hex_round_trip(c: Color)
    ensures
        spec_parse_color(spec_to_hex(c)) == Some(c),
{
    let s = spec_to_hex(c);
    assert forall|i: int| 1 <= i < s.len() implies is_hex_digit(#[trigger] s[i]) by {
        lemma_digit_round_trip(hex_digit_val(s[i]));
        lemma_byte_digits(c.r as int / 16, c.r as int % 16);
        lemma_byte_digits(c.g as int / 16, c.g as int % 16);
        lemma_byte_digits(c.b as int / 16, c.b as int % 16);
        lemma_byte_digits(c.a as int / 16, c.a as int % 16);
        lemma_digit_round_trip(c.r as int / 16);
        lemma_digit_round_trip(c.r as int % 16);
        lemma_digit_round_trip(c.g as int / 16);
        lemma_digit_round_trip(c.g as int % 16);
        lemma_digit_round_trip(c.b as int / 16);
        lemma_digit_round_trip(c.b as int % 16);
        lemma_digit_round_trip(c.a as int / 16);
        lemma_digit_round_trip(c.a as int % 16);
    }
    assert(hex_color_ok(s));
    lemma_digit_round_trip(c.r as int / 16);
    lemma_digit_round_trip(c.r as int % 16);
    lemma_digit_round_trip(c.g as int / 16);
    lemma_digit_round_trip(c.g as int % 16);
    lemma_digit_round_trip(c.b as int / 16);
    lemma_digit_round_trip(c.b as int % 16);
    lemma_digit_round_trip(c.a as int / 16);
    lemma_digit_round_trip(c.a as int % 16);
    lemma_byte_digits(c.r as int / 16, c.r as int % 16);
    lemma_byte_digits(c.g as int / 16, c.g as int % 16);
    lemma_byte_digits(c.b as int / 16, c.b as int % 16);
    lemma_byte_digits(c.a as int / 16, c.a as int % 16);
}

/// Whether `c` is a digit or an uppercase hex letter.
pub open spec fn is_upper_hex_digit(c: char) -> bool {
    let u = c as u32;
    (48 <= u <= 57) || (65 <= u <= 70)
}

/// An uppercase hex digit formats back to itself.
proof fn lemma_upper_digit_round_trip(c: char)
    requires
        is_upper_hex_digit(c),
    ensures
        hex_digit_char(hex_digit_val(c)) == c,
{
    assert(hex_digit_char(hex_digit_val(c)) as u32 == c as u32);
}

/// Parsing an uppercase `#RRGGBB` literal and formatting the color back
/// yields the original string.
pub proof fn lemma_hex_round_trip_upper(s: Seq<char>)
    requires
        hex_color_ok(s),
        s.len() == 7,
        forall|i: int| 1 <= i < s.len() ==> is_upper_hex_digit(#[trigger] s[i]),
    ensures
        spec_to_hex(spec_hex_color(s)) == s,
{
    let c = spec_hex_color(s);
    lemma_byte_digits(hex_digit_val(s[1]), hex_digit_val(s[2]));
    lemma_byte_digits(hex_digit_val(s[3]), hex_digit_val(s[4]));
    lemma_byte_digits(hex_digit_val(s[5]), hex_digit_val(s[6]));
    lemma_upper_digit_round_trip(s[1]);
    lemma_upper_digit_round_trip(s[2]);
    lemma_upper_digit_round_trip(s[3]);
    lemma_upper_digit_round_trip(s[4]);
    lemma_upper_digit_round_trip(s[5]);
    lemma_upper_digit_round_trip(s[6]);
    assert(spec_to_hex(c) =~= s);
}

/// Rounding division to the nearest integer (ties upward); `d` must be positive.
pub open spec fn round_div(n: int, d: int) -> int {
    (2 * n + d) / (2 * d)
}

/// The common denominator of the `over` blend of a source alpha `sa` over a
/// destination alpha `da`, on a scale of `255 * 255`.
pub open spec fn blend_denom(sa: int, da: int) -> int {
    255 * sa + da * (255 - sa)
}

/// Straight-alpha `over` compositing of `src` over `dst`:
/// `ao = sa + da * (1 - sa)` and `co = (cs * sa + cd * da * (1 - sa)) / ao`
/// over unit-interval alphas, computed exactly in integers and rounded to
/// nearest.  When the result alpha is zero every channel is zero.
pub open spec fn spec_blend(dst: Color, src: Color) -> Color {
    let d = blend_denom(src.a as int, dst.a as int);
    if d == 0 {
        Color { r: 0, g: 0, b: 0, a: 0 }
    } else {
        Color {
            r: round_div(255 * src.r * src.a + dst.r * dst.a * (255 - src.a), d) as u8,
            g: round_div(255 * src.g * src.a + dst.g * dst.a * (255 - src.a), d) as u8,
            b: round_div(255 * src.b * src.a + dst.b * dst.a * (255 - src.a), d) as u8,
            a: round_div(d, 255) as u8,
        }
    }
}

/// One blended channel: `cs` weighted by the source alpha, `cd` by the
/// remaining destination alpha, rounded to nearest.
fn blend_channel(cs: u32, cd: u32, sa: u32, da: u32, d: u32) -> (r: u8)
    requires
        cs <= 255,
        cd <= 255,
        sa <= 255,
        da <= 255,
        d == blend_denom(sa as int, da as int),
        d > 0,
    ensures
        r == round_div(255 * cs * sa + cd * da * (255 - sa), d as int) as u8,
{
    proof {
        assert(255 * cs * sa <= 255 * 255 * 255) by (nonlinear_arith)
            requires cs <= 255 && sa <= 255;
        assert(cd * da <= 255 * 255) by (nonlinear_arith)
            requires cd <= 255 && da <= 255;
        assert(cd * da * (255 - sa) <= 255 * 255 * 255) by (nonlinear_arith)
            requires cd <= 255 && da <= 255 && sa <= 255;
        assert(da * (255 - sa) <= 255 * 255) by (nonlinear_arith)
            requires da <= 255 && sa <= 255;
    }
    let n: u32 = 255 * cs * sa + cd * da * (255 - sa);
    #[verifier::truncate]
    let r: u8 = ((2 * n + d) / (2 * d)) as u8;
    r
}

impl Color {
    /// Composites `src` over `dst` with straight-alpha `over` blending.
    pub fn blend(dst: Color, src: Color) -> (r: Color)
        ensures
            r == spec_blend(dst, src),
    {
        let sa: u32 = src.a as u32;
        let da: u32 = dst.a as u32;
        proof {
            assert(da * (255 - sa) <= 255 * 255) by (nonlinear_arith)
                requires da <= 255 && sa <= 255;
        }
        let d: u32 = 255 * sa + da * (255 - sa);
        if d == 0 {
            Color { r: 0, g: 0, b: 0, a: 0 }
        } else {
            #[verifier::truncate]
            let a: u8 = ((2 * d + 255) / 510) as u8;
            Color {
                r: blend_channel(src.r as u32, dst.r as u32, sa, da, d),
                g: blend_channel(src.g as u32, dst.g as u32, sa, da, d),
                b: blend_channel(src.b as u32, dst.b as u32, sa, da, d),
                a,
            }
        }
    }
}

/// Compositing any source over a fully opaque destination leaves the
/// destination's alpha at 255.
pub proof fn lemma_blend_preserves_opaque_alpha(dst: Color, src: Color)
    requires
        dst.a == 255,
    ensures
        spec_blend(dst, src).a == 255,
{
    let d = blend_denom(src.a as int, dst.a as int);
    assert(d == 65025);
    assert(round_div(65025int, 255int) == (2 * 65025 + 255) / 510);
    assert(130305int / 510int == 255) by (nonlinear_arith);
}

} // verus!

