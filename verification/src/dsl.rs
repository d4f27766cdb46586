//! The color vocabulary of the scene description language, and its
//! conversion into the library's color type.
//!
//! Reading JSON or YAML into [`DslColor`] values is an adapter's concern;
//! the conversions here are pure.

use vstd::prelude::*;
use vstd::string::StringExecFns;
use crate::color::{Color, ColorError, hex_color_ok, spec_hex_color, spec_named_color,
    parse_named_color};

verus! {

/// A color as the scene description writes it.
#[derive(Clone, Debug)]
pub enum DslColor {
    /// Four explicit channels.
    Rgba { r: u8, g: u8, b: u8, a: u8 },
    /// Three explicit channels, fully opaque.
    Rgb { r: u8, g: u8, b: u8 },
    /// A hex literal such as `#RRGGBB`.
    Hex(String),
    /// A palette name such as `white`.
    Named(String),
}

impl Default for DslColor {
    /// The default color literal is the transparent palette name.
    fn default() -> (c: DslColor)
        ensures
            c matches DslColor::Named(n) && n@ == "transparent"@,
    {
        DslColor::Named(String::from_str("transparent"))
    }
}

/// What a color literal denotes, or `None` when it is rejected.
pub open spec fn spec_convert_color(c: DslColor) -> Option<Color> {
    match c {
        DslColor::Rgba { r, g, b, a } => Some(Color { r, g, b, a }),
        DslColor::Rgb { r, g, b } => Some(Color { r, g, b, a: 255 }),
        DslColor::Hex(s) => if hex_color_ok(s@) {
            Some(spec_hex_color(s@))
        } else {
            Option::None
        },
        DslColor::Named(s) => spec_named_color(s@),
    }
}

/// Converts scene-description values into the library's types.
pub struct DslParser;

impl DslParser {
    /// Parses a hex color literal, per the library's color grammar.
    pub fn parse_hex_color(hex: &str) -> (r: Result<Color, ColorError>)
        ensures
            r is Ok <==> hex_color_ok(hex@),
            r matches Ok(c) ==> c == spec_hex_color(hex@),
            r matches Err(e) ==> e == ColorError::InvalidHex,
    {
        Color::from_hex(hex)
    }

    /// Parses a named color, per the library's palette.
    pub fn parse_named_color(name: &str) -> (r: Result<Color, ColorError>)
        ensures
            r is Ok <==> spec_named_color(name@) is Some,
            r matches Ok(c) ==> spec_named_color(name@) == Some(c),
            r matches Err(e) ==> e == ColorError::UnknownName,
    {
        parse_named_color(name)
    }

    /// Converts a color literal into a color; rejects exactly the strings
    /// outside the documented grammar.
    pub fn convert_color(color: &DslColor) -> (r: Result<Color, ColorError>)
        ensures
            r is Ok <==> spec_convert_color(*color) is Some,
            r matches Ok(c) ==> spec_convert_color(*color) == Some(c),
    {
        match color {
            DslColor::Rgba { r, g, b, a } => Ok(Color { r: *r, g: *g, b: *b, a: *a }),
            DslColor::Rgb { r, g, b } => Ok(Color { r: *r, g: *g, b: *b, a: 255 }),
            DslColor::Hex(s) => Color::from_hex(s.as_str()),
            DslColor::Named(s) => parse_named_color(s.as_str()),
        }
    }
}

/// The font family assumed when a text node names none.
pub fn default_font_family() -> (r: String)
    ensures
        r@ == "Arial"@,
{
    String::from_str("Arial")
}

} // verus!
