//! Style vocabulary shared with CSS-flavored scene descriptions: font
//! weights with numeric values, text alignment, object fit, border styles,
//! and text decoration or transformation flags.

use vstd::prelude::*;

verus! {

/// Weight of a font face, possibly as a raw numeric weight.
#[derive(Clone, Copy, Debug, PartialEq, Eq, Structural)]
pub enum FontWeight {
    /// Normal weight (400).
    Normal,
    /// Bold weight (700).
    Bold,
    /// An explicit weight, conventionally 100 to 900.
    Weight(u16),
}

impl FontWeight {
    /// The numeric weight value.
    pub fn to_number(&self) -> (n: u16)
        ensures
            n == match *self {
                FontWeight::Normal => 400u16,
                FontWeight::Bold => 700u16,
                FontWeight::Weight(w) => w,
            },
    {
        match self {
            FontWeight::Normal => 400,
            FontWeight::Bold => 700,
            FontWeight::Weight(weight) => *weight,
        }
    }
}

/// Horizontal text alignment.
#[derive(Clone, Copy, Debug, PartialEq, Eq, Structural)]
pub enum TextAlign {
    Left,
    Center,
    Right,
    Justify,
}

/// How an image is fitted into its box.
#[derive(Clone, Copy, Debug, PartialEq, Eq, Structural)]
pub enum ObjectFit {
    /// Stretch to fill the box.
    Fill,
    /// Largest uniform scale that keeps the image inside the box.
    Contain,
    /// Smallest uniform scale that covers the box.
    Cover,
    /// As `Contain`, but never scales up.
    ScaleDown,
    /// No scaling.
    NoScale,
}

/// Stroke style of a border.
#[derive(Clone, Copy, Debug, PartialEq, Eq, Structural)]
pub enum BorderStyle {
    Solid,
    Dashed,
    Dotted,
    NoBorder,
}

/// Decoration lines drawn through or under text.
#[derive(Clone, Copy, Debug, PartialEq, Eq, Structural)]
pub enum TextDecoration {
    Plain,
    Underline,
    Overline,
    LineThrough,
}

/// Case transformation applied to text content.
#[derive(Clone, Copy, Debug, PartialEq, Eq, Structural)]
pub enum TextTransform {
    Plain,
    Uppercase,
    Lowercase,
    Capitalize,
}

} // verus!
