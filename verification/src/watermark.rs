//! Watermark placement: where a mark of a given size sits on an image.
//!
//! Corner positions keep a ten-pixel margin; the margin and the mark are
//! clamped into the image when they do not fit.

use vstd::prelude::*;

verus! {

/// Nonnegative clamped subtraction.
pub open spec fn sat_sub(a: int, b: int) -> int {
    if a >= b {
        a - b
    } else {
        0
    }
}

/// Where a watermark goes on an image.
#[derive(Clone, Copy, Debug, PartialEq, Eq, Structural)]
pub enum WatermarkPosition {
    TopLeft,
    TopRight,
    BottomLeft,
    BottomRight,
    Center,
    /// An explicit top-left corner, in pixels.
    Custom(u32, u32),
}

impl WatermarkPosition {
    /// The top-left corner of a `text_width x text_height` mark on an
    /// `img_width x img_height` image, with a ten-pixel margin at the
    /// corners; oversized marks clamp to the image's origin.
    pub fn calculate_position(
        &self,
        img_width: u32,
        img_height: u32,
        text_width: u32,
        text_height: u32,
    ) -> (r: (u32, u32))
        requires
            text_width <= 0xFFFF_FFF5,
            text_height <= 0xFFFF_FFF5,
        ensures
            r == match *self {
                WatermarkPosition::TopLeft => (10u32, 10u32),
                WatermarkPosition::TopRight => (
                    sat_sub(img_width as int, text_width + 10) as u32,
                    10u32,
                ),
                WatermarkPosition::BottomLeft => (
                    10u32,
                    sat_sub(img_height as int, text_height + 10) as u32,
                ),
                WatermarkPosition::BottomRight => (
                    sat_sub(img_width as int, text_width + 10) as u32,
                    sat_sub(img_height as int, text_height + 10) as u32,
                ),
                WatermarkPosition::Center => (
                    (sat_sub(img_width as int, text_width as int) / 2) as u32,
                    (sat_sub(img_height as int, text_height as int) / 2) as u32,
                ),
                WatermarkPosition::Custom(x, y) => (x, y),
            },
    {
        match self {
            WatermarkPosition::TopLeft => (10, 10),
            WatermarkPosition::TopRight => (sub_or_zero(img_width, text_width + 10), 10),
            WatermarkPosition::BottomLeft => (10, sub_or_zero(img_height, text_height + 10)),
            WatermarkPosition::BottomRight => (
                sub_or_zero(img_width, text_width + 10),
                sub_or_zero(img_height, text_height + 10),
            ),
            WatermarkPosition::Center => (
                sub_or_zero(img_width, text_width) / 2,
                sub_or_zero(img_height, text_height) / 2,
            ),
            WatermarkPosition::Custom(x, y) => (*x, *y),
        }
    }
}

/// Subtraction clamped at zero.
fn sub_or_zero(a: u32, b: u32) -> (r: u32)
    ensures
        r == sat_sub(a as int, b as int),
{
    if a >= b {
        a - b
    } else {
        0
    }
}

} // verus!
