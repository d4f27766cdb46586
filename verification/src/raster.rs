//! Rasterization primitives over an RGBA bitmap.
//!
//! A bitmap stores its pixels row-major, origin at the top left.  Every
//! drawing operation composites over the running canvas with straight-alpha
//! `over` blending and clips silently at the bitmap bounds; each operation's
//! result is pinned exactly by a specification function over the pixel
//! sequence, so two identical drawing sequences produce identical pixels.
//!
//! Image decoding and resampling are the work of an outside codec library,
//! reached through the two trusted wrappers at the end of this module; their
//! results are functions of their arguments alone, named by uninterpreted
//! specification functions.

use vstd::prelude::*;
use crate::color::{Color, spec_blend};
use crate::geom::spec_round_div;

verus! {

/// The largest bitmap edge the rasterizer works with, in pixels.
pub const MAX_DIM: usize = 16384;

/// An RGBA bitmap: `width * height` pixels, row-major from the top left.
#[derive(Clone, Debug)]
pub struct Bitmap {
    pub width: usize,
    pub height: usize,
    pub pixels: Vec<Color>,
}

/// The pixel store matches the dimensions and the dimensions are workable.
pub open spec fn bitmap_wf(b: Bitmap) -> bool {
    &&& b.pixels@.len() == b.width * b.height
    &&& 1 <= b.width <= MAX_DIM
    &&& b.height <= MAX_DIM
}

/// A decoded image: `width * height` RGBA pixels, row-major.
#[derive(Clone, Debug)]
pub struct ImageData {
    pub width: usize,
    pub height: usize,
    pub pixels: Vec<Color>,
}

/// The pixel store matches the dimensions and the dimensions are workable.
pub open spec fn image_wf(d: ImageData) -> bool {
    &&& d.pixels@.len() == d.width * d.height
    &&& 1 <= d.width <= MAX_DIM
    &&& 1 <= d.height <= MAX_DIM
}

/// One rasterized glyph: a coverage map plus its placement metrics.
/// `advance` is in milli-units; the bearings `xmin` and `ymin` (offsets of
/// the bitmap's left edge and bottom edge from the pen position and the
/// baseline) are in whole pixels.
#[derive(Clone, Debug)]
pub struct GlyphRaster {
    pub advance: i64,
    pub xmin: i64,
    pub ymin: i64,
    pub width: usize,
    pub height: usize,
    pub coverage: Vec<u8>,
}

/// The coverage store matches the dimensions and the metrics are workable.
pub open spec fn glyph_wf(g: GlyphRaster) -> bool {
    &&& g.coverage@.len() == g.width * g.height
    &&& g.width <= MAX_DIM
    &&& g.height <= MAX_DIM
    &&& -1_000_000 <= g.xmin <= 1_000_000
    &&& -1_000_000 <= g.ymin <= 1_000_000
    &&& 0 <= g.advance <= 1_000_000_000
}

impl Bitmap {
    /// A bitmap filled with the background color.
    pub fn new(width: usize, height: usize, background: Color) -> (b: Bitmap)
        requires
            1 <= width <= MAX_DIM,
            height <= MAX_DIM,
        ensures
            bitmap_wf(b),
            b.width == width,
            b.height == height,
            forall|idx: int| 0 <= idx < b.pixels@.len() ==> b.pixels@[idx] == background,
    {
        proof {
            assert(width * height <= 16384 * 16384) by (nonlinear_arith)
                requires
                    width <= 16384,
                    height <= 16384,
            ;
        }
        let n: usize = width * height;
        let mut pixels: Vec<Color> = Vec::new();
        let mut i: usize = 0;
        while i < n
            invariant
                0 <= i <= n,
                pixels@.len() == i,
                forall|idx: int| 0 <= idx < i ==> pixels@[idx] == background,
            decreases n - i,
        {
            pixels.push(background);
            i = i + 1;
        }
        Bitmap { width, height, pixels }
    }

    /// The pixel at `(x, y)`.
    pub fn get(&self, x: usize, y: usize) -> (c: Color)
        requires
            bitmap_wf(*self),
            x < self.width,
            y < self.height,
        ensures
            c == self.pixels@[y * self.width + x],
    {
        proof {
            assert(y * self.width + x < self.width * self.height && y * self.width + x < 16384
                * 16384) by (nonlinear_arith)
                requires
                    x < self.width,
                    y < self.height,
                    self.width <= 16384,
                    self.height <= 16384,
            ;
        }
        self.pixels[y * self.width + x]
    }
}

/// The filled rectangle `rx, ry, rw, rh` blended with `c` over `pixels`.
pub open spec fn spec_fill(
    pixels: Seq<Color>,
    w: int,
    rx: int,
    ry: int,
    rw: int,
    rh: int,
    c: Color,
) -> Seq<Color> {
    Seq::new(
        pixels.len(),
        |idx: int|
            {
                let x = idx % w;
                let y = idx / w;
                if rx <= x < rx + rw && ry <= y < ry + rh {
                    spec_blend(pixels[idx], c)
                } else {
                    pixels[idx]
                }
            },
    )
}

/// Blends a filled rectangle over the bitmap; coordinates in whole pixels,
/// clipped at the bitmap bounds.
pub fn fill_rect(b: &mut Bitmap, rx: i64, ry: i64, rw: i64, rh: i64, c: Color)
    requires
        bitmap_wf(*old(b)),
        -0x1_0000_0000 <= rx <= 0x1_0000_0000,
        -0x1_0000_0000 <= ry <= 0x1_0000_0000,
        0 <= rw <= 0x1_0000_0000,
        0 <= rh <= 0x1_0000_0000,
    ensures
        bitmap_wf(*final(b)),
        final(b).width == old(b).width,
        final(b).height == old(b).height,
        final(b).pixels@ == spec_fill(
            old(b).pixels@,
            old(b).width as int,
            rx as int,
            ry as int,
            rw as int,
            rh as int,
            c,
        ),
{
    let w: usize = b.width;
    let n: usize = b.pixels.len();
    proof {
        assert(b.width * b.height <= 16384 * 16384) by (nonlinear_arith)
            requires
                b.width <= 16384,
                b.height <= 16384,
        ;
    }
    let mut idx: usize = 0;
    while idx < n
        invariant
            0 <= idx <= n,
            bitmap_wf(*b),
            b.width == old(b).width,
            b.height == old(b).height,
            w == b.width,
            n == b.pixels@.len(),
            n == old(b).pixels@.len(),
            n <= 16384 * 16384,
            -0x1_0000_0000 <= rx <= 0x1_0000_0000,
            -0x1_0000_0000 <= ry <= 0x1_0000_0000,
            0 <= rw <= 0x1_0000_0000,
            0 <= rh <= 0x1_0000_0000,
            forall|j: int|
                idx <= j < n ==> b.pixels@[j] == old(b).pixels@[j],
            forall|j: int|
                0 <= j < idx ==> b.pixels@[j] == spec_fill(
                    old(b).pixels@,
                    w as int,
                    rx as int,
                    ry as int,
                    rw as int,
                    rh as int,
                    c,
                )[j],
        decreases n - idx,
    {
        let x: i64 = (idx % w) as i64;
        let y: i64 = (idx / w) as i64;
        if rx <= x && x < rx + rw && ry <= y && y < ry + rh {
            let blended: Color = Color::blend(b.pixels[idx], c);
            b.pixels.set(idx, blended);
        }
        proof {
            assert(b.pixels@[idx as int] == spec_fill(
                old(b).pixels@,
                w as int,
                rx as int,
                ry as int,
                rw as int,
                rh as int,
                c,
            )[idx as int]);
        }
        idx = idx + 1;
    }
    proof {
        assert(b.pixels@ =~= spec_fill(
            old(b).pixels@,
            w as int,
            rx as int,
            ry as int,
            rw as int,
            rh as int,
            c,
        ));
    }
}

/// Filling a rectangle of zero width (or height) leaves every pixel as it
/// was: a zero-sized node rasterizes no pixels.
pub proof fn lemma_fill_zero_size(pixels: Seq<Color>, w: int, rx: int, ry: int, rw: int, rh: int, c: Color)
    requires
        rw <= 0 || rh <= 0,
    ensures
        spec_fill(pixels, w, rx, ry, rw, rh, c) =~= pixels,
{
}

/// The four edge bands of a border, of width `bw`, blended with `c`: the
/// pixels inside the outer rectangle but not inside the rectangle inset by
/// `bw` on every side.  Each border pixel is blended exactly once.
pub open spec fn spec_border(
    pixels: Seq<Color>,
    w: int,
    rx: int,
    ry: int,
    rw: int,
    rh: int,
    bw: int,
    c: Color,
) -> Seq<Color> {
    Seq::new(
        pixels.len(),
        |idx: int|
            {
                let x = idx % w;
                let y = idx / w;
                if rx <= x < rx + rw && ry <= y < ry + rh && !(rx + bw <= x < rx + rw - bw && ry
                    + bw <= y < ry + rh - bw) {
                    spec_blend(pixels[idx], c)
                } else {
                    pixels[idx]
                }
            },
    )
}

/// Blends a rectangular border of width `bw` over the bitmap.
pub fn draw_border(b: &mut Bitmap, rx: i64, ry: i64, rw: i64, rh: i64, bw: i64, c: Color)
    requires
        bitmap_wf(*old(b)),
        -0x1_0000_0000 <= rx <= 0x1_0000_0000,
        -0x1_0000_0000 <= ry <= 0x1_0000_0000,
        0 <= rw <= 0x1_0000_0000,
        0 <= rh <= 0x1_0000_0000,
        0 <= bw <= 0x1_0000_0000,
    ensures
        bitmap_wf(*final(b)),
        final(b).width == old(b).width,
        final(b).height == old(b).height,
        final(b).pixels@ == spec_border(
            old(b).pixels@,
            old(b).width as int,
            rx as int,
            ry as int,
            rw as int,
            rh as int,
            bw as int,
            c,
        ),
{
    let w: usize = b.width;
    let n: usize = b.pixels.len();
    proof {
        assert(b.width * b.height <= 16384 * 16384) by (nonlinear_arith)
            requires
                b.width <= 16384,
                b.height <= 16384,
        ;
    }
    let mut idx: usize = 0;
    while idx < n
        invariant
            0 <= idx <= n,
            bitmap_wf(*b),
            b.width == old(b).width,
            b.height == old(b).height,
            w == b.width,
            n == b.pixels@.len(),
            n == old(b).pixels@.len(),
            n <= 16384 * 16384,
            -0x1_0000_0000 <= rx <= 0x1_0000_0000,
            -0x1_0000_0000 <= ry <= 0x1_0000_0000,
            0 <= rw <= 0x1_0000_0000,
            0 <= rh <= 0x1_0000_0000,
            0 <= bw <= 0x1_0000_0000,
            forall|j: int|
                idx <= j < n ==> b.pixels@[j] == old(b).pixels@[j],
            forall|j: int|
                0 <= j < idx ==> b.pixels@[j] == spec_border(
                    old(b).pixels@,
                    w as int,
                    rx as int,
                    ry as int,
                    rw as int,
                    rh as int,
                    bw as int,
                    c,
                )[j],
        decreases n - idx,
    {
        let x: i64 = (idx % w) as i64;
        let y: i64 = (idx / w) as i64;
        let in_outer: bool = rx <= x && x < rx + rw && ry <= y && y < ry + rh;
        let in_inner: bool = rx + bw <= x && x < rx + rw - bw && ry + bw <= y && y < ry + rh - bw;
        if in_outer && !in_inner {
            let blended: Color = Color::blend(b.pixels[idx], c);
            b.pixels.set(idx, blended);
        }
        proof {
            assert(b.pixels@[idx as int] == spec_border(
                old(b).pixels@,
                w as int,
                rx as int,
                ry as int,
                rw as int,
                rh as int,
                bw as int,
                c,
            )[idx as int]);
        }
        idx = idx + 1;
    }
    proof {
        assert(b.pixels@ =~= spec_border(
            old(b).pixels@,
            w as int,
            rx as int,
            ry as int,
            rw as int,
            rh as int,
            bw as int,
            c,
        ));
    }
}

/// An image pixel adjusted for drawing: tinted channel-wise, then scaled in
/// alpha by a per-mille opacity.
pub open spec fn spec_adjust(c: Color, opacity: int, tint: Option<Color>) -> Color {
    let t = match tint {
        Some(tc) => Color {
            r: ((c.r * tc.r) / 255) as u8,
            g: ((c.g * tc.g) / 255) as u8,
            b: ((c.b * tc.b) / 255) as u8,
            a: c.a,
        },
        Option::None => c,
    };
    Color { r: t.r, g: t.g, b: t.b, a: ((t.a * opacity) / 1000) as u8 }
}

/// Applies tint and opacity to one pixel.
fn adjust_pixel(c: Color, opacity: i64, tint: &Option<Color>) -> (r: Color)
    requires
        0 <= opacity <= 1000,
    ensures
        r == spec_adjust(c, opacity as int, *tint),
{
    proof {
        assert(c.r as int * 255 <= 255 * 255 && c.g as int * 255 <= 255 * 255 && c.b as int * 255
            <= 255 * 255 && c.a as int * 1000 <= 255 * 1000) by (nonlinear_arith)
            requires
                c.r <= 255,
                c.g <= 255,
                c.b <= 255,
                c.a <= 255,
        ;
        match *tint {
            Some(tc) => {
                assert(c.r as int * tc.r as int <= 255 * 255 && c.g as int * tc.g as int <= 255
                    * 255 && c.b as int * tc.b as int <= 255 * 255) by (nonlinear_arith)
                    requires
                        c.r <= 255,
                        c.g <= 255,
                        c.b <= 255,
                        tc.r <= 255,
                        tc.g <= 255,
                        tc.b <= 255,
                ;
            },
            Option::None => {},
        }
    }
    let t: Color = match tint {
        Some(tc) => Color {
            r: ((c.r as u32 * tc.r as u32) / 255) as u8,
            g: ((c.g as u32 * tc.g as u32) / 255) as u8,
            b: ((c.b as u32 * tc.b as u32) / 255) as u8,
            a: c.a,
        },
        Option::None => c,
    };
    proof {
        assert(t.a as int * opacity as int <= 255 * 1000) by (nonlinear_arith)
            requires
                t.a <= 255,
                0 <= opacity <= 1000,
        ;
    }
    Color { r: t.r, g: t.g, b: t.b, a: ((t.a as u32 * opacity as u32) / 1000) as u8 }
}

/// An image blended over `pixels` with its top-left corner at `(dx, dy)`,
/// adjusted by opacity and tint, clipped at the bitmap bounds.
pub open spec fn spec_blit(
    pixels: Seq<Color>,
    w: int,
    img: Seq<Color>,
    iw: int,
    ih: int,
    dx: int,
    dy: int,
    opacity: int,
    tint: Option<Color>,
) -> Seq<Color> {
    Seq::new(
        pixels.len(),
        |idx: int|
            {
                let x = idx % w;
                let y = idx / w;
                if dx <= x < dx + iw && dy <= y < dy + ih {
                    spec_blend(pixels[idx], spec_adjust(img[(y - dy) * iw + (x - dx)], opacity, tint))
                } else {
                    pixels[idx]
                }
            },
    )
}

/// Blends an image over the bitmap at `(dx, dy)` in whole pixels, with a
/// per-mille opacity and an optional tint, clipping at the bitmap bounds.
pub fn blit_image(b: &mut Bitmap, img: &ImageData, dx: i64, dy: i64, opacity: i64, tint: &Option<
    Color,
>)
    requires
        bitmap_wf(*old(b)),
        image_wf(*img),
        -0x1_0000_0000 <= dx <= 0x1_0000_0000,
        -0x1_0000_0000 <= dy <= 0x1_0000_0000,
        0 <= opacity <= 1000,
    ensures
        bitmap_wf(*final(b)),
        final(b).width == old(b).width,
        final(b).height == old(b).height,
        final(b).pixels@ == spec_blit(
            old(b).pixels@,
            old(b).width as int,
            img.pixels@,
            img.width as int,
            img.height as int,
            dx as int,
            dy as int,
            opacity as int,
            *tint,
        ),
{
    let w: usize = b.width;
    let n: usize = b.pixels.len();
    proof {
        assert(b.width * b.height <= 16384 * 16384) by (nonlinear_arith)
            requires
                b.width <= 16384,
                b.height <= 16384,
        ;
    }
    let iw: i64 = img.width as i64;
    let ih: i64 = img.height as i64;
    let mut idx: usize = 0;
    while idx < n
        invariant
            0 <= idx <= n,
            bitmap_wf(*b),
            image_wf(*img),
            b.width == old(b).width,
            b.height == old(b).height,
            w == b.width,
            n == b.pixels@.len(),
            n == old(b).pixels@.len(),
            n <= 16384 * 16384,
            iw == img.width,
            ih == img.height,
            0 <= opacity <= 1000,
            -0x1_0000_0000 <= dx <= 0x1_0000_0000,
            -0x1_0000_0000 <= dy <= 0x1_0000_0000,
            forall|j: int|
                idx <= j < n ==> b.pixels@[j] == old(b).pixels@[j],
            forall|j: int|
                0 <= j < idx ==> b.pixels@[j] == spec_blit(
                    old(b).pixels@,
                    w as int,
                    img.pixels@,
                    img.width as int,
                    img.height as int,
                    dx as int,
                    dy as int,
                    opacity as int,
                    *tint,
                )[j],
        decreases n - idx,
    {
        let x: i64 = (idx % w) as i64;
        let y: i64 = (idx / w) as i64;
        if dx <= x && x < dx + iw && dy <= y && y < dy + ih {
            let sx: usize = (x - dx) as usize;
            let sy: usize = (y - dy) as usize;
            proof {
                assert(sy * img.width + sx < img.width * img.height && sy * img.width + sx < 16384
                    * 16384) by (nonlinear_arith)
                    requires
                        sx < img.width,
                        sy < img.height,
                        img.width <= 16384,
                        img.height <= 16384,
                ;
            }
            let src: Color = adjust_pixel(img.pixels[sy * img.width + sx], opacity, tint);
            let blended: Color = Color::blend(b.pixels[idx], src);
            b.pixels.set(idx, blended);
        }
        proof {
            assert(b.pixels@[idx as int] == spec_blit(
                old(b).pixels@,
                w as int,
                img.pixels@,
                img.width as int,
                img.height as int,
                dx as int,
                dy as int,
                opacity as int,
                *tint,
            )[idx as int]);
        }
        idx = idx + 1;
    }
    proof {
        assert(b.pixels@ =~= spec_blit(
            old(b).pixels@,
            w as int,
            img.pixels@,
            img.width as int,
            img.height as int,
            dx as int,
            dy as int,
            opacity as int,
            *tint,
        ));
    }
}

/// A glyph's coverage blended over `pixels` in `color`: each covered texel
/// contributes the foreground color at the effective alpha
/// `round(coverage * color.a / 255)`, per the text pipeline.
pub open spec fn spec_draw_glyph(
    pixels: Seq<Color>,
    w: int,
    cov: Seq<u8>,
    gw: int,
    gh: int,
    dx: int,
    dy: int,
    color: Color,
) -> Seq<Color> {
    Seq::new(
        pixels.len(),
        |idx: int|
            {
                let x = idx % w;
                let y = idx / w;
                if dx <= x < dx + gw && dy <= y < dy + gh && cov[(y - dy) * gw + (x - dx)] > 0 {
                    let a = spec_round_div(cov[(y - dy) * gw + (x - dx)] * color.a, 255);
                    spec_blend(pixels[idx], Color { r: color.r, g: color.g, b: color.b, a: a as u8 })
                } else {
                    pixels[idx]
                }
            },
    )
}

/// Blends one glyph's coverage map over the bitmap at `(dx, dy)`.
pub fn draw_glyph(b: &mut Bitmap, g: &GlyphRaster, dx: i64, dy: i64, color: Color)
    requires
        bitmap_wf(*old(b)),
        glyph_wf(*g),
        -0x1_0000_0000 <= dx <= 0x1_0000_0000,
        -0x1_0000_0000 <= dy <= 0x1_0000_0000,
    ensures
        bitmap_wf(*final(b)),
        final(b).width == old(b).width,
        final(b).height == old(b).height,
        final(b).pixels@ == spec_draw_glyph(
            old(b).pixels@,
            old(b).width as int,
            g.coverage@,
            g.width as int,
            g.height as int,
            dx as int,
            dy as int,
            color,
        ),
{
    let w: usize = b.width;
    let n: usize = b.pixels.len();
    proof {
        assert(b.width * b.height <= 16384 * 16384) by (nonlinear_arith)
            requires
                b.width <= 16384,
                b.height <= 16384,
        ;
    }
    let gw: i64 = g.width as i64;
    let gh: i64 = g.height as i64;
    let mut idx: usize = 0;
    while idx < n
        invariant
            0 <= idx <= n,
            bitmap_wf(*b),
            glyph_wf(*g),
            b.width == old(b).width,
            b.height == old(b).height,
            w == b.width,
            n == b.pixels@.len(),
            n == old(b).pixels@.len(),
            n <= 16384 * 16384,
            gw == g.width,
            gh == g.height,
            -0x1_0000_0000 <= dx <= 0x1_0000_0000,
            -0x1_0000_0000 <= dy <= 0x1_0000_0000,
            forall|j: int|
                idx <= j < n ==> b.pixels@[j] == old(b).pixels@[j],
            forall|j: int|
                0 <= j < idx ==> b.pixels@[j] == spec_draw_glyph(
                    old(b).pixels@,
                    w as int,
                    g.coverage@,
                    g.width as int,
                    g.height as int,
                    dx as int,
                    dy as int,
                    color,
                )[j],
        decreases n - idx,
    {
        let x: i64 = (idx % w) as i64;
        let y: i64 = (idx / w) as i64;
        if dx <= x && x < dx + gw && dy <= y && y < dy + gh {
            let sx: usize = (x - dx) as usize;
            let sy: usize = (y - dy) as usize;
            proof {
                assert(sy * g.width + sx < g.width * g.height && sy * g.width + sx < 16384 * 16384)
                    by (nonlinear_arith)
                    requires
                        sx < g.width,
                        sy < g.height,
                        g.width <= 16384,
                        g.height <= 16384,
                ;
            }
            let cv: u8 = g.coverage[sy * g.width + sx];
            if cv > 0 {
                proof {
                    assert(2 * (cv as int) * (color.a as int) <= 2 * 255 * 255) by (nonlinear_arith)
                        requires
                            cv <= 255,
                            color.a <= 255,
                    ;
                }
                let ea: u32 = (2 * (cv as u32) * (color.a as u32) + 255) / 510;
                proof {
                    assert(2 * (cv as int) * (color.a as int) == 2 * ((cv as int) * (
                    color.a as int))) by (nonlinear_arith);
                    assert(ea as int == spec_round_div(cv as int * color.a as int, 255));
                }
                #[verifier::truncate]
                let ea8: u8 = ea as u8;
                let src: Color = Color { r: color.r, g: color.g, b: color.b, a: ea8 };
                let blended: Color = Color::blend(b.pixels[idx], src);
                b.pixels.set(idx, blended);
            }
        }
        proof {
            assert(b.pixels@[idx as int] == spec_draw_glyph(
                old(b).pixels@,
                w as int,
                g.coverage@,
                g.width as int,
                g.height as int,
                dx as int,
                dy as int,
                color,
            )[idx as int]);
        }
        idx = idx + 1;
    }
    proof {
        assert(b.pixels@ =~= spec_draw_glyph(
            old(b).pixels@,
            w as int,
            g.coverage@,
            g.width as int,
            g.height as int,
            dx as int,
            dy as int,
            color,
        ));
    }
}

/// The RGBA pixels an outside codec decodes from these bytes, with the
/// image's dimensions; `None` when the bytes are no image.  Decoding is a
/// function of the bytes alone.
pub uninterp spec fn decoded_rgba(bytes: Seq<u8>) -> Option<(u32, u32, Seq<u8>)>;

/// Relies on `image::load_from_memory` and `DynamicImage::to_rgba8`: decodes
/// an encoded image into its dimensions and `4 * width * height` RGBA bytes,
/// a function of the input bytes alone.
#[verifier::external_body]
fn decode_rgba_bytes(data: &Vec<u8>) -> (r: Option<(u32, u32, Vec<u8>)>)
    ensures
        match r {
            Some(img) => decoded_rgba(data@) == Some((img.0, img.1, img.2@)) && img.2@.len() == 4
                * img.0 * img.1,
            Option::None => decoded_rgba(data@) is None,
        },
{
    match image::load_from_memory(data) {
        Ok(img) => {
            let rgba = img.to_rgba8();
            let (w, h) = rgba.dimensions();
            Some((w, h, rgba.into_raw()))
        },
        Err(_) => None,
    }
}

/// What an outside Lanczos3 resampler produces for these pixels and
/// dimensions: `4 * dw * dh` RGBA bytes, a function of the arguments alone.
pub uninterp spec fn resized_rgba(pixels: Seq<u8>, sw: u32, sh: u32, dw: u32, dh: u32) -> Seq<u8>;

/// Relies on `image::imageops::resize` with the `Lanczos3` filter: resampling
/// depends on the source pixels and the dimensions alone, and the result
/// holds exactly `dw * dh` RGBA pixels.
#[verifier::external_body]
fn resize_rgba_bytes(pixels: &Vec<u8>, sw: u32, sh: u32, dw: u32, dh: u32) -> (r: Vec<u8>)
    requires
        pixels@.len() == 4 * sw * sh,
        1 <= sw <= 16384,
        1 <= sh <= 16384,
        1 <= dw <= 16384,
        1 <= dh <= 16384,
    ensures
        r@ == resized_rgba(pixels@, sw, sh, dw, dh),
        r@.len() == 4 * dw * dh,
{
    let buf: image::RgbaImage = match image::ImageBuffer::from_raw(sw, sh, pixels.clone()) {
        Some(buf) => buf,
        None => return Vec::new(),
    };
    image::imageops::resize(&buf, dw, dh, image::imageops::FilterType::Lanczos3).into_raw()
}

/// RGBA bytes packed into pixel values, four bytes a pixel.
pub open spec fn spec_pixels_of(bytes: Seq<u8>, count: nat) -> Seq<Color> {
    Seq::new(
        count,
        |i: int|
            Color {
                r: bytes[4 * i],
                g: bytes[4 * i + 1],
                b: bytes[4 * i + 2],
                a: bytes[4 * i + 3],
            },
    )
}

/// Pixel values unpacked into RGBA bytes.
pub open spec fn spec_bytes_of(pixels: Seq<Color>) -> Seq<u8> {
    Seq::new(
        4 * pixels.len(),
        |i: int|
            {
                let p = pixels[i / 4];
                if i % 4 == 0 {
                    p.r
                } else if i % 4 == 1 {
                    p.g
                } else if i % 4 == 2 {
                    p.b
                } else {
                    p.a
                }
            },
    )
}

/// Packs RGBA bytes into pixel values.
fn bytes_to_pixels(bytes: &Vec<u8>, count: usize) -> (r: Vec<Color>)
    requires
        bytes@.len() == 4 * count,
    ensures
        r@.len() == count,
        r@ == spec_pixels_of(bytes@, count as nat),
        forall|i: int|
            0 <= i < count ==> r@[i] == (Color {
                r: bytes@[4 * i],
                g: bytes@[4 * i + 1],
                b: bytes@[4 * i + 2],
                a: bytes@[4 * i + 3],
            }),
{
    let total: usize = bytes.len();
    let mut out: Vec<Color> = Vec::new();
    let mut i: usize = 0;
    while i < count
        invariant
            0 <= i <= count,
            total == bytes@.len(),
            bytes@.len() == 4 * count,
            out@.len() == i,
            forall|j: int|
                0 <= j < i ==> out@[j] == (Color {
                    r: bytes@[4 * j],
                    g: bytes@[4 * j + 1],
                    b: bytes@[4 * j + 2],
                    a: bytes@[4 * j + 3],
                }),
        decreases count - i,
    {
        out.push(
            Color {
                r: bytes[4 * i],
                g: bytes[4 * i + 1],
                b: bytes[4 * i + 2],
                a: bytes[4 * i + 3],
            },
        );
        i = i + 1;
    }
    proof {
        assert(out@ =~= spec_pixels_of(bytes@, count as nat));
    }
    out
}

/// Unpacks pixel values into RGBA bytes.
pub fn pixels_to_bytes(pixels: &Vec<Color>) -> (r: Vec<u8>)
    requires
        pixels@.len() <= 0x1000_0000,
    ensures
        r@.len() == 4 * pixels@.len(),
        r@ == spec_bytes_of(pixels@),
        forall|i: int|
            0 <= i < pixels@.len() ==> r@[4 * i] == pixels@[i].r && r@[4 * i + 1] == pixels@[i].g
                && r@[4 * i + 2] == pixels@[i].b && r@[4 * i + 3] == pixels@[i].a,
{
    let n: usize = pixels.len();
    let mut out: Vec<u8> = Vec::new();
    let mut i: usize = 0;
    while i < n
        invariant
            0 <= i <= n,
            n == pixels@.len(),
            n <= 0x1000_0000,
            out@.len() == 4 * i,
            forall|j: int|
                0 <= j < i ==> out@[4 * j] == pixels@[j].r && out@[4 * j + 1] == pixels@[j].g
                    && out@[4 * j + 2] == pixels@[j].b && out@[4 * j + 3] == pixels@[j].a,
        decreases n - i,
    {
        out.push(pixels[i].r);
        out.push(pixels[i].g);
        out.push(pixels[i].b);
        out.push(pixels[i].a);
        i = i + 1;
    }
    proof {
        assert forall|j: int| 0 <= j < 4 * pixels@.len() implies out@[j] == spec_bytes_of(
            pixels@,
        )[j] by {
            vstd::arithmetic::div_mod::lemma_fundamental_div_mod(j, 4);
        }
        assert(out@ =~= spec_bytes_of(pixels@));
    }
    out
}

/// Decodes encoded image bytes into an [`ImageData`], through the trusted
/// codec wrapper; `None` exactly when the bytes are no image or its
/// dimensions leave the rasterizer's working range.  On success the pixels
/// are the packing of the decoded RGBA bytes.
pub fn decode_image(data: &Vec<u8>) -> (r: Option<ImageData>)
    ensures
        r is Some <==> (decoded_rgba(data@) matches Some(raw) && 1 <= raw.0 <= 16384 && 1 <= raw.1
            <= 16384),
        r matches Some(d) ==> image_wf(d) && (decoded_rgba(data@) matches Some(raw) && d.width
            == raw.0 && d.height == raw.1 && d.pixels@ == spec_pixels_of(
            raw.2,
            (raw.0 * raw.1) as nat,
        )),
{
    match decode_rgba_bytes(data) {
        Some((w, h, bytes)) => {
            if w >= 1 && w <= 16384 && h >= 1 && h <= 16384 {
                proof {
                    assert((w as usize) * (h as usize) <= 16384 * 16384 && 4 * ((w as int) * (
                    h as int)) == 4 * (w as int) * (h as int)) by (nonlinear_arith)
                        requires
                            w <= 16384,
                            h <= 16384,
                    ;
                }
                let count: usize = (w as usize) * (h as usize);
                let pixels: Vec<Color> = bytes_to_pixels(&bytes, count);
                Some(ImageData { width: w as usize, height: h as usize, pixels })
            } else {
                None
            }
        },
        Option::None => None,
    }
}

/// Resamples an image to the destination size with the outside Lanczos3
/// resampler: the result's pixels are the packing of the resampler's output
/// on the unpacking of the input.
pub fn resize_image(img: &ImageData, dw: usize, dh: usize) -> (r: ImageData)
    requires
        image_wf(*img),
        1 <= dw <= 16384,
        1 <= dh <= 16384,
    ensures
        image_wf(r),
        r.width == dw,
        r.height == dh,
        r.pixels@ == spec_pixels_of(
            resized_rgba(
                spec_bytes_of(img.pixels@),
                img.width as u32,
                img.height as u32,
                dw as u32,
                dh as u32,
            ),
            (dw * dh) as nat,
        ),
{
    proof {
        assert(img.width * img.height <= 16384 * 16384 && 4 * ((img.width as int) * (
        img.height as int)) == 4 * (img.width as int) * (img.height as int)) by (nonlinear_arith)
            requires
                img.width <= 16384,
                img.height <= 16384,
        ;
    }
    let bytes: Vec<u8> = pixels_to_bytes(&img.pixels);
    let out_bytes: Vec<u8> = resize_rgba_bytes(
        &bytes,
        img.width as u32,
        img.height as u32,
        dw as u32,
        dh as u32,
    );
    proof {
        assert(dw * dh <= 16384 * 16384 && 4 * ((dw as int) * (dh as int)) == 4 * (dw as int) * (
        dh as int)) by (nonlinear_arith)
            requires
                dw <= 16384,
                dh <= 16384,
        ;
    }
    let count: usize = dw * dh;
    let pixels: Vec<Color> = bytes_to_pixels(&out_bytes, count);
    ImageData { width: dw, height: dh, pixels }
}

} // verus!
