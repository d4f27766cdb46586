//! The compositor: walks the scene in document order and draws every node's
//! resolved frame into an RGBA bitmap.
//!
//! Containers paint a background fill and a border; images are fitted by
//! their scale mode — the target edges round to the nearest whole pixel —
//! resampled, adjusted for opacity and tint, and blended; text nodes place
//! their glyph rasters along the baseline
//! `frame.bottom - frame.height / 5` with leading, centered or trailing
//! alignment, and blend each coverage map in the text color.  Stacks and
//! spacers paint nothing of their own, and a node whose frame has no area
//! rasterizes no pixels.  A node whose image or glyphs are missing from the
//! resources draws nothing; the walk never fails.
//!
//! Every stage is pinned by a specification function: the bitmap a render
//! produces equals [`spec_render_scene`] of the scene, the frames and the
//! resources, so two renders of equal inputs are equal pixel for pixel.

use vstd::prelude::*;
use vstd::string::StrSliceExecFns;
use crate::color::Color;
use crate::geom::{abs_i, floor_div, milli_to_px, spec_milli_to_px, spec_round_div, round_div};
use crate::measure::{measure_text, spec_measure};
use crate::raster::{Bitmap, GlyphRaster, ImageData, bitmap_wf, draw_border, draw_glyph, fill_rect,
    blit_image, glyph_wf, image_wf, resize_image, resized_rgba, spec_blit, spec_border,
    spec_bytes_of, spec_draw_glyph, spec_fill, spec_pixels_of};
use crate::scene::{ComputedLayout, ContainerProperties, ImageProperties, Node, NodeKind,
    ScaleMode, Scene, TextAlignment, TextProperties, scene_wf, LENGTH_BOUND};
use crate::engine::{LayoutError, layout_valid, solve_layout};

verus! {

/// The decoded images (keyed by source) and rasterized glyph runs (keyed by
/// node id, one raster per character of the content) a render consumes.
pub struct Resources {
    pub images: Vec<(String, ImageData)>,
    pub texts: Vec<(String, Vec<GlyphRaster>)>,
}

/// Every image and every glyph in the resources is well formed.
pub open spec fn resources_wf(res: Resources) -> bool {
    &&& forall|i: int| 0 <= i < res.images@.len() ==> image_wf((#[trigger] res.images@[i]).1)
    &&& forall|i: int|
        0 <= i < res.texts@.len() ==> {
            let run = (#[trigger] res.texts@[i]).1;
            &&& run@.len() <= 100_000
            &&& forall|g: int| 0 <= g < run@.len() ==> glyph_wf(#[trigger] run@[g])
        }
}

/// The first image stored under this source, scanning from `from`.
pub open spec fn spec_find_image_from(
    images: Seq<(String, ImageData)>,
    key: Seq<char>,
    from: int,
) -> Option<ImageData>
    decreases images.len() - from,
{
    if from < 0 || from >= images.len() {
        None
    } else if images[from].0@ == key {
        Some(images[from].1)
    } else {
        spec_find_image_from(images, key, from + 1)
    }
}

/// The first glyph run stored under this node id, scanning from `from`.
pub open spec fn spec_find_text_from(
    texts: Seq<(String, Vec<GlyphRaster>)>,
    key: Seq<char>,
    from: int,
) -> Option<Vec<GlyphRaster>>
    decreases texts.len() - from,
{
    if from < 0 || from >= texts.len() {
        None
    } else if texts[from].0@ == key {
        Some(texts[from].1)
    } else {
        spec_find_text_from(texts, key, from + 1)
    }
}

proof fn lemma_find_image_range(images: Seq<(String, ImageData)>, key: Seq<char>, j: int, i: int)
    requires
        0 <= j <= i <= images.len(),
        forall|t: int| j <= t < i ==> (#[trigger] images[t]).0@ != key,
    ensures
        spec_find_image_from(images, key, j) == spec_find_image_from(images, key, i),
    decreases i - j,
{
    if j < i {
        assert(images[j].0@ != key);
        lemma_find_image_range(images, key, j + 1, i);
    }
}

proof fn lemma_find_text_range(
    texts: Seq<(String, Vec<GlyphRaster>)>,
    key: Seq<char>,
    j: int,
    i: int,
)
    requires
        0 <= j <= i <= texts.len(),
        forall|t: int| j <= t < i ==> (#[trigger] texts[t]).0@ != key,
    ensures
        spec_find_text_from(texts, key, j) == spec_find_text_from(texts, key, i),
    decreases i - j,
{
    if j < i {
        assert(texts[j].0@ != key);
        lemma_find_text_range(texts, key, j + 1, i);
    }
}

/// The target size, in whole pixels, of an image of `sw x sh` source pixels
/// fitted into a frame of `fw x fh` milli-units.  `Stretch` rounds each
/// frame edge to the nearest whole pixel independently; `Fit` and `Fill`
/// scale uniformly by the smaller or larger frame-to-source ratio; `Center`
/// keeps the source size.
pub open spec fn spec_scaled_size(mode: ScaleMode, sw: int, sh: int, fw: int, fh: int) -> (
    int,
    int,
) {
    match mode {
        ScaleMode::Stretch => (spec_milli_to_px(fw), spec_milli_to_px(fh)),
        ScaleMode::Center => (sw, sh),
        ScaleMode::Fit => if fw * sh <= fh * sw {
            (spec_milli_to_px(fw), spec_round_div(sh * fw, sw * 1000))
        } else {
            (spec_round_div(sw * fh, sh * 1000), spec_milli_to_px(fh))
        },
        ScaleMode::Fill => if fw * sh >= fh * sw {
            (spec_milli_to_px(fw), spec_round_div(sh * fw, sw * 1000))
        } else {
            (spec_round_div(sw * fh, sh * 1000), spec_milli_to_px(fh))
        },
    }
}

/// Computes the target size of a fitted image, per [`spec_scaled_size`].
pub fn scaled_size(mode: ScaleMode, sw: usize, sh: usize, fw: i64, fh: i64) -> (r: (i64, i64))
    requires
        1 <= sw <= 16384,
        1 <= sh <= 16384,
        0 <= fw <= 16_384_000,
        0 <= fh <= 16_384_000,
    ensures
        (r.0 as int, r.1 as int) == spec_scaled_size(mode, sw as int, sh as int, fw as int, fh as int),
{
    proof {
        assert(fw * sh <= 16_384_000 * 16384 && fh * sw <= 16_384_000 * 16384 && sh * fw
            <= 16_384_000 * 16384 && sw * fh <= 16_384_000 * 16384) by (nonlinear_arith)
            requires
                1 <= sw <= 16384,
                1 <= sh <= 16384,
                0 <= fw <= 16_384_000,
                0 <= fh <= 16_384_000,
        ;
    }
    let swi: i64 = sw as i64;
    let shi: i64 = sh as i64;
    match mode {
        ScaleMode::Stretch => (milli_to_px(fw), milli_to_px(fh)),
        ScaleMode::Center => (swi, shi),
        ScaleMode::Fit => {
            if fw * shi <= fh * swi {
                (milli_to_px(fw), round_div(shi * fw, swi * 1000))
            } else {
                (round_div(swi * fh, shi * 1000), milli_to_px(fh))
            }
        },
        ScaleMode::Fill => {
            if fw * shi >= fh * swi {
                (milli_to_px(fw), round_div(shi * fw, swi * 1000))
            } else {
                (round_div(swi * fh, shi * 1000), milli_to_px(fh))
            }
        },
    }
}

/// A milli-unit coordinate clamped into the drawable range and rounded to
/// whole pixels.
pub open spec fn spec_px_clamped(v: int) -> int {
    let c = if v < -20_000_000 {
        -20_000_000int
    } else if v > 20_000_000 {
        20_000_000int
    } else {
        v
    };
    spec_milli_to_px(c)
}

/// Clamps a milli-unit coordinate into the drawable range and rounds it to
/// whole pixels.
fn px_clamped(v: i64) -> (r: i64)
    ensures
        r == spec_px_clamped(v as int),
        -0x1_0000_0000 <= r <= 0x1_0000_0000,
{
    let c: i64 = if v < -20_000_000 {
        -20_000_000
    } else if v > 20_000_000 {
        20_000_000
    } else {
        v
    };
    proof {
        vstd::arithmetic::div_mod::lemma_div_is_ordered(-39_999_000, 2 * c as int + 1000, 2000);
        vstd::arithmetic::div_mod::lemma_div_is_ordered(2 * c as int + 1000, 40_001_000, 2000);
    }
    milli_to_px(c)
}

/// A milli-unit length clamped into the drawable range and rounded to whole
/// pixels, never negative.
pub open spec fn spec_size_px_clamped(v: int) -> int {
    let c = if v < 0 {
        0int
    } else if v > 20_000_000 {
        20_000_000int
    } else {
        v
    };
    spec_milli_to_px(c)
}

/// Clamps a milli-unit length and rounds it to whole pixels, never negative.
fn size_px_clamped(v: i64) -> (r: i64)
    ensures
        r == spec_size_px_clamped(v as int),
        0 <= r <= 0x1_0000_0000,
{
    let c: i64 = if v < 0 {
        0
    } else if v > 20_000_000 {
        20_000_000
    } else {
        v
    };
    let px: i64 = milli_to_px(c);
    proof {
        assert(spec_round_div(c as int, 1000) >= 0);
        vstd::arithmetic::div_mod::lemma_div_is_ordered(2 * c as int + 1000, 40_001_000, 2000);
    }
    px
}

/// A pixel coordinate clamped into the raster operations' range.
pub open spec fn spec_clamp_pm32(v: int) -> int {
    if v > 0x1_0000_0000 {
        0x1_0000_0000int
    } else if v < -0x1_0000_0000 {
        -0x1_0000_0000int
    } else {
        v
    }
}

/// Clamps a pixel coordinate into the raster operations' range.
fn clamp_pm32(v: i64) -> (r: i64)
    ensures
        r == spec_clamp_pm32(v as int),
        -0x1_0000_0000 <= r <= 0x1_0000_0000,
{
    if v > 0x1_0000_0000 {
        0x1_0000_0000
    } else if v < -0x1_0000_0000 {
        -0x1_0000_0000
    } else {
        v
    }
}

/// A milli-unit size clamped into the image-fit range.
pub open spec fn spec_clamp_fit_len(v: int) -> int {
    if v < 0 {
        0int
    } else if v > 16_384_000 {
        16_384_000int
    } else {
        v
    }
}

/// Clamps a milli-unit size into the image-fit range.
fn clamp_fit_len(v: i64) -> (r: i64)
    ensures
        r == spec_clamp_fit_len(v as int),
        0 <= r <= 16_384_000,
{
    if v < 0 {
        0
    } else if v > 16_384_000 {
        16_384_000
    } else {
        v
    }
}

/// A milli-unit length clamped into the text layout's range.
pub open spec fn spec_clamp_text_len(v: int) -> int {
    if v < 0 {
        0int
    } else if v > 2_000_000_000_000 {
        2_000_000_000_000int
    } else {
        v
    }
}

/// Clamps a milli-unit length into the text layout's range.
fn clamp_text_len(v: i64) -> (r: i64)
    ensures
        r == spec_clamp_text_len(v as int),
        0 <= r <= 2_000_000_000_000,
{
    if v < 0 {
        0
    } else if v > 2_000_000_000_000 {
        2_000_000_000_000
    } else {
        v
    }
}

/// A milli-unit coordinate clamped into the text layout's range.
pub open spec fn spec_clamp_text_coord(v: int) -> int {
    if v < -2_000_000_000_000 {
        -2_000_000_000_000int
    } else if v > 2_000_000_000_000 {
        2_000_000_000_000int
    } else {
        v
    }
}

/// Clamps a milli-unit coordinate into the text layout's range.
fn clamp_text_coord(v: i64) -> (r: i64)
    ensures
        r == spec_clamp_text_coord(v as int),
        abs_i(r as int) <= 2_000_000_000_000,
{
    if v < -2_000_000_000_000 {
        -2_000_000_000_000
    } else if v > 2_000_000_000_000 {
        2_000_000_000_000
    } else {
        v
    }
}

/// A per-mille opacity clamped into the unit interval.
pub open spec fn spec_clamp_opacity(v: int) -> int {
    if v < 0 {
        0int
    } else if v > 1000 {
        1000int
    } else {
        v
    }
}

/// Clamps a per-mille opacity into the unit interval.
fn clamp_opacity(v: i64) -> (r: i64)
    ensures
        r == spec_clamp_opacity(v as int),
        0 <= r <= 1000,
{
    if v < 0 {
        0
    } else if v > 1000 {
        1000
    } else {
        v
    }
}

/// A milli-unit font metric clamped into the measurement range.
pub open spec fn spec_clamp_metric(v: int) -> int {
    if v < 0 {
        0int
    } else if v > 1_000_000 {
        1_000_000int
    } else {
        v
    }
}

/// Clamps a font metric into the measurement range.
fn clamp_metric(v: i64) -> (r: i64)
    ensures
        r == spec_clamp_metric(v as int),
        0 <= r <= 1_000_000,
{
    if v < 0 {
        0
    } else if v > 1_000_000 {
        1_000_000
    } else {
        v
    }
}

/// A measured length clamped into the solver's length range.
pub open spec fn spec_clamp_len(v: int) -> int {
    if v < 0 {
        0int
    } else if v > LENGTH_BOUND {
        LENGTH_BOUND as int
    } else {
        v
    }
}

/// Clamps a measured length into the solver's length range.
fn clamp_len(v: i64) -> (r: i64)
    ensures
        r == spec_clamp_len(v as int),
        0 <= r <= LENGTH_BOUND,
{
    if v < 0 {
        0
    } else if v > LENGTH_BOUND {
        LENGTH_BOUND
    } else {
        v
    }
}

/// The first image stored under this source, if any.
fn find_image<'a>(res: &'a Resources, key: &String) -> (r: Option<&'a ImageData>)
    requires
        resources_wf(*res),
    ensures
        match r {
            Some(img) => image_wf(*img) && spec_find_image_from(res.images@, key@, 0) == Some(
                *img,
            ),
            Option::None => spec_find_image_from(res.images@, key@, 0) is None,
        },
{
    let n: usize = res.images.len();
    let mut i: usize = 0;
    while i < n
        invariant
            0 <= i <= n,
            n == res.images@.len(),
            resources_wf(*res),
            forall|t: int| 0 <= t < i ==> (#[trigger] res.images@[t]).0@ != key@,
        decreases n - i,
    {
        if res.images[i].0 == *key {
            proof {
                lemma_find_image_range(res.images@, key@, 0, i as int);
                assert(image_wf(res.images@[i as int].1));
            }
            return Some(&res.images[i].1);
        }
        i = i + 1;
    }
    proof {
        lemma_find_image_range(res.images@, key@, 0, n as int);
    }
    None
}

/// The first glyph run stored under this node id, if any.
fn find_text<'a>(res: &'a Resources, key: &String) -> (r: Option<&'a Vec<GlyphRaster>>)
    requires
        resources_wf(*res),
    ensures
        match r {
            Some(run) => {
                &&& run@.len() <= 100_000
                &&& (forall|g: int| 0 <= g < run@.len() ==> glyph_wf(#[trigger] run@[g]))
                &&& spec_find_text_from(res.texts@, key@, 0) == Some(*run)
            },
            Option::None => spec_find_text_from(res.texts@, key@, 0) is None,
        },
{
    let n: usize = res.texts.len();
    let mut i: usize = 0;
    while i < n
        invariant
            0 <= i <= n,
            n == res.texts@.len(),
            resources_wf(*res),
            forall|t: int| 0 <= t < i ==> (#[trigger] res.texts@[t]).0@ != key@,
        decreases n - i,
    {
        if res.texts[i].0 == *key {
            proof {
                lemma_find_text_range(res.texts@, key@, 0, i as int);
                assert(res.texts@[i as int].1@.len() <= 100_000);
            }
            return Some(&res.texts[i].1);
        }
        i = i + 1;
    }
    proof {
        lemma_find_text_range(res.texts@, key@, 0, n as int);
    }
    None
}

/// The total advance width of a glyph run, with the letter spacing counted
/// once per glyph (milli-units).
pub open spec fn spec_run_width(glyphs: Seq<GlyphRaster>, ls: int) -> int
    decreases glyphs.len(),
{
    if glyphs.len() == 0 {
        0
    } else {
        spec_run_width(glyphs.drop_last(), ls) + glyphs.last().advance + ls
    }
}

/// The pen start of a glyph run inside its frame, by alignment
/// (milli-units): leading (and justified, which falls back to leading) at
/// the frame's left edge, centered splitting the leftover width, trailing
/// flush with the right edge.
pub open spec fn spec_text_x0(
    fx: int,
    fw: int,
    alignment: TextAlignment,
    total_w: int,
) -> int {
    match alignment {
        TextAlignment::Leading => fx,
        TextAlignment::Center => fx + (fw - total_w) / 2,
        TextAlignment::Trailing => fx + fw - total_w,
        TextAlignment::Justified => fx,
    }
}

/// The pixels after drawing the glyphs from index `k` on: each glyph's
/// raster is blended at the rounded pen position plus its bearing, the
/// baseline minus its height and bearing, and the pen advances by the
/// glyph's advance plus the letter spacing.
pub open spec fn spec_text_run_from(
    pixels: Seq<Color>,
    w: int,
    glyphs: Seq<GlyphRaster>,
    k: int,
    pen: int,
    baseline: int,
    ls: int,
    color: Color,
) -> Seq<Color>
    decreases glyphs.len() - k,
{
    if k < 0 || k >= glyphs.len() {
        pixels
    } else {
        let g = glyphs[k];
        let gx = spec_px_clamped(pen);
        let stepped = if g.width > 0 && g.height > 0 {
            spec_draw_glyph(
                pixels,
                w,
                g.coverage@,
                g.width as int,
                g.height as int,
                spec_clamp_pm32(gx + g.xmin),
                spec_clamp_pm32(baseline - g.height - g.ymin),
                color,
            )
        } else {
            pixels
        };
        spec_text_run_from(stepped, w, glyphs, k + 1, pen + g.advance + ls, baseline, ls, color)
    }
}

/// One text node's pixels: the glyph run drawn from the aligned pen start,
/// on the baseline one fifth of the frame height above its bottom edge.
pub open spec fn spec_paint_text(
    pixels: Seq<Color>,
    w: int,
    glyphs: Seq<GlyphRaster>,
    fx: int,
    fy: int,
    fw: int,
    fh: int,
    properties: TextProperties,
) -> Seq<Color> {
    let cfx = spec_clamp_text_coord(fx);
    let cfy = spec_clamp_text_coord(fy);
    let cfw = spec_clamp_text_len(fw);
    let cfh = spec_clamp_text_len(fh);
    let ls = spec_clamp_metric(properties.letter_spacing as int);
    let x0 = spec_text_x0(cfx, cfw, properties.alignment, spec_run_width(glyphs, ls));
    let baseline = spec_px_clamped(cfy + cfh - cfh / 5);
    spec_text_run_from(pixels, w, glyphs, 0, x0, baseline, ls, properties.color)
}

/// One container node's pixels: the background fill when it is not fully
/// transparent, then the border when its width is positive.
pub open spec fn spec_paint_container(
    pixels: Seq<Color>,
    w: int,
    fx: int,
    fy: int,
    fw: int,
    fh: int,
    properties: ContainerProperties,
) -> Seq<Color> {
    let px = spec_px_clamped(fx);
    let py = spec_px_clamped(fy);
    let pw = spec_size_px_clamped(fw);
    let ph = spec_size_px_clamped(fh);
    let filled = if properties.background.a > 0 {
        spec_fill(pixels, w, px, py, pw, ph, properties.background)
    } else {
        pixels
    };
    if properties.border_width > 0 {
        spec_border(
            filled,
            w,
            px,
            py,
            pw,
            ph,
            spec_size_px_clamped(properties.border_width as int),
            properties.border_color,
        )
    } else {
        filled
    }
}

/// One image node's pixels: the source fitted by the scale mode, resampled
/// to the target size when it is drawable, adjusted for opacity and tint,
/// and blended centered in the frame.
pub open spec fn spec_paint_image(
    pixels: Seq<Color>,
    w: int,
    img: ImageData,
    fx: int,
    fy: int,
    fw: int,
    fh: int,
    properties: ImageProperties,
) -> Seq<Color> {
    let cfw = spec_clamp_fit_len(fw);
    let cfh = spec_clamp_fit_len(fh);
    let (tw, th) = spec_scaled_size(
        properties.scale_mode,
        img.width as int,
        img.height as int,
        cfw,
        cfh,
    );
    if 1 <= tw <= 16384 && 1 <= th <= 16384 {
        let scaled = spec_pixels_of(
            resized_rgba(
                spec_bytes_of(img.pixels@),
                img.width as u32,
                img.height as u32,
                tw as u32,
                th as u32,
            ),
            (tw * th) as nat,
        );
        let dx = spec_clamp_pm32(spec_px_clamped(fx) + (spec_px_clamped(fw) - tw) / 2);
        let dy = spec_clamp_pm32(spec_px_clamped(fy) + (spec_px_clamped(fh) - th) / 2);
        spec_blit(
            pixels,
            w,
            scaled,
            tw,
            th,
            dx,
            dy,
            spec_clamp_opacity(properties.opacity as int),
            properties.tint_color,
        )
    } else {
        pixels
    }
}

/// One node's pixels over the running canvas.  A frame without area paints
/// nothing; stacks and spacers paint nothing; a missing resource paints
/// nothing.
pub open spec fn spec_paint_node(
    pixels: Seq<Color>,
    w: int,
    node: Node,
    fx: int,
    fy: int,
    fw: int,
    fh: int,
    images: Seq<(String, ImageData)>,
    texts: Seq<(String, Vec<GlyphRaster>)>,
) -> Seq<Color> {
    if fw <= 0 || fh <= 0 {
        pixels
    } else {
        match node.kind {
            NodeKind::Container { properties } => spec_paint_container(
                pixels,
                w,
                fx,
                fy,
                fw,
                fh,
                properties,
            ),
            NodeKind::Image { source, properties } => match spec_find_image_from(
                images,
                source@,
                0,
            ) {
                Some(img) => spec_paint_image(pixels, w, img, fx, fy, fw, fh, properties),
                Option::None => pixels,
            },
            NodeKind::Text { content, properties } => match spec_find_text_from(
                texts,
                node.id@,
                0,
            ) {
                Some(run) => spec_paint_text(pixels, w, run@, fx, fy, fw, fh, properties),
                Option::None => pixels,
            },
            _ => pixels,
        }
    }
}

/// The canvas before any node paints: every pixel the background color.
pub open spec fn spec_canvas_pixels(w: int, h: int, background: Color) -> Seq<Color> {
    Seq::new((w * h) as nat, |idx: int| background)
}

/// The pixels after painting the first `i` nodes, in document order, over
/// the background canvas: the painter's algorithm, later nodes over earlier
/// ones.
pub open spec fn spec_render_upto(
    s: Scene,
    cl: ComputedLayout,
    images: Seq<(String, ImageData)>,
    texts: Seq<(String, Vec<GlyphRaster>)>,
    w: int,
    h: int,
    i: int,
) -> Seq<Color>
    decreases i,
{
    if i <= 0 {
        spec_canvas_pixels(w, h, s.canvas.background)
    } else {
        let fr = cl.element_frames@[i - 1].1;
        spec_paint_node(
            spec_render_upto(s, cl, images, texts, w, h, i - 1),
            w,
            s.nodes@[i - 1],
            fr.x as int,
            fr.y as int,
            fr.width as int,
            fr.height as int,
            images,
            texts,
        )
    }
}

/// The full composition of a scene with its computed frames and resources.
pub open spec fn spec_render_scene(
    s: Scene,
    cl: ComputedLayout,
    images: Seq<(String, ImageData)>,
    texts: Seq<(String, Vec<GlyphRaster>)>,
) -> Seq<Color> {
    spec_render_upto(
        s,
        cl,
        images,
        texts,
        spec_milli_to_px(s.canvas.width as int),
        spec_milli_to_px(s.canvas.height as int),
        s.nodes@.len() as int,
    )
}

/// Draws one text node: aligns the glyph run inside the frame, places the
/// baseline at `frame.bottom - frame.height / 5`, and blends every glyph.
fn draw_text_run(
    b: &mut Bitmap,
    glyphs: &Vec<GlyphRaster>,
    fx: i64,
    fy: i64,
    fw: i64,
    fh: i64,
    properties: &TextProperties,
)
    requires
        bitmap_wf(*old(b)),
        glyphs@.len() <= 100_000,
        forall|g: int| 0 <= g < glyphs@.len() ==> glyph_wf(#[trigger] glyphs@[g]),
        abs_i(fx as int) <= 2_000_000_000_000,
        abs_i(fy as int) <= 2_000_000_000_000,
        0 <= fw <= 2_000_000_000_000,
        0 <= fh <= 2_000_000_000_000,
    ensures
        bitmap_wf(*final(b)),
        final(b).width == old(b).width,
        final(b).height == old(b).height,
        final(b).pixels@ == spec_paint_text(
            old(b).pixels@,
            old(b).width as int,
            glyphs@,
            fx as int,
            fy as int,
            fw as int,
            fh as int,
            *properties,
        ),
{
    let ls: i64 = clamp_metric(properties.letter_spacing);
    // the run's total advance width, for alignment
    let n: usize = glyphs.len();
    let mut text_w: i64 = 0;
    let mut i: usize = 0;
    while i < n
        invariant
            0 <= i <= n,
            n == glyphs@.len(),
            n <= 100_000,
            forall|g: int| 0 <= g < glyphs@.len() ==> glyph_wf(#[trigger] glyphs@[g]),
            0 <= ls <= 1_000_000,
            0 <= text_w <= (i as int) * 1_001_000_000,
            text_w == spec_run_width(glyphs@.subrange(0, i as int), ls as int),
        decreases n - i,
    {
        proof {
            assert(glyph_wf(glyphs@[i as int]));
            assert((i + 1) as int * 1_001_000_000 == i as int * 1_001_000_000 + 1_001_000_000)
                by (nonlinear_arith);
            assert(glyphs@.subrange(0, i + 1).drop_last() =~= glyphs@.subrange(0, i as int));
        }
        text_w = text_w + glyphs[i].advance + ls;
        i = i + 1;
    }
    proof {
        assert(n as int * 1_001_000_000 <= 100_000 * 1_001_000_000) by (nonlinear_arith)
            requires
                n <= 100_000,
        ;
        assert(glyphs@.subrange(0, n as int) =~= glyphs@);
    }
    let x0: i64 = match properties.alignment {
        TextAlignment::Leading => fx,
        TextAlignment::Center => fx + floor_div(fw - text_w, 2),
        TextAlignment::Trailing => fx + fw - text_w,
        TextAlignment::Justified => fx,
    };
    // the baseline sits one fifth of the frame height above its bottom edge
    let baseline_px: i64 = px_clamped(fy + fh - fh / 5);
    let ghost goal = spec_text_run_from(
        b.pixels@,
        b.width as int,
        glyphs@,
        0,
        x0 as int,
        baseline_px as int,
        ls as int,
        properties.color,
    );
    let mut pen: i64 = x0;
    let mut k: usize = 0;
    while k < n
        invariant
            0 <= k <= n,
            n == glyphs@.len(),
            n <= 100_000,
            bitmap_wf(*b),
            b.width == old(b).width,
            b.height == old(b).height,
            forall|g: int| 0 <= g < glyphs@.len() ==> glyph_wf(#[trigger] glyphs@[g]),
            0 <= ls <= 1_000_000,
            -0x1_0000_0000 <= baseline_px <= 0x1_0000_0000,
            abs_i(pen as int) <= 200_000_000_000_000 + (k as int) * 1_001_000_000,
            goal == spec_text_run_from(
                b.pixels@,
                b.width as int,
                glyphs@,
                k as int,
                pen as int,
                baseline_px as int,
                ls as int,
                properties.color,
            ),
        decreases n - k,
    {
        proof {
            assert(glyph_wf(glyphs@[k as int]));
            assert((k + 1) as int * 1_001_000_000 == k as int * 1_001_000_000 + 1_001_000_000)
                by (nonlinear_arith);
            assert(k as int * 1_001_000_000 <= 100_000 * 1_001_000_000) by (nonlinear_arith)
                requires
                    k <= 100_000,
            ;
        }
        let g: &GlyphRaster = &glyphs[k];
        let gx: i64 = px_clamped(pen);
        if g.width > 0 && g.height > 0 {
            let dx: i64 = clamp_pm32(gx + g.xmin);
            let gh: i64 = g.height as i64;
            let dy: i64 = clamp_pm32(baseline_px - gh - g.ymin);
            draw_glyph(b, g, dx, dy, properties.color);
        }
        pen = pen + g.advance + ls;
        k = k + 1;
    }
    proof {
        assert(b.pixels@ == goal);
    }
}

/// Paints one node over the running bitmap, per [`spec_paint_node`].
fn paint_node(b: &mut Bitmap, node: &Node, fx: i64, fy: i64, fw: i64, fh: i64, res: &Resources)
    requires
        bitmap_wf(*old(b)),
        resources_wf(*res),
        abs_i(fx as int) <= 2_000_000_000_000_000,
        abs_i(fy as int) <= 2_000_000_000_000_000,
        0 <= fw <= 2_000_000_000_000_000,
        0 <= fh <= 2_000_000_000_000_000,
    ensures
        bitmap_wf(*final(b)),
        final(b).width == old(b).width,
        final(b).height == old(b).height,
        final(b).pixels@ == spec_paint_node(
            old(b).pixels@,
            old(b).width as int,
            *node,
            fx as int,
            fy as int,
            fw as int,
            fh as int,
            res.images@,
            res.texts@,
        ),
{
    if fw <= 0 || fh <= 0 {
        return ;
    }
    match &node.kind {
        NodeKind::Container { properties } => {
            let px: i64 = px_clamped(fx);
            let py: i64 = px_clamped(fy);
            let pw: i64 = size_px_clamped(fw);
            let ph: i64 = size_px_clamped(fh);
            if properties.background.a > 0 {
                fill_rect(b, px, py, pw, ph, properties.background);
            }
            if properties.border_width > 0 {
                let bw: i64 = size_px_clamped(properties.border_width);
                draw_border(b, px, py, pw, ph, bw, properties.border_color);
            }
        },
        NodeKind::Image { source, properties } => {
            match find_image(res, source) {
                Some(img) => {
                    let cfw: i64 = clamp_fit_len(fw);
                    let cfh: i64 = clamp_fit_len(fh);
                    let (tw, th): (i64, i64) = scaled_size(
                        properties.scale_mode,
                        img.width,
                        img.height,
                        cfw,
                        cfh,
                    );
                    if tw >= 1 && th >= 1 && tw <= 16384 && th <= 16384 {
                        let scaled: ImageData = resize_image(img, tw as usize, th as usize);
                        // centered in the frame
                        let dx: i64 = clamp_pm32(px_clamped(fx) + floor_div(px_clamped(fw) - tw, 2));
                        let dy: i64 = clamp_pm32(px_clamped(fy) + floor_div(px_clamped(fh) - th, 2));
                        let opacity: i64 = clamp_opacity(properties.opacity);
                        blit_image(b, &scaled, dx, dy, opacity, &properties.tint_color);
                    }
                },
                Option::None => {},
            }
        },
        NodeKind::Text { properties, .. } => {
            match find_text(res, &node.id) {
                Some(glyphs) => {
                    draw_text_run(
                        b,
                        glyphs,
                        clamp_text_coord(fx),
                        clamp_text_coord(fy),
                        clamp_text_len(fw),
                        clamp_text_len(fh),
                        properties,
                    );
                },
                Option::None => {},
            }
        },
        NodeKind::VStack { .. } => {},
        NodeKind::HStack { .. } => {},
        NodeKind::ZStack { .. } => {},
        NodeKind::Spacer { .. } => {},
    }
}

/// Renders a computed layout into a bitmap: the canvas background, then
/// every node in document (painter's) order.  The result is pinned: its
/// pixels equal [`spec_render_scene`] of the inputs.
pub fn render_scene(scene: &Scene, cl: &ComputedLayout, res: &Resources) -> (r: Bitmap)
    requires
        scene_wf(*scene),
        resources_wf(*res),
        cl.element_frames@.len() == scene.nodes@.len(),
        1 <= spec_milli_to_px(scene.canvas.width as int) <= 16384,
        0 <= spec_milli_to_px(scene.canvas.height as int) <= 16384,
        forall|i: int|
            0 <= i < cl.element_frames@.len() ==> {
                let fr = (#[trigger] cl.element_frames@[i]).1;
                &&& abs_i(fr.x as int) <= 2_000_000_000_000_000
                &&& abs_i(fr.y as int) <= 2_000_000_000_000_000
                &&& 0 <= fr.width <= 2_000_000_000_000_000
                &&& 0 <= fr.height <= 2_000_000_000_000_000
            },
    ensures
        bitmap_wf(r),
        r.width == spec_milli_to_px(scene.canvas.width as int),
        r.height == spec_milli_to_px(scene.canvas.height as int),
        r.pixels@ == spec_render_scene(*scene, *cl, res.images@, res.texts@),
{
    let cw: i64 = milli_to_px(scene.canvas.width);
    let ch: i64 = milli_to_px(scene.canvas.height);
    let mut bmp: Bitmap = Bitmap::new(cw as usize, ch as usize, scene.canvas.background);
    proof {
        assert(bmp.pixels@ =~= spec_canvas_pixels(cw as int, ch as int, scene.canvas.background));
    }
    let len: usize = scene.nodes.len();
    let mut i: usize = 0;
    while i < len
        invariant
            0 <= i <= len,
            len == scene.nodes@.len(),
            scene_wf(*scene),
            resources_wf(*res),
            cl.element_frames@.len() == len,
            forall|j: int|
                0 <= j < cl.element_frames@.len() ==> {
                    let fr = (#[trigger] cl.element_frames@[j]).1;
                    &&& abs_i(fr.x as int) <= 2_000_000_000_000_000
                    &&& abs_i(fr.y as int) <= 2_000_000_000_000_000
                    &&& 0 <= fr.width <= 2_000_000_000_000_000
                    &&& 0 <= fr.height <= 2_000_000_000_000_000
                },
            bitmap_wf(bmp),
            bmp.width == spec_milli_to_px(scene.canvas.width as int),
            bmp.height == spec_milli_to_px(scene.canvas.height as int),
            bmp.pixels@ == spec_render_upto(
                *scene,
                *cl,
                res.images@,
                res.texts@,
                spec_milli_to_px(scene.canvas.width as int),
                spec_milli_to_px(scene.canvas.height as int),
                i as int,
            ),
        decreases len - i,
    {
        let frame: crate::geom::Rect = cl.element_frames[i].1;
        paint_node(&mut bmp, &scene.nodes[i], frame.x, frame.y, frame.width, frame.height, res);
        i = i + 1;
    }
    bmp
}

/// Two compositions of equal inputs are equal pixel for pixel: rendering is
/// deterministic in the scene, the frames and the resources.
pub proof fn lemma_render_scene_deterministic(
    s: Scene,
    cl: ComputedLayout,
    images: Seq<(String, ImageData)>,
    texts: Seq<(String, Vec<GlyphRaster>)>,
    first: Bitmap,
    second: Bitmap,
)
    requires
        first.pixels@ == spec_render_scene(s, cl, images, texts),
        second.pixels@ == spec_render_scene(s, cl, images, texts),
    ensures
        first.pixels@ == second.pixels@,
{
}

/// A node whose frame has no area contributes no pixels to the composition.
pub proof fn lemma_zero_size_paints_nothing(
    pixels: Seq<Color>,
    w: int,
    node: Node,
    fx: int,
    fy: int,
    fw: int,
    fh: int,
    images: Seq<(String, ImageData)>,
    texts: Seq<(String, Vec<GlyphRaster>)>,
)
    requires
        fw <= 0 || fh <= 0,
    ensures
        spec_paint_node(pixels, w, node, fx, fy, fw, fh, images, texts) == pixels,
{
}

/// The intrinsic size a node offers the solver, from the resources: a text
/// node measures its glyph run when the run matches its content character
/// for character; an image node reports its decoded pixel dimensions; a
/// missing image falls back to a hundred-pixel square placeholder, so the
/// solve still succeeds; other nodes have no intrinsic size.
pub open spec fn spec_intrinsic_of(
    s: Scene,
    images: Seq<(String, ImageData)>,
    texts: Seq<(String, Vec<GlyphRaster>)>,
    i: int,
) -> Option<(i64, i64)> {
    match s.nodes@[i].kind {
        NodeKind::Text { content, properties } => match spec_find_text_from(
            texts,
            s.nodes@[i].id@,
            0,
        ) {
            Some(run) => if run@.len() == content@.len() {
                let m = spec_measure(
                    content@,
                    run@.map_values(|g: GlyphRaster| g.advance),
                    spec_clamp_metric(properties.font_size as int),
                    spec_clamp_metric(properties.line_height as int),
                    spec_clamp_metric(properties.letter_spacing as int),
                );
                Some((spec_clamp_len(m.0) as i64, spec_clamp_len(m.1) as i64))
            } else {
                Option::None
            },
            Option::None => Option::None,
        },
        NodeKind::Image { source, .. } => match spec_find_image_from(images, source@, 0) {
            Some(img) => Some(((img.width * 1000) as i64, (img.height * 1000) as i64)),
            Option::None => Some((100_000i64, 100_000i64)),
        },
        _ => Option::None,
    }
}

/// The intrinsic sizes of a scene's nodes, per [`spec_intrinsic_of`].
pub fn intrinsics_from_resources(scene: &Scene, res: &Resources) -> (r: Vec<Option<(i64, i64)>>)
    requires
        scene_wf(*scene),
        resources_wf(*res),
    ensures
        r@.len() == scene.nodes@.len(),
        forall|a: int|
            0 <= a < r@.len() ==> r@[a] == spec_intrinsic_of(*scene, res.images@, res.texts@, a),
        forall|a: int|
            0 <= a < r@.len() ==> ((#[trigger] r@[a]) matches Some(wh) ==> 0 <= wh.0 <= LENGTH_BOUND
                && 0 <= wh.1 <= LENGTH_BOUND),
{
    let len: usize = scene.nodes.len();
    let mut out: Vec<Option<(i64, i64)>> = Vec::new();
    let mut i: usize = 0;
    while i < len
        invariant
            0 <= i <= len,
            len == scene.nodes@.len(),
            scene_wf(*scene),
            resources_wf(*res),
            out@.len() == i,
            forall|a: int|
                0 <= a < out@.len() ==> out@[a] == spec_intrinsic_of(
                    *scene,
                    res.images@,
                    res.texts@,
                    a,
                ),
            forall|a: int|
                0 <= a < out@.len() ==> ((#[trigger] out@[a]) matches Some(wh) ==> 0 <= wh.0
                    <= LENGTH_BOUND && 0 <= wh.1 <= LENGTH_BOUND),
        decreases len - i,
    {
        let entry: Option<(i64, i64)> = match &scene.nodes[i].kind {
            NodeKind::Text { content, properties } => {
                match find_text(res, &scene.nodes[i].id) {
                    Some(glyphs) => {
                        if glyphs.len() == content.unicode_len() {
                            let fs: i64 = clamp_metric(properties.font_size);
                            let lh: i64 = clamp_metric(properties.line_height);
                            let ls: i64 = clamp_metric(properties.letter_spacing);
                            let (w, h): (i64, i64) = measure_text(
                                content.as_str(),
                                glyphs,
                                fs,
                                lh,
                                ls,
                            );
                            Some((clamp_len(w), clamp_len(h)))
                        } else {
                            None
                        }
                    },
                    Option::None => None,
                }
            },
            NodeKind::Image { source, .. } => {
                match find_image(res, source) {
                    Some(img) => Some(((img.width as i64) * 1000, (img.height as i64) * 1000)),
                    Option::None => Some((100_000, 100_000)),
                }
            },
            _ => None,
        };
        proof {
            assert(entry == spec_intrinsic_of(*scene, res.images@, res.texts@, i as int));
        }
        out.push(entry);
        i = i + 1;
    }
    out
}

/// Renders a scene end to end: measures intrinsics from the resources,
/// solves the layout, and composites the frames into a bitmap.  On success
/// the pixels equal the composition of the scene with some layout that
/// satisfies every `Required` constraint; compositing itself never fails,
/// so a failure is always the layout's.
pub fn render(scene: &Scene, res: &Resources) -> (r: Result<Bitmap, LayoutError>)
    requires
        scene_wf(*scene),
        resources_wf(*res),
        1 <= spec_milli_to_px(scene.canvas.width as int) <= 16384,
        0 <= spec_milli_to_px(scene.canvas.height as int) <= 16384,
    ensures
        r matches Ok(b) ==> {
            &&& bitmap_wf(b)
            &&& b.width == spec_milli_to_px(scene.canvas.width as int)
            &&& b.height == spec_milli_to_px(scene.canvas.height as int)
            &&& exists|cl: ComputedLayout|
                {
                    &&& layout_valid(
                        *scene,
                        Seq::new(
                            scene.nodes@.len(),
                            |a: int| spec_intrinsic_of(*scene, res.images@, res.texts@, a),
                        ),
                        cl,
                    )
                    &&& b.pixels@ == #[trigger] spec_render_scene(*scene, cl, res.images@, res.texts@)
                }
        },
{
    let intrinsics: Vec<Option<(i64, i64)>> = intrinsics_from_resources(scene, res);
    let cl: ComputedLayout = match solve_layout(scene, &intrinsics) {
        Ok(cl) => cl,
        Err(e) => {
            return Err(e);
        },
    };
    proof {
        assert(intrinsics@ =~= Seq::new(
            scene.nodes@.len(),
            |a: int| spec_intrinsic_of(*scene, res.images@, res.texts@, a),
        ));
    }
    let bmp: Bitmap = render_scene(scene, &cl, res);
    Ok(bmp)
}

} // verus!
