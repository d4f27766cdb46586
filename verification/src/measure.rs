//! Text measurement: the intrinsic size of a string at a font size, from
//! per-character advance widths.
//!
//! The content splits at newlines; each line's width is the sum of its
//! characters' advance widths plus the letter spacing per character, and the
//! intrinsic width is the widest line.  The intrinsic height is the number
//! of lines times the line height (the font size scaled by the per-mille
//! line-height factor).  Empty content is one empty line: width zero, height
//! one line height.

use vstd::prelude::*;
use vstd::string::StrSliceExecFns;
use crate::raster::{GlyphRaster, glyph_wf};

verus! {

/// The widest line width (counting `cur` as the already-accumulated width of
/// the current line) and the number of lines, from position `i` onward.
pub open spec fn spec_measure_acc(
    content: Seq<char>,
    advances: Seq<i64>,
    letter_spacing: int,
    i: int,
    cur: int,
) -> (int, int)
    decreases content.len() - i,
{
    if i < 0 || i >= content.len() {
        (cur, 1)
    } else if content[i] == '\n' {
        let (mw, l) = spec_measure_acc(content, advances, letter_spacing, i + 1, 0);
        (if cur >= mw { cur } else { mw }, l + 1)
    } else {
        spec_measure_acc(content, advances, letter_spacing, i + 1, cur + advances[i]
            + letter_spacing)
    }
}

/// The intrinsic size of the content: widest line width (milli-units) and
/// line count times the line height, where the line height is
/// `font_size * line_height / 1000`.
pub open spec fn spec_measure(
    content: Seq<char>,
    advances: Seq<i64>,
    font_size: int,
    line_height: int,
    letter_spacing: int,
) -> (int, int) {
    let (w, lines) = spec_measure_acc(content, advances, letter_spacing, 0, 0);
    (w, lines * (font_size * line_height / 1000))
}

/// Empty content has intrinsic width zero and the height of one line.
pub proof fn lemma_measure_empty(
    advances: Seq<i64>,
    font_size: int,
    line_height: int,
    letter_spacing: int,
)
    ensures
        spec_measure(Seq::<char>::empty(), advances, font_size, line_height, letter_spacing) == (
            0int,
            font_size * line_height / 1000,
        ),
{
    assert(spec_measure_acc(Seq::<char>::empty(), advances, letter_spacing, 0, 0) == (0int, 1int));
    assert(1 * (font_size * line_height / 1000) == font_size * line_height / 1000);
}

/// The measured width is never negative and there is always at least one line.
proof fn lemma_acc_nonneg(content: Seq<char>, advances: Seq<i64>, ls: int, i: int, cur: int)
    requires
        0 <= cur,
        0 <= ls,
        advances.len() == content.len(),
        forall|j: int| 0 <= j < advances.len() ==> (#[trigger] advances[j]) >= 0,
    ensures
        spec_measure_acc(content, advances, ls, i, cur).0 >= 0,
        spec_measure_acc(content, advances, ls, i, cur).1 >= 1,
    decreases content.len() - i,
{
    if i < 0 || i >= content.len() {
    } else if content[i] == '\n' {
        lemma_acc_nonneg(content, advances, ls, i + 1, 0);
    } else {
        lemma_acc_nonneg(content, advances, ls, i + 1, cur + advances[i] + ls);
    }
}

/// Measures a string's intrinsic size from the advances of its characters'
/// glyphs, in milli-units.
pub fn measure_text(
    content: &str,
    glyphs: &Vec<GlyphRaster>,
    font_size: i64,
    line_height: i64,
    letter_spacing: i64,
) -> (r: (i64, i64))
    requires
        glyphs@.len() == content@.len(),
        content@.len() <= 100_000,
        forall|g: int| 0 <= g < glyphs@.len() ==> glyph_wf(#[trigger] glyphs@[g]),
        0 <= font_size <= 1_000_000,
        0 <= line_height <= 1_000_000,
        0 <= letter_spacing <= 1_000_000,
    ensures
        (r.0 as int, r.1 as int) == spec_measure(
            content@,
            glyphs@.map_values(|g: GlyphRaster| g.advance),
            font_size as int,
            line_height as int,
            letter_spacing as int,
        ),
{
    let ghost advances = glyphs@.map_values(|g: GlyphRaster| g.advance);
    let n: usize = content.unicode_len();
    proof {
        assert(font_size as int * line_height as int <= 1_000_000_000_000) by (nonlinear_arith)
            requires
                0 <= font_size <= 1_000_000,
                0 <= line_height <= 1_000_000,
        ;
        assert forall|j: int| 0 <= j < advances.len() implies (#[trigger] advances[j]) >= 0 by {
            assert(glyph_wf(glyphs@[j]));
        }
        lemma_acc_nonneg(content@, advances, letter_spacing as int, 0, 0);
    }
    let line_h: i64 = font_size * line_height / 1000;
    let ghost goal = spec_measure_acc(content@, advances, letter_spacing as int, 0, 0);
    let mut best: i64 = 0;
    let mut lines: i64 = 0;
    let mut cur: i64 = 0;
    let mut i: usize = 0;
    while i < n
        invariant
            0 <= i <= n,
            n == content@.len(),
            n <= 100_000,
            glyphs@.len() == n,
            advances == glyphs@.map_values(|g: GlyphRaster| g.advance),
            forall|g: int| 0 <= g < glyphs@.len() ==> glyph_wf(#[trigger] glyphs@[g]),
            0 <= letter_spacing <= 1_000_000,
            0 <= cur <= (i as int) * 1_001_000_000,
            0 <= best <= 100_000 * 1_001_000_000,
            0 <= lines <= i,
            goal == spec_measure_acc(content@, advances, letter_spacing as int, 0, 0),
            ({
                let (mw, l) = spec_measure_acc(
                    content@,
                    advances,
                    letter_spacing as int,
                    i as int,
                    cur as int,
                );
                goal == ((if best >= mw { best as int } else { mw }), lines + l)
            }),
        decreases n - i,
    {
        let c: char = content.get_char(i);
        if c == '\n' {
            proof {
                assert(i as int * 1_001_000_000 <= 100_000 * 1_001_000_000) by (nonlinear_arith)
                    requires
                        0 <= i <= 100_000,
                ;
            }
            if cur > best {
                best = cur;
            }
            lines = lines + 1;
            cur = 0;
        } else {
            let adv: i64 = glyphs[i].advance;
            proof {
                assert(glyph_wf(glyphs@[i as int]));
                assert(advances[i as int] == glyphs@[i as int].advance);
                assert((i + 1) as int * 1_001_000_000 == i as int * 1_001_000_000 + 1_001_000_000)
                    by (nonlinear_arith);
                assert(i as int * 1_001_000_000 <= 100_000 * 1_001_000_000) by (nonlinear_arith)
                    requires
                        0 <= i <= 100_000,
                ;
            }
            cur = cur + adv + letter_spacing;
        }
        i = i + 1;
        proof {
            lemma_acc_nonneg(content@, advances, letter_spacing as int, i as int, cur as int);
        }
    }
    if cur > best {
        best = cur;
    }
    let total_lines: i64 = lines + 1;
    proof {
        assert(spec_measure_acc(content@, advances, letter_spacing as int, n as int, cur as int)
            == (cur as int, 1int));
        assert(font_size as int * line_height as int <= 1_000_000_000_000) by (nonlinear_arith)
            requires
                0 <= font_size <= 1_000_000,
                0 <= line_height <= 1_000_000,
        ;
        assert(total_lines * line_h <= 100_001 * 1_000_000_000) by (nonlinear_arith)
            requires
                0 <= total_lines <= 100_001,
                0 <= line_h <= 1_000_000_000,
        ;
    }
    (best, total_lines * line_h)
}

} // verus!
