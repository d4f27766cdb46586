//! Layout solving and compositing, end to end.

use layout_render::color::Color;
use layout_render::compositor::{Resources, intrinsics_from_resources, render, render_scene,
    scaled_size};
use layout_render::engine::{LayoutError, solve_layout};
use layout_render::geom::Padding;
use layout_render::measure::measure_text;
use layout_render::raster::{GlyphRaster, ImageData};
use layout_render::scene::{Alignment, Canvas, Constraint, ConstraintType, ContainerProperties,
    Distribution, FontWeight, LineBreakMode, Node, NodeKind, Priority, ScaleMode, Scene,
    StackProperties, TextAlignment, TextProperties};
use layout_render::solve::ConflictInfo;

fn text_properties(font_size: i64) -> TextProperties {
    TextProperties {
        font_family: String::from("Arial"),
        font_size,
        font_weight: FontWeight::Normal,
        color: Color::new(0, 0, 0, 255),
        alignment: TextAlignment::Leading,
        line_height: 1200,
        letter_spacing: 0,
        max_lines: None,
        line_break_mode: LineBreakMode::WordWrap,
    }
}

fn text_node(id: &str, content: &str, font_size: i64, constraints: Vec<Constraint>) -> Node {
    Node {
        id: String::from(id),
        kind: NodeKind::Text { content: String::from(content), properties: text_properties(font_size) },
        constraints,
        children: Vec::new(),
    }
}

fn container_node(id: &str, background: Color, constraints: Vec<Constraint>, children: Vec<usize>) -> Node {
    Node {
        id: String::from(id),
        kind: NodeKind::Container {
            properties: ContainerProperties {
                background,
                corner_radius: 0,
                border_width: 0,
                border_color: Color::new(0, 0, 0, 255),
                opacity: 1000,
                padding: Padding::all(0),
            },
        },
        constraints,
        children,
    }
}

fn canvas(width: i64, height: i64, background: Color) -> Canvas {
    Canvas { width, height, background, padding: Padding::all(0) }
}

fn top(v: i64) -> Constraint {
    Constraint::new(ConstraintType::Top { target: None, value: v })
}

fn leading(v: i64) -> Constraint {
    Constraint::new(ConstraintType::Leading { target: None, value: v })
}

fn trailing(v: i64) -> Constraint {
    Constraint::new(ConstraintType::Trailing { target: None, value: v })
}

fn width(v: i64) -> Constraint {
    Constraint::new(ConstraintType::Width { value: Some(v), target: None, multiplier: 1000, percent: None })
}

fn height(v: i64) -> Constraint {
    Constraint::new(ConstraintType::Height { value: Some(v), target: None, multiplier: 1000, percent: None })
}

fn solid_glyph(advance: i64, w: usize, h: usize) -> GlyphRaster {
    GlyphRaster { advance, xmin: 0, ymin: 0, width: w, height: h, coverage: vec![255; w * h] }
}

/// A text with intrinsic width 80 px at `Medium` loses to a required width
/// of 200 px.
#[test]
fn test_required_width_beats_intrinsic() {
    let scene = Scene {
        canvas: canvas(400_000, 300_000, Color::white()),
        nodes: vec![text_node("t", "hello", 16_000, vec![top(0), leading(0), width(200_000)])],
    };
    let intrinsics = vec![Some((80_000_i64, 20_000_i64))];
    let cl = solve_layout(&scene, &intrinsics).unwrap();
    assert_eq!(cl.element_frames[0].1.width, 200_000);
}

/// Two required fixed widths conflict; the failure names both values.
#[test]
fn test_unsatisfiable_required_widths() {
    let scene = Scene {
        canvas: canvas(400_000, 300_000, Color::white()),
        nodes: vec![text_node("t", "hello", 16_000, vec![width(100_000), width(200_000)])],
    };
    let intrinsics = vec![None];
    match solve_layout(&scene, &intrinsics) {
        Err(LayoutError::Unsatisfiable(ConflictInfo::TwoValues { existing, requested })) => {
            assert_eq!(existing, 100_000);
            assert_eq!(requested, 200_000);
        },
        other => panic!("expected a two-value conflict, got {:?}", other.is_ok()),
    }
}

/// A constraint naming an unknown target fails with that id.
#[test]
fn test_unknown_target() {
    let scene = Scene {
        canvas: canvas(400_000, 300_000, Color::white()),
        nodes: vec![text_node(
            "t",
            "hello",
            16_000,
            vec![Constraint::new(ConstraintType::Top { target: Some(String::from("ghost")), value: 0 })],
        )],
    };
    match solve_layout(&scene, &vec![None]) {
        Err(LayoutError::ElementNotFound(id)) => assert_eq!(id, "ghost"),
        _ => panic!("expected an unknown-target failure"),
    }
}

/// A baseline alignment is rejected as unsupported.
#[test]
fn test_baseline_rejected() {
    let scene = Scene {
        canvas: canvas(400_000, 300_000, Color::white()),
        nodes: vec![
            text_node("a", "x", 16_000, vec![]),
            text_node(
                "b",
                "y",
                16_000,
                vec![Constraint::new(ConstraintType::AlignBaseline { target: String::from("a") })],
            ),
        ],
    };
    match solve_layout(&scene, &vec![None, None]) {
        Err(LayoutError::InvalidConstraint(id)) => assert_eq!(id, "b"),
        _ => panic!("expected an unsupported-constraint failure"),
    }
}

/// A node centered on a 400x300 canvas with an 60x28.8 px intrinsic size
/// sits at x = (400 - 60) / 2 and y = (300 - 28.8) / 2.
#[test]
fn test_centered_title_frame() {
    let scene = Scene {
        canvas: canvas(400_000, 300_000, Color::white()),
        nodes: vec![text_node(
            "title",
            "Hello",
            24_000,
            vec![
                Constraint::new(ConstraintType::CenterX { target: None, offset: 0 }),
                Constraint::new(ConstraintType::CenterY { target: None, offset: 0 }),
            ],
        )],
    };
    let intrinsics = vec![Some((60_000_i64, 28_800_i64))];
    let cl = solve_layout(&scene, &intrinsics).unwrap();
    let frame = cl.element_frames[0].1;
    assert_eq!(frame.width, 60_000);
    assert_eq!(frame.height, 28_800);
    assert_eq!(frame.x, 170_000);
    assert_eq!(frame.y, 135_600);
}

/// The corners of a rendered centered-title canvas keep the background.
#[test]
fn test_centered_title_corners_white() {
    let scene = Scene {
        canvas: canvas(400_000, 300_000, Color::white()),
        nodes: vec![text_node(
            "title",
            "Hello",
            24_000,
            vec![
                Constraint::new(ConstraintType::CenterX { target: None, offset: 0 }),
                Constraint::new(ConstraintType::CenterY { target: None, offset: 0 }),
            ],
        )],
    };
    let glyphs: Vec<GlyphRaster> = (0..5).map(|_| solid_glyph(12_000, 10, 18)).collect();
    let res = Resources { images: vec![], texts: vec![(String::from("title"), glyphs)] };
    let bmp = render(&scene, &res).unwrap();
    assert_eq!(bmp.width, 400);
    assert_eq!(bmp.height, 300);
    let white = Color::new(255, 255, 255, 255);
    assert_eq!(bmp.get(0, 0), white);
    assert_eq!(bmp.get(399, 0), white);
    assert_eq!(bmp.get(0, 299), white);
    assert_eq!(bmp.get(399, 299), white);
    // the glyphs did land somewhere near the middle
    assert_eq!(bmp.get(175, 145), Color::new(0, 0, 0, 255));
}

/// Three 20 px children of a vertical stack with 10 px spacing sit at
/// y = 0, 30 and 60.
#[test]
fn test_vstack_spacing() {
    let stack = Node {
        id: String::from("stack"),
        kind: NodeKind::VStack {
            properties: StackProperties {
                spacing: 10_000,
                alignment: Alignment::Leading,
                distribution: Distribution::Fill,
            },
        },
        constraints: vec![top(0), leading(0), width(100_000)],
        children: vec![1, 2, 3],
    };
    let scene = Scene {
        canvas: canvas(100_000, 300_000, Color::white()),
        nodes: vec![
            stack,
            text_node("a", "aa", 16_000, vec![]),
            text_node("b", "bb", 16_000, vec![]),
            text_node("c", "cc", 16_000, vec![]),
        ],
    };
    let intr = Some((50_000_i64, 20_000_i64));
    let cl = solve_layout(&scene, &vec![None, intr, intr, intr]).unwrap();
    assert_eq!(cl.element_frames[1].1.y, 0);
    assert_eq!(cl.element_frames[2].1.y, 30_000);
    assert_eq!(cl.element_frames[3].1.y, 60_000);
    // the stack's height derives from its children
    assert_eq!(cl.element_frames[0].1.height, 80_000);
}

/// A text sized to half its container's width gets 250 px of a 500 px
/// container.
#[test]
fn test_percent_width() {
    let container = container_node(
        "box",
        Color::new(200, 200, 200, 255),
        vec![top(0), leading(0), trailing(0), height(100_000)],
        vec![1],
    );
    let text = text_node(
        "t",
        "hi",
        16_000,
        vec![
            top(0),
            leading(0),
            Constraint::new(ConstraintType::Width {
                value: None,
                target: Some(String::from("box")),
                multiplier: 1000,
                percent: Some(500),
            }),
        ],
    );
    let scene = Scene {
        canvas: canvas(500_000, 100_000, Color::white()),
        nodes: vec![container, text],
    };
    let cl = solve_layout(&scene, &vec![None, None]).unwrap();
    assert_eq!(cl.element_frames[0].1.width, 500_000);
    assert_eq!(cl.element_frames[1].1.width, 250_000);
}

/// A zero-width node rasterizes no pixels and the render does not fail.
#[test]
fn test_zero_width_node_draws_nothing() {
    let scene = Scene {
        canvas: canvas(50_000, 50_000, Color::white()),
        nodes: vec![container_node(
            "empty",
            Color::new(255, 0, 0, 255),
            vec![top(0), leading(0), width(0), height(50_000)],
            vec![],
        )],
    };
    let res = Resources { images: vec![], texts: vec![] };
    let bmp = render(&scene, &res).unwrap();
    for y in 0..50 {
        for x in 0..50 {
            assert_eq!(bmp.get(x, y), Color::new(255, 255, 255, 255));
        }
    }
}

/// A zero-height text node paints no glyphs even though its run covers
/// pixels.
#[test]
fn test_zero_size_text_draws_nothing() {
    let scene = Scene {
        canvas: canvas(50_000, 50_000, Color::white()),
        nodes: vec![text_node(
            "t",
            "xx",
            16_000,
            vec![top(10_000), leading(10_000), width(30_000), height(0)],
        )],
    };
    let glyphs = vec![solid_glyph(10_000, 8, 12), solid_glyph(10_000, 8, 12)];
    let res = Resources { images: vec![], texts: vec![(String::from("t"), glyphs)] };
    let bmp = render(&scene, &res).unwrap();
    for y in 0..50 {
        for x in 0..50 {
            assert_eq!(bmp.get(x, y), Color::new(255, 255, 255, 255));
        }
    }
}

/// Stretch fitting rounds each destination edge to the nearest pixel.
#[test]
fn test_stretch_rounds_to_nearest() {
    assert_eq!(scaled_size(ScaleMode::Stretch, 4, 4, 10_400, 10_600), (10, 11));
    assert_eq!(scaled_size(ScaleMode::Stretch, 4, 4, 10_500, 9_499), (11, 9));
    assert_eq!(scaled_size(ScaleMode::Center, 4, 7, 10_400, 10_600), (4, 7));
    // Fit scales uniformly by the tighter axis
    assert_eq!(scaled_size(ScaleMode::Fit, 4, 2, 100_000, 100_000), (100, 50));
    // Fill scales uniformly by the wider axis
    assert_eq!(scaled_size(ScaleMode::Fill, 4, 2, 100_000, 100_000), (200, 100));
}

/// Empty text content measures zero width and one line height.
#[test]
fn test_measure_empty_text() {
    assert_eq!(measure_text("", &vec![], 24_000, 1200, 0), (0, 28_800));
}

/// Multi-line content measures its widest line and counts its lines.
#[test]
fn test_measure_multiline() {
    let g = |a: i64| solid_glyph(a, 1, 1);
    // "ab\ncde": widest line 3 * 10 px, two lines
    let glyphs = vec![g(10_000), g(10_000), g(0), g(10_000), g(10_000), g(10_000)];
    assert_eq!(measure_text("ab\ncde", &glyphs, 16_000, 1000, 0), (30_000, 32_000));
}

fn checkerboard() -> ImageData {
    let dark = Color::new(40, 40, 40, 255);
    let lite = Color::new(220, 220, 220, 255);
    let mut pixels = Vec::new();
    for y in 0..4 {
        for x in 0..4 {
            pixels.push(if (x + y) % 2 == 0 { dark } else { lite });
        }
    }
    ImageData { width: 4, height: 4, pixels }
}

fn stretched_image_scene() -> (Scene, Resources) {
    let image = Node {
        id: String::from("img"),
        kind: NodeKind::Image {
            source: String::from("checker"),
            properties: layout_render::scene::ImageProperties {
                scale_mode: ScaleMode::Stretch,
                aspect_ratio: None,
                corner_radius: 0,
                opacity: 1000,
                tint_color: None,
            },
        },
        constraints: vec![top(0), leading(0), width(200_000), height(200_000)],
        children: vec![],
    };
    let scene = Scene {
        canvas: canvas(200_000, 200_000, Color::transparent()),
        nodes: vec![image],
    };
    let res = Resources { images: vec![(String::from("checker"), checkerboard())], texts: vec![] };
    (scene, res)
}

/// A 4x4 checkerboard stretched over a transparent 200x200 canvas matches
/// the resampler's own upscaling exactly, with alpha 255 everywhere.
#[test]
fn test_stretched_image_pixels() {
    let (scene, res) = stretched_image_scene();
    let bmp = render(&scene, &res).unwrap();
    assert_eq!(bmp.width, 200);
    assert_eq!(bmp.height, 200);

    // the same upscaling, straight from the resampler
    let src = checkerboard();
    let mut raw = Vec::new();
    for p in &src.pixels {
        raw.extend_from_slice(&[p.r, p.g, p.b, p.a]);
    }
    let buf = image::RgbaImage::from_raw(4, 4, raw).unwrap();
    let expected = image::imageops::resize(&buf, 200, 200, image::imageops::FilterType::Lanczos3);

    for y in 0..200usize {
        for x in 0..200usize {
            let got = bmp.get(x, y);
            let want = expected.get_pixel(x as u32, y as u32);
            assert_eq!((got.r, got.g, got.b, got.a), (want[0], want[1], want[2], want[3]));
            assert_eq!(got.a, 255);
        }
    }
}

/// Rendering the same scene twice gives identical pixel arrays.
#[test]
fn test_render_twice_identical() {
    let (scene, res) = stretched_image_scene();
    let first = render(&scene, &res).unwrap();
    let second = render(&scene, &res).unwrap();
    assert_eq!(first.pixels.len(), second.pixels.len());
    for (a, b) in first.pixels.iter().zip(second.pixels.iter()) {
        assert_eq!(a, b);
    }
}

/// Intrinsics from resources: text measures its run, an image reports its
/// size, a missing image falls back to a hundred-pixel placeholder.
#[test]
fn test_intrinsics_from_resources() {
    let scene = Scene {
        canvas: canvas(400_000, 300_000, Color::white()),
        nodes: vec![
            text_node("t", "ab", 16_000, vec![]),
            Node {
                id: String::from("i"),
                kind: NodeKind::Image {
                    source: String::from("missing"),
                    properties: layout_render::scene::ImageProperties {
                        scale_mode: ScaleMode::Fit,
                        aspect_ratio: None,
                        corner_radius: 0,
                        opacity: 1000,
                        tint_color: None,
                    },
                },
                constraints: vec![],
                children: vec![],
            },
        ],
    };
    let glyphs = vec![solid_glyph(9_000, 7, 12), solid_glyph(11_000, 7, 12)];
    let res = Resources { images: vec![], texts: vec![(String::from("t"), glyphs)] };
    let intr = intrinsics_from_resources(&scene, &res);
    assert_eq!(intr[0], Some((20_000, 19_200)));
    assert_eq!(intr[1], Some((100_000, 100_000)));
}

/// A container fill blends over the background; a border keeps the interior.
#[test]
fn test_container_fill_and_border() {
    let mut node = container_node(
        "box",
        Color::new(0, 0, 255, 255),
        vec![top(10_000), leading(10_000), width(30_000), height(20_000)],
        vec![],
    );
    match &mut node.kind {
        NodeKind::Container { properties } => {
            properties.border_width = 2_000;
            properties.border_color = Color::new(255, 0, 0, 255);
        },
        _ => unreachable!(),
    }
    let scene = Scene { canvas: canvas(60_000, 50_000, Color::white()), nodes: vec![node] };
    let res = Resources { images: vec![], texts: vec![] };
    let bmp = render(&scene, &res).unwrap();
    // outside the box: background
    assert_eq!(bmp.get(5, 5), Color::new(255, 255, 255, 255));
    // on the border band: border color
    assert_eq!(bmp.get(11, 11), Color::new(255, 0, 0, 255));
    // inside: background fill of the container
    assert_eq!(bmp.get(25, 20), Color::new(0, 0, 255, 255));
}
