//! Colors, styles, fonts and watermark placement.

use layout_render::color::Color;
use layout_render::dsl::{DslColor, DslParser, default_font_family};
use layout_render::resource::FontManager;
use layout_render::scene::Priority;
use layout_render::style::FontWeight;
use layout_render::watermark::WatermarkPosition;

#[test]
fn test_color_creation() {
    let color = Color::new(255, 128, 64, 255);
    assert_eq!(color.r, 255);
    assert_eq!(color.g, 128);
    assert_eq!(color.b, 64);
    assert_eq!(color.a, 255);
}

#[test]
fn test_color_from_hex() {
    let color = Color::from_hex("#ff8040").unwrap();
    assert_eq!(color.r, 255);
    assert_eq!(color.g, 128);
    assert_eq!(color.b, 64);
    assert_eq!(color.a, 255);
}

#[test]
fn test_font_weight_to_number() {
    assert_eq!(FontWeight::Normal.to_number(), 400);
    assert_eq!(FontWeight::Bold.to_number(), 700);
    assert_eq!(FontWeight::Weight(500).to_number(), 500);
}

#[test]
fn test_add_search_path() {
    let mut manager = FontManager::new();
    let initial_count = manager.search_path_count();

    manager.add_search_path(String::from("/custom/fonts"));
    assert_eq!(manager.search_path_count(), initial_count + 1);
}

#[test]
fn test_hex_grammar_accepts_documented_forms() {
    assert_eq!(Color::from_hex("#FFF").unwrap(), Color::new(255, 255, 255, 255));
    assert_eq!(Color::from_hex("#1a2b3c").unwrap(), Color::new(26, 43, 60, 255));
    assert_eq!(Color::from_hex("#80808080").unwrap(), Color::new(128, 128, 128, 128));
}

#[test]
fn test_hex_grammar_rejects_everything_else() {
    assert!(Color::from_hex("").is_err());
    assert!(Color::from_hex("#").is_err());
    assert!(Color::from_hex("#12345").is_err());
    assert!(Color::from_hex("#GGHHII").is_err());
    assert!(Color::from_hex("ff8040").is_err());
    assert!(Color::parse("definitely not a color").is_err());
    assert!(Color::parse("#ff80").is_err());
}

#[test]
fn test_named_palette() {
    assert_eq!(Color::parse("transparent").unwrap(), Color::new(0, 0, 0, 0));
    assert_eq!(Color::parse("black").unwrap(), Color::new(0, 0, 0, 255));
    assert_eq!(Color::parse("WHITE").unwrap(), Color::new(255, 255, 255, 255));
    assert_eq!(Color::parse("Gray").unwrap(), Color::new(128, 128, 128, 255));
    assert_eq!(Color::parse("grey").unwrap(), Color::new(128, 128, 128, 255));
    assert_eq!(Color::parse("lightgray").unwrap(), Color::new(211, 211, 211, 255));
    assert_eq!(Color::parse("darkgrey").unwrap(), Color::new(169, 169, 169, 255));
    assert_eq!(Color::parse("magenta").unwrap(), Color::new(255, 0, 255, 255));
}

#[test]
fn test_hex_round_trip() {
    let color = Color::from_hex("#1A2B3C").unwrap();
    assert_eq!(color.to_hex(), "#1A2B3C");

    let translucent = Color::new(16, 32, 48, 64);
    assert_eq!(translucent.to_hex(), "#10203040");
    assert_eq!(Color::from_hex(&translucent.to_hex()).unwrap(), translucent);
}

#[test]
fn test_blend_preserves_opaque_alpha() {
    let dst = Color::new(10, 20, 30, 255);
    for a in [0u8, 1, 127, 128, 254, 255] {
        let out = Color::blend(dst, Color::new(200, 100, 50, a));
        assert_eq!(out.a, 255);
    }
}

#[test]
fn test_blend_exact_values() {
    // a half-transparent white over opaque black: every channel lands on 128
    let out = Color::blend(Color::new(0, 0, 0, 255), Color::new(255, 255, 255, 128));
    assert_eq!(out, Color::new(128, 128, 128, 255));

    // fully transparent source leaves the destination color
    let dst = Color::new(9, 8, 7, 255);
    assert_eq!(Color::blend(dst, Color::new(200, 200, 200, 0)), dst);

    // both fully transparent stays all zero
    assert_eq!(
        Color::blend(Color::new(5, 5, 5, 0), Color::new(7, 7, 7, 0)),
        Color::new(0, 0, 0, 0)
    );
}

#[test]
fn test_dsl_color_conversion() {
    let c = DslParser::convert_color(&DslColor::Rgba { r: 1, g: 2, b: 3, a: 4 }).unwrap();
    assert_eq!(c, Color::new(1, 2, 3, 4));
    let c = DslParser::convert_color(&DslColor::Rgb { r: 1, g: 2, b: 3 }).unwrap();
    assert_eq!(c, Color::new(1, 2, 3, 255));
    let c = DslParser::convert_color(&DslColor::Hex(String::from("#F00"))).unwrap();
    assert_eq!(c, Color::new(255, 0, 0, 255));
    let c = DslParser::convert_color(&DslColor::Named(String::from("blue"))).unwrap();
    assert_eq!(c, Color::new(0, 0, 255, 255));
    assert!(DslParser::convert_color(&DslColor::Named(String::from("mauve"))).is_err());
    assert_eq!(DslParser::parse_hex_color("#0f0").unwrap(), Color::new(0, 255, 0, 255));
    assert!(DslParser::parse_named_color("yellow").is_ok());
}

#[test]
fn test_priority_value() {
    assert_eq!(Priority::Required.value(), 1000);
    assert_eq!(Priority::High.value(), 750);
    assert_eq!(Priority::Medium.value(), 500);
    assert_eq!(Priority::Low.value(), 250);
}

#[test]
fn test_default_font_family() {
    assert_eq!(default_font_family(), "Arial");
}

#[test]
fn test_font_manager_cache_ops() {
    let mut manager = FontManager::new();
    let (count, size) = manager.cache_stats();
    assert_eq!(count, 0);
    assert_eq!(size, 0);

    manager.insert_font(
        String::from("Demo"),
        String::from("fonts/Demo.ttf"),
        vec![1, 2, 3, 4],
    );
    manager.insert_font(String::from("Other"), String::from("fonts/Other.ttf"), vec![5, 6]);
    let (count, size) = manager.cache_stats();
    assert_eq!(count, 2);
    assert_eq!(size, 6);
    assert_eq!(manager.cached_fonts(), vec![String::from("Demo"), String::from("Other")]);
    assert!(manager.get_font(&String::from("Demo")).is_some());
    assert!(manager.get_font(&String::from("Missing")).is_none());

    assert!(manager.remove_font(&String::from("Demo")));
    assert!(!manager.remove_font(&String::from("Demo")));
    manager.clear_cache();
    let (count, _) = manager.cache_stats();
    assert_eq!(count, 0);

    assert!(manager.get_default_font().is_none());
    manager.set_default_font(vec![9, 9]);
    assert_eq!(manager.get_default_font().unwrap(), &vec![9, 9]);
}

#[test]
fn test_watermark_positions() {
    let p = WatermarkPosition::TopLeft.calculate_position(800, 600, 100, 40);
    assert_eq!(p, (10, 10));
    let p = WatermarkPosition::TopRight.calculate_position(800, 600, 100, 40);
    assert_eq!(p, (690, 10));
    let p = WatermarkPosition::BottomLeft.calculate_position(800, 600, 100, 40);
    assert_eq!(p, (10, 550));
    let p = WatermarkPosition::BottomRight.calculate_position(800, 600, 100, 40);
    assert_eq!(p, (690, 550));
    let p = WatermarkPosition::Center.calculate_position(800, 600, 100, 40);
    assert_eq!(p, (350, 280));
    let p = WatermarkPosition::Custom(5, 6).calculate_position(800, 600, 100, 40);
    assert_eq!(p, (5, 6));
    // a mark larger than the image clamps to the origin
    let p = WatermarkPosition::BottomRight.calculate_position(50, 50, 100, 100);
    assert_eq!(p, (0, 0));
}
