//! Geometry primitives, in milli-units (one thousandth of a pixel).

use layout_render::geom::{milli_to_px, EdgeInsets, Point, Rect, Size, Unit};

#[test]
fn test_rect_contains_point() {
    let rect = Rect::new(10_000, 10_000, 100_000, 50_000);
    let point_inside = Point::new(50_000, 30_000);
    let point_outside = Point::new(5_000, 5_000);

    assert!(rect.contains_point(point_inside));
    assert!(!rect.contains_point(point_outside));
}

#[test]
fn test_unit_to_pixels() {
    let px_unit = Unit::Px(100_000);
    let percent_unit = Unit::Percent(500);

    assert_eq!(px_unit.to_pixels(200_000), 100_000);
    assert_eq!(percent_unit.to_pixels(200_000), 100_000);
    assert_eq!(Unit::Auto.to_pixels(200_000), 0);
}

#[test]
fn test_rect_intersection() {
    let rect1 = Rect::new(0, 0, 10_000, 10_000);
    let rect2 = Rect::new(5_000, 5_000, 10_000, 10_000);

    assert!(rect1.intersects(&rect2));
    let intersection = rect1.intersection(&rect2).unwrap();
    assert_eq!(intersection, Rect::new(5_000, 5_000, 5_000, 5_000));

    let far = Rect::new(50_000, 50_000, 1_000, 1_000);
    assert!(rect1.intersection(&far).is_none());

    let union = rect1.union(&rect2);
    assert_eq!(union, Rect::new(0, 0, 15_000, 15_000));
}

#[test]
fn test_edge_insets() {
    let insets = EdgeInsets::all(5_000);
    let rect = Rect::new(0, 0, 20_000, 20_000);

    let inner_rect = insets.apply_to_rect(&rect);
    assert_eq!(inner_rect, Rect::new(5_000, 5_000, 10_000, 10_000));

    let expanded_rect = insets.expand_rect(&rect);
    assert_eq!(expanded_rect, Rect::new(-5_000, -5_000, 30_000, 30_000));

    // shrinking past zero clamps the size
    let tight = EdgeInsets::all(15_000);
    assert_eq!(tight.apply_to_rect(&rect).width, 0);
}

#[test]
fn test_size_clamps_negative() {
    let s = Size::new(-5, 7);
    assert_eq!(s.width, 0);
    assert_eq!(s.height, 7);
    assert!(Size::new(0, 7).is_empty());
}

#[test]
fn test_milli_rounding() {
    assert_eq!(milli_to_px(10_400), 10);
    assert_eq!(milli_to_px(10_500), 11);
    assert_eq!(milli_to_px(10_600), 11);
    assert_eq!(milli_to_px(0), 0);
    assert_eq!(milli_to_px(-10_400), -10);
    assert_eq!(milli_to_px(-10_600), -11);
}
