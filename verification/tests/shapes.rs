//! Concrete scenarios for the shape capability set, with coordinates in
//! thousandths: one "unit" of the classic examples is 1000 grid steps.

use shapes2d::{BezPath, Circle, Line, PathEl, Point, Rect, RoundedRect, Shape};

#[test]
fn unit_circle_area_close_to_pi() {
    let c = Circle::new(Point::new(0, 0), 1000);
    // pi * 1000^2, with pi as 355/113, rounded down.
    assert_eq!(c.area(), 355_000_000 / 113);
    let exact = std::f64::consts::PI * 1.0e6;
    let got = c.area() as f64;
    assert!((got - exact).abs() / exact < 0.01);
}

#[test]
fn unit_circle_bounding_box_exact() {
    let c = Circle::new(Point::new(0, 0), 1000);
    assert_eq!(c.bounding_box(), Rect::new(-1000, -1000, 1000, 1000));
}

#[test]
fn unit_circle_winding_at_center() {
    let c = Circle::new(Point::new(0, 0), 1000);
    assert_eq!(c.winding(Point::new(0, 0)), 1);
    assert_eq!(c.winding(Point::new(2000, 0)), 0);
    assert_eq!(c.winding(Point::new(1000, 0)), 0);
}

#[test]
fn rect_identity_and_measurements() {
    let r = Rect::new(0, 0, 4000, 2000);
    assert_eq!(r.as_rect(), Some(r));
    assert_eq!(r.as_circle(), None);
    assert_eq!(r.as_line(), None);
    assert_eq!(r.as_rounded_rect(), None);
    assert_eq!(r.area(), 8_000_000);
    assert_eq!(r.perimeter(1), 12_000);
    assert_eq!(r.perimeter(773), 12_000);
}

#[test]
fn traced_rect_is_not_a_rect() {
    let mut p = BezPath::new();
    p.push(PathEl::MoveTo(Point::new(0, 0)));
    p.push(PathEl::LineTo(Point::new(4000, 0)));
    p.push(PathEl::LineTo(Point::new(4000, 2000)));
    p.push(PathEl::LineTo(Point::new(0, 2000)));
    p.push(PathEl::ClosePath);
    assert_eq!(p.as_rect(), None);
    assert_eq!(p.area(), 8_000_000);
    assert_eq!(p.bounding_box(), Rect::new(0, 0, 4000, 2000));
    assert_eq!(p.winding(Point::new(1000, 1000)), 1);
}

#[test]
fn open_line_length_and_box() {
    let l = Line::new(Point::new(0, 0), Point::new(3000, 4000));
    assert_eq!(l.perimeter(1), 5000);
    assert_eq!(l.perimeter(999), 5000);
    assert_eq!(l.bounding_box(), Rect::new(0, 0, 3000, 4000));
    assert_eq!(l.as_line(), Some(l));
    assert_eq!(l.as_rect(), None);
}

#[test]
fn small_line_length_exact() {
    let l = Line::new(Point::new(1, 1), Point::new(4, 5));
    assert_eq!(l.perimeter(0), 5);
}

#[test]
fn rounded_rect_segment_count_grows_as_tolerance_tightens() {
    let rr = RoundedRect::new(Rect::new(0, 0, 400_000, 400_000), 100_000);
    let coarse = rr.path_elements(500);
    let fine = rr.path_elements(10);
    let count = |els: &Vec<PathEl>| {
        els.iter()
            .filter(|e| matches!(e, PathEl::CurveTo(_, _, _)))
            .count()
    };
    assert!(count(&fine) >= count(&coarse));
    assert!(count(&fine) > count(&coarse));
    assert_eq!(count(&coarse), 4);
    assert_eq!(count(&fine), 8);
}

#[test]
fn rounded_rect_measurements() {
    let rr = RoundedRect::new(Rect::new(0, 0, 4000, 2000), 500);
    // w*h - 4r^2 + pi r^2 with pi = 355/113.
    assert_eq!(rr.area(), 8_000_000 - 4 * 250_000 + 355 * 250_000 / 113);
    // 2(w+h) - 8r + 2 pi r.
    assert_eq!(rr.perimeter(1), 12_000 - 4000 + 710 * 500 / 113);
    assert_eq!(rr.bounding_box(), Rect::new(0, 0, 4000, 2000));
    assert_eq!(rr.as_rounded_rect(), Some(rr));
    assert_eq!(rr.as_rect(), None);
    assert_eq!(rr.winding(Point::new(2000, 1000)), 1);
    assert_eq!(rr.winding(Point::new(10, 10)), 0);
    assert_eq!(rr.winding(Point::new(600, 600)), 1);
}

#[test]
fn probes_are_idempotent() {
    let r = Rect::new(1, 2, 3, 4);
    let first = r.as_rect();
    let second = r.as_rect();
    assert_eq!(first, second);
    assert_eq!(first, Some(r));
    let c = Circle::new(Point::new(5, 5), 2);
    assert_eq!(c.as_circle(), c.as_circle());
    assert_eq!(c.as_rect(), None);
    assert_eq!(c.as_line(), None);
    assert_eq!(c.as_rounded_rect(), None);
}

#[test]
fn reversed_rect_has_negative_area_and_winding() {
    let r = Rect::new(0, 2000, 4000, 0);
    assert_eq!(r.area(), -8_000_000);
    assert_eq!(r.winding(Point::new(1000, 1000)), -1);
    assert_eq!(r.bounding_box(), Rect::new(0, 0, 4000, 2000));
}

#[test]
fn circle_zero_tolerance_still_finite() {
    let c = Circle::new(Point::new(0, 0), 1_000_000);
    let els = c.path_elements(0);
    // The error estimate needs two refinement levels here: 4 * 4 arcs.
    assert_eq!(els.len(), 2 + 16);
    assert!(matches!(els[0], PathEl::MoveTo(_)));
    assert!(matches!(els[els.len() - 1], PathEl::ClosePath));
}

#[test]
fn rect_accessors() {
    let r = Rect::new(2, 3, 12, 30);
    assert_eq!(r.width(), 10);
    assert_eq!(r.height(), 27);
    let flipped = Rect::new(12, 30, 2, 3);
    assert_eq!(flipped.width(), -10);
    assert_eq!(flipped.abs(), Rect::new(2, 3, 12, 30));
}

#[test]
fn path_push_and_len() {
    let mut p = BezPath::new();
    assert_eq!(p.len(), 0);
    p.push(PathEl::MoveTo(Point::new(1, 1)));
    p.push(PathEl::QuadTo(Point::new(2, 3), Point::new(4, 1)));
    assert_eq!(p.len(), 2);
    assert_eq!(p.elements()[1], PathEl::QuadTo(Point::new(2, 3), Point::new(4, 1)));
}

#[test]
fn empty_path_measures_zero() {
    let p = BezPath::new();
    assert_eq!(p.area(), 0);
    assert_eq!(p.perimeter(1), 0);
    assert_eq!(p.winding(Point::new(5, 5)), 0);
    assert_eq!(p.bounding_box(), Rect::new(0, 0, 0, 0));
    assert_eq!(p.path_elements(10).len(), 0);
}
