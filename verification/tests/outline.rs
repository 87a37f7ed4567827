//! Conversion protocol: element sequences, materialization, segment
//! grouping, bounding-box containment, and borrowed-view forwarding.

use shapes2d::{BezPath, Circle, Line, PathEl, PathSeg, Point, Rect, RoundedRect, Shape, ShapeRef};

fn el_points(el: &PathEl) -> Vec<Point> {
    match el {
        PathEl::MoveTo(p) => vec![*p],
        PathEl::LineTo(p) => vec![*p],
        PathEl::QuadTo(p1, p2) => vec![*p1, *p2],
        PathEl::CurveTo(p1, p2, p3) => vec![*p1, *p2, *p3],
        PathEl::ClosePath => vec![],
    }
}

#[test]
fn materialized_outline_opens_with_move_and_closes() {
    let c = Circle::new(Point::new(100, 200), 1000);
    let p = c.to_path(100);
    let els = p.elements();
    assert!(matches!(els[0], PathEl::MoveTo(_)));
    assert!(matches!(els[els.len() - 1], PathEl::ClosePath));
    let r = Rect::new(-5, -5, 5, 5);
    let q = r.to_path(0);
    let els = q.elements();
    assert!(matches!(els[0], PathEl::MoveTo(_)));
    assert!(matches!(els[els.len() - 1], PathEl::ClosePath));
    let l = Line::new(Point::new(0, 0), Point::new(7, 7));
    let open = l.to_path(3);
    assert!(matches!(open.elements()[0], PathEl::MoveTo(_)));
}

#[test]
fn into_path_matches_to_path() {
    let c = Circle::new(Point::new(-300, 400), 900);
    let materialized = c.to_path(50);
    let owned = c.into_path(50);
    assert_eq!(materialized.elements(), owned.elements());
    let rr = RoundedRect::new(Rect::new(0, 0, 10_000, 8_000), 2_000);
    assert_eq!(rr.to_path(25).elements(), rr.into_path(25).elements());
}

#[test]
fn into_path_of_a_path_moves_it() {
    let mut p = BezPath::new();
    p.push(PathEl::MoveTo(Point::new(1, 2)));
    p.push(PathEl::LineTo(Point::new(3, 4)));
    let before: Vec<PathEl> = p.elements().to_vec();
    let after = p.into_path(77);
    assert_eq!(after.elements(), &before[..]);
}

#[test]
fn rect_segments_are_four_lines() {
    let r = Rect::new(0, 0, 4000, 2000);
    let segs = r.path_segments(1);
    assert_eq!(segs.len(), 4);
    assert_eq!(segs[0], PathSeg::Line(Point::new(0, 0), Point::new(4000, 0)));
    assert_eq!(
        segs[3],
        PathSeg::Line(Point::new(0, 2000), Point::new(0, 0))
    );
}

#[test]
fn circle_segments_are_cubics() {
    let c = Circle::new(Point::new(0, 0), 1000);
    let segs = c.path_segments(100);
    assert_eq!(segs.len(), 4);
    for s in &segs {
        assert!(matches!(s, PathSeg::Cubic(_, _, _, _)));
    }
}

#[test]
fn element_sequences_are_fresh_each_call() {
    let c = Circle::new(Point::new(0, 0), 1000);
    let a = c.path_elements(100);
    let b = c.path_elements(100);
    assert_eq!(a, b);
}

#[test]
fn all_element_points_lie_in_bounding_box() {
    let shapes_els: Vec<(Rect, Vec<PathEl>)> = vec![
        {
            let c = Circle::new(Point::new(100, 200), 500);
            (c.bounding_box(), c.path_elements(0))
        },
        {
            let rr = RoundedRect::new(Rect::new(-900, -900, 900, 900), 450);
            (rr.bounding_box(), rr.path_elements(0))
        },
        {
            let l = Line::new(Point::new(-7, 9), Point::new(7, -9));
            (l.bounding_box(), l.path_elements(0))
        },
    ];
    for (bb, els) in &shapes_els {
        for el in els {
            for p in el_points(el) {
                assert!(bb.x0 <= p.x && p.x <= bb.x1);
                assert!(bb.y0 <= p.y && p.y <= bb.y1);
            }
        }
    }
}

#[test]
fn borrowed_view_matches_owned_shape() {
    let c = Circle::new(Point::new(10, -20), 700);
    let v = ShapeRef::new(&c);
    assert_eq!(v.area(), c.area());
    assert_eq!(v.perimeter(9), c.perimeter(9));
    assert_eq!(v.bounding_box(), c.bounding_box());
    assert_eq!(v.winding(Point::new(10, -20)), c.winding(Point::new(10, -20)));
    assert_eq!(v.path_elements(30), c.path_elements(30));
    assert_eq!(v.as_circle(), c.as_circle());
    assert_eq!(v.as_rect(), None);
    let r = Rect::new(0, 0, 8, 8);
    let vr = ShapeRef::new(&r);
    assert_eq!(vr.as_rect(), Some(r));
    assert_eq!(vr.path_segments(1), r.path_segments(1));
}

#[test]
fn path_slice_probe_answers_only_for_retained_paths() {
    let mut p = BezPath::new();
    p.push(PathEl::MoveTo(Point::new(0, 0)));
    p.push(PathEl::LineTo(Point::new(5, 5)));
    let s = p.as_path_slice().expect("a retained path stores its elements");
    assert_eq!(s.len(), 2);
    assert_eq!(s[0], PathEl::MoveTo(Point::new(0, 0)));
    let c = Circle::new(Point::new(0, 0), 3);
    assert!(c.as_path_slice().is_none());
    let r = Rect::new(0, 0, 1, 1);
    assert!(r.as_path_slice().is_none());
}

#[test]
fn multiple_subpaths_group_into_segments() {
    let mut p = BezPath::new();
    p.push(PathEl::MoveTo(Point::new(0, 0)));
    p.push(PathEl::LineTo(Point::new(10, 0)));
    p.push(PathEl::ClosePath);
    p.push(PathEl::MoveTo(Point::new(20, 20)));
    p.push(PathEl::CurveTo(
        Point::new(21, 21),
        Point::new(22, 22),
        Point::new(23, 20),
    ));
    let segs = p.path_segments(1);
    assert_eq!(segs.len(), 3);
    assert_eq!(segs[0], PathSeg::Line(Point::new(0, 0), Point::new(10, 0)));
    assert_eq!(segs[1], PathSeg::Line(Point::new(10, 0), Point::new(0, 0)));
    assert_eq!(
        segs[2],
        PathSeg::Cubic(
            Point::new(20, 20),
            Point::new(21, 21),
            Point::new(22, 22),
            Point::new(23, 20)
        )
    );
}

#[test]
fn winding_is_zero_outside_bounding_box() {
    let c = Circle::new(Point::new(0, 0), 1000);
    assert_eq!(c.winding(Point::new(1500, 0)), 0);
    assert_eq!(c.winding(Point::new(-1500, 900)), 0);
    let r = Rect::new(0, 0, 40, 20);
    assert_eq!(r.winding(Point::new(-3, 10)), 0);
    assert_eq!(r.winding(Point::new(10, 25)), 0);
    let rr = RoundedRect::new(Rect::new(0, 0, 40, 20), 5);
    assert_eq!(rr.winding(Point::new(-3, 10)), 0);
    let mut p = BezPath::new();
    p.push(PathEl::MoveTo(Point::new(0, 0)));
    p.push(PathEl::LineTo(Point::new(0, 10)));
    p.push(PathEl::MoveTo(Point::new(5, 5)));
    p.push(PathEl::ClosePath);
    // Left of every point the path produces: the dangling first subpath
    // counts as a closed chain, so its crossings cancel.
    assert_eq!(p.winding(Point::new(-5, 5)), 0);
    assert_eq!(p.winding(Point::new(7, 5)), 0);
}

#[test]
fn open_subpaths_measure_as_implicitly_closed() {
    let mut p = BezPath::new();
    p.push(PathEl::MoveTo(Point::new(0, 0)));
    p.push(PathEl::LineTo(Point::new(40, 0)));
    p.push(PathEl::LineTo(Point::new(0, 30)));
    assert_eq!(p.area(), 600);
    assert_eq!(p.winding(Point::new(5, 5)), 1);
}

#[test]
fn triangle_path_measurements() {
    let mut p = BezPath::new();
    p.push(PathEl::MoveTo(Point::new(0, 0)));
    p.push(PathEl::LineTo(Point::new(40, 0)));
    p.push(PathEl::LineTo(Point::new(0, 30)));
    p.push(PathEl::ClosePath);
    assert_eq!(p.area(), 600);
    // 40 + 50 + 30.
    assert_eq!(p.perimeter(1), 120);
    assert_eq!(p.winding(Point::new(5, 5)), 1);
    assert_eq!(p.winding(Point::new(39, 29)), 0);
    assert_eq!(p.bounding_box(), Rect::new(0, 0, 40, 30));
}
