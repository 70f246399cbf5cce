use pdf_layout::{Coordinate, Point, Ratio};

#[test]
fn test_coordinate_is_intercept() {
    let a = Coordinate::from_rect(0, 0, 10, 10);
    let b = Coordinate::from_rect(5, 5, 15, 15);
    let c = Coordinate::from_rect(15, 15, 25, 25);
    let d = Coordinate::from_rect(0, 0, 5, 5);
    let e = Coordinate::from_rect(20, 5, 25, 10);
    let f = Coordinate::from_rect(5, 20, 10, 25);

    assert!(a.is_intercept(&b));
    assert!(!a.is_intercept(&c));
    assert!(a.is_intercept(&d));
    assert!(!a.is_intercept(&e));
    assert!(!a.is_intercept(&f));
    assert!(!b.is_intercept(&c));
    assert!(!b.is_intercept(&d));
    assert!(!b.is_intercept(&e));
    assert!(!b.is_intercept(&f));
}

#[test]
fn from_rect_sets_the_four_corners() {
    let a = Coordinate::from_rect(1, 2, 30, 40);
    assert_eq!(a.top_left, Point { x: 1, y: 2 });
    assert_eq!(a.top_right, Point { x: 30, y: 2 });
    assert_eq!(a.bottom_left, Point { x: 1, y: 40 });
    assert_eq!(a.bottom_right, Point { x: 30, y: 40 });
}

#[test]
fn from_object_equals_from_rect() {
    let a = Coordinate::from_object(3, 4, 10, 20);
    let b = Coordinate::from_rect(3, 4, 13, 24);
    assert_eq!(a, b);
}

#[test]
fn width_height_and_area() {
    let a = Coordinate::from_rect(2, 3, 12, 8);
    assert_eq!(a.width(), 10);
    assert_eq!(a.height(), 5);
    assert_eq!(a.get_area(), 50);
}

#[test]
fn area_of_a_degenerate_rectangle_is_not_clamped() {
    let flat = Coordinate::from_rect(0, 0, 10, 0);
    assert_eq!(flat.get_area(), 0);
    let turned = Coordinate::from_rect(10, 0, 0, 10);
    assert_eq!(turned.width(), -10);
    assert_eq!(turned.get_area(), -100);
}

#[test]
fn area_at_the_coordinate_limit() {
    let limit = pdf_layout::COORD_LIMIT;
    let a = Coordinate::from_rect(-limit, -limit, limit, limit);
    assert_eq!(a.width(), 2_000_000_000_000);
    assert_eq!(a.get_area(), 4_000_000_000_000_000_000_000_000i128);
    let r = a.iou(&a);
    assert_eq!(r.num, r.den);
}

#[test]
fn overlap_is_symmetric() {
    let rects = [
        Coordinate::from_rect(0, 0, 10, 10),
        Coordinate::from_rect(5, 5, 15, 15),
        Coordinate::from_rect(10, 0, 20, 10),
        Coordinate::from_rect(-5, -5, 1, 1),
        Coordinate::from_rect(3, 3, 3, 9),
        Coordinate::from_rect(8, 8, 2, 2),
    ];
    for a in rects.iter() {
        for b in rects.iter() {
            assert_eq!(a.is_intercept(b), b.is_intercept(a));
            assert_eq!(a.iou(b), b.iou(a));
        }
    }
}

#[test]
fn shared_boundary_is_no_overlap() {
    let a = Coordinate::from_rect(0, 0, 10, 10);
    let b = Coordinate::from_rect(10, 0, 20, 10);
    assert!(!a.is_intercept(&b));
    assert!(!b.is_intercept(&a));
    assert_eq!(a.iou(&b), Ratio { num: 0, den: 1 });
    let corner = Coordinate::from_rect(10, 10, 20, 20);
    assert!(!a.is_intercept(&corner));
    assert_eq!(a.iou(&corner), Ratio { num: 0, den: 1 });
}

#[test]
fn partial_overlap_of_two_squares() {
    let a = Coordinate::from_rect(0, 0, 10, 10);
    let b = Coordinate::from_rect(5, 5, 15, 15);
    assert!(a.is_intercept(&b));
    assert_eq!(a.intersection(&b), Coordinate::from_rect(5, 5, 10, 10));
    let r = a.iou(&b);
    assert_eq!(r, Ratio { num: 25, den: 175 });
    let as_float = r.num as f64 / r.den as f64;
    assert!((as_float - 0.142857).abs() < 0.000001);
}

#[test]
fn iou_with_itself_is_one() {
    let a = Coordinate::from_rect(2, 3, 12, 8);
    let r = a.iou(&a);
    assert_eq!(r, Ratio { num: 50, den: 50 });
}

#[test]
fn iou_of_a_degenerate_rectangle_is_zero() {
    let flat = Coordinate::from_rect(0, 0, 10, 0);
    assert_eq!(flat.iou(&flat), Ratio { num: 0, den: 1 });
    let a = Coordinate::from_rect(0, -5, 10, 5);
    assert_eq!(a.iou(&flat), Ratio { num: 0, den: 1 });
    assert!(!a.is_intercept(&flat));
}

#[test]
fn iou_lies_between_zero_and_one() {
    let rects = [
        Coordinate::from_rect(0, 0, 10, 10),
        Coordinate::from_rect(5, 5, 15, 15),
        Coordinate::from_rect(2, 2, 4, 4),
        Coordinate::from_rect(-7, 1, 30, 3),
        Coordinate::from_rect(9, 9, 1, 1),
    ];
    for a in rects.iter() {
        for b in rects.iter() {
            let r = a.iou(b);
            assert!(r.den > 0);
            assert!(0 <= r.num && r.num <= r.den);
        }
    }
}

#[test]
fn containment_does_not_give_iou_one() {
    let large = Coordinate::from_rect(0, 0, 10, 10);
    let small = Coordinate::from_rect(2, 2, 4, 4);
    assert_eq!(large.iou(&small), Ratio { num: 4, den: 100 });
}

#[test]
fn intersection_of_disjoint_rectangles_is_degenerate() {
    let a = Coordinate::from_rect(0, 0, 10, 10);
    let c = Coordinate::from_rect(15, 15, 25, 25);
    let common = a.intersection(&c);
    assert_eq!(common, Coordinate::from_rect(15, 15, 10, 10));
    assert_eq!(common.width(), -5);
}

#[test]
fn mostly_contains_needs_more_than_nine_tenths() {
    let area = Coordinate::from_rect(0, 0, 100, 100);
    // exactly nine tenths inside: not enough
    let nine = Coordinate::from_rect(-1, 0, 9, 10);
    assert!(!area.mostly_contains(&nine));
    // ninety-one hundredths inside
    let more = Coordinate::from_rect(-9, 0, 91, 10);
    assert!(area.mostly_contains(&more));
    // wholly inside
    let inside = Coordinate::from_rect(10, 10, 20, 20);
    assert!(area.mostly_contains(&inside));
    // wholly outside
    let outside = Coordinate::from_rect(200, 200, 210, 210);
    assert!(!area.mostly_contains(&outside));
    // degenerate
    let flat = Coordinate::from_rect(10, 10, 20, 10);
    assert!(!area.mostly_contains(&flat));
}

#[test]
fn a_rectangle_without_width_overlaps_nothing() {
    let area = Coordinate::from_rect(0, 0, 10, 10);
    let upright = Coordinate::from_rect(5, 0, 5, 10);
    assert!(!area.is_intercept(&upright));
    assert!(!upright.is_intercept(&area));
    assert!(!upright.is_intercept(&upright));
    let turned = Coordinate::from_rect(8, 8, 2, 2);
    assert!(!area.is_intercept(&turned));
    assert_eq!(area.iou(&turned), Ratio { num: 0, den: 1 });
}
