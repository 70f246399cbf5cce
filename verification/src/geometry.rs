//! Axis-aligned rectangles on a page and their set operations.

use vstd::prelude::*;

verus! {

/// Largest magnitude of a coordinate of a well-formed rectangle.
///
/// With corners inside `[-COORD_LIMIT, COORD_LIMIT]` every width and height
/// fits an `i64` and every area fits an `i128` with room to spare.
pub const COORD_LIMIT: i64 = 1_000_000_000_000;

/// Numerator of the coverage threshold: an object counts as lying in an area
/// when more than `COVER_NUM / COVER_DEN` of the object's surface is inside.
pub const COVER_NUM: i128 = 9;

/// Denominator of the coverage threshold.
pub const COVER_DEN: i128 = 10;

/// `v` is a coordinate that a well-formed rectangle may hold.
pub open spec fn in_range(v: int) -> bool {
    -COORD_LIMIT <= v <= COORD_LIMIT
}

pub open spec fn spec_max(a: int, b: int) -> int {
    if a >= b { a } else { b }
}

pub open spec fn spec_min(a: int, b: int) -> int {
    if a <= b { a } else { b }
}

fn larger(a: i64, b: i64) -> (r: i64)
    ensures
        r == spec_max(a as int, b as int),
{
    if a >= b { a } else { b }
}

fn smaller(a: i64, b: i64) -> (r: i64)
    ensures
        r == spec_min(a as int, b as int),
{
    if a <= b { a } else { b }
}

/// A position on the page.
#[derive(Debug, Clone, Copy, PartialEq, Eq, Structural)]
pub struct Point {
    pub x: i64,
    pub y: i64,
}

/// An exact fraction `num / den`.
#[derive(Debug, Clone, Copy, PartialEq, Eq, Structural)]
pub struct Ratio {
    pub num: i128,
    pub den: i128,
}

/// A rectangle, held by its four corners. The y axis points down: the top
/// edge has the smaller y.
#[derive(Debug, Clone, Copy, PartialEq, Eq, Structural)]
pub struct Coordinate {
    pub top_left: Point,
    pub top_right: Point,
    pub bottom_left: Point,
    pub bottom_right: Point,
}

/// The rectangle with opposite corners `(x1, y1)` and `(x2, y2)`.
pub open spec fn rect(x1: int, y1: int, x2: int, y2: int) -> Coordinate
    recommends
        i64::MIN <= x1 <= i64::MAX,
        i64::MIN <= y1 <= i64::MAX,
        i64::MIN <= x2 <= i64::MAX,
        i64::MIN <= y2 <= i64::MAX,
{
    Coordinate {
        top_left: Point { x: x1 as i64, y: y1 as i64 },
        top_right: Point { x: x2 as i64, y: y1 as i64 },
        bottom_left: Point { x: x1 as i64, y: y2 as i64 },
        bottom_right: Point { x: x2 as i64, y: y2 as i64 },
    }
}

impl Coordinate {
    /// The four corners describe one axis-aligned rectangle, and all of them
    /// lie within the coordinate limit. The rectangle may be degenerate: its
    /// right edge may lie left of its left edge, its bottom above its top.
    pub open spec fn wf(self) -> bool {
        &&& self.top_right.x == self.bottom_right.x
        &&& self.top_right.y == self.top_left.y
        &&& self.bottom_left.x == self.top_left.x
        &&& self.bottom_left.y == self.bottom_right.y
        &&& in_range(self.top_left.x as int)
        &&& in_range(self.top_left.y as int)
        &&& in_range(self.bottom_right.x as int)
        &&& in_range(self.bottom_right.y as int)
    }

    pub open spec fn spec_width(self) -> int {
        self.top_right.x - self.top_left.x
    }

    pub open spec fn spec_height(self) -> int {
        self.bottom_left.y - self.top_left.y
    }

    pub open spec fn spec_area(self) -> int {
        self.spec_width() * self.spec_height()
    }

    /// Extent of the common part along the x axis; not positive when the two
    /// rectangles share no inner point along it.
    pub open spec fn overlap_width(self, other: Coordinate) -> int {
        spec_min(self.bottom_right.x as int, other.bottom_right.x as int) - spec_max(
            self.top_left.x as int,
            other.top_left.x as int,
        )
    }

    /// Extent of the common part along the y axis.
    pub open spec fn overlap_height(self, other: Coordinate) -> int {
        spec_min(self.bottom_right.y as int, other.bottom_right.y as int) - spec_max(
            self.top_left.y as int,
            other.top_left.y as int,
        )
    }

    /// The two rectangles share an inner point: the open intervals that they
    /// span meet on both axes. A common edge or corner alone does not count.
    pub open spec fn spec_is_intercept(self, other: Coordinate) -> bool {
        self.overlap_width(other) > 0 && self.overlap_height(other) > 0
    }

    pub open spec fn spec_intersection(self, other: Coordinate) -> Coordinate {
        rect(
            spec_max(self.top_left.x as int, other.top_left.x as int),
            spec_max(self.top_left.y as int, other.top_left.y as int),
            spec_min(self.bottom_right.x as int, other.bottom_right.x as int),
            spec_min(self.bottom_right.y as int, other.bottom_right.y as int),
        )
    }

    /// Numerator of the intersection over union: the area of the common
    /// part, or 0 where the rectangles do not overlap.
    pub open spec fn iou_num(self, other: Coordinate) -> int {
        if self.spec_is_intercept(other) {
            self.overlap_width(other) * self.overlap_height(other)
        } else {
            0
        }
    }

    /// Denominator of the intersection over union: the two areas, each as
    /// its own width times height, less the common part; 1 where the
    /// rectangles do not overlap.
    pub open spec fn iou_den(self, other: Coordinate) -> int {
        if self.spec_is_intercept(other) {
            self.spec_area() + other.spec_area() - self.overlap_width(other)
                * self.overlap_height(other)
        } else {
            1
        }
    }

    /// `other` lies mostly inside `self`: the intersection over union is
    /// positive, and the common part is more than nine tenths of `other`'s
    /// own area. Where the first holds `other`'s area is positive, so the
    /// quotient is compared by cross multiplication.
    pub open spec fn spec_mostly_contains(self, other: Coordinate) -> bool {
        &&& self.iou_num(other) > 0
        &&& COVER_DEN * self.spec_intersection(other).spec_area() > COVER_NUM * other.spec_area()
    }

    /// The rectangle with top-left corner `(x1, y1)` and bottom-right corner
    /// `(x2, y2)`.
    pub fn from_rect(x1: i64, y1: i64, x2: i64, y2: i64) -> (r: Coordinate)
        ensures
            r == rect(x1 as int, y1 as int, x2 as int, y2 as int),
            r.wf() <==> in_range(x1 as int) && in_range(y1 as int) && in_range(x2 as int)
                && in_range(y2 as int),
    {
        Coordinate {
            top_left: Point { x: x1, y: y1 },
            top_right: Point { x: x2, y: y1 },
            bottom_left: Point { x: x1, y: y2 },
            bottom_right: Point { x: x2, y: y2 },
        }
    }

    /// The rectangle with top-left corner `(x, y)` and the given extent.
    pub fn from_object(x: i64, y: i64, width: i64, height: i64) -> (r: Coordinate)
        requires
            i64::MIN <= x + width <= i64::MAX,
            i64::MIN <= y + height <= i64::MAX,
        ensures
            r == rect(x as int, y as int, x + width, y + height),
            r.wf() <==> in_range(x as int) && in_range(y as int) && in_range(x + width)
                && in_range(y + height),
    {
        Coordinate::from_rect(x, y, x + width, y + height)
    }

    pub fn width(&self) -> (r: i64)
        requires
            self.wf(),
        ensures
            r == self.spec_width(),
    {
        self.top_right.x - self.top_left.x
    }

    pub fn height(&self) -> (r: i64)
        requires
            self.wf(),
        ensures
            r == self.spec_height(),
    {
        self.bottom_left.y - self.top_left.y
    }

    /// Whether the two rectangles overlap on both axes by more than an edge.
    pub fn is_intercept(&self, other: &Coordinate) -> (r: bool)
        ensures
            r == self.spec_is_intercept(*other),
    {
        let near_x: i64 = larger(self.top_left.x, other.top_left.x);
        let far_x: i64 = smaller(self.bottom_right.x, other.bottom_right.x);
        let near_y: i64 = larger(self.top_left.y, other.top_left.y);
        let far_y: i64 = smaller(self.bottom_right.y, other.bottom_right.y);
        near_x < far_x && near_y < far_y
    }

    /// Width times height. Not clamped: zero or negative for a degenerate
    /// rectangle.
    pub fn get_area(&self) -> (r: i128)
        requires
            self.wf(),
        ensures
            r == self.spec_area(),
    {
        let w: i128 = self.width() as i128;
        let h: i128 = self.height() as i128;
        proof {
            lemma_product_bound(w as int, h as int, 2 * COORD_LIMIT);
        }
        w * h
    }

    /// The common part: per axis the larger of the two near edges and the
    /// smaller of the two far edges. Degenerate where the two do not overlap.
    pub fn intersection(&self, other: &Coordinate) -> (r: Coordinate)
        ensures
            r == self.spec_intersection(*other),
            self.wf() && other.wf() ==> r.wf(),
    {
        let x1: i64 = larger(self.top_left.x, other.top_left.x);
        let y1: i64 = larger(self.top_left.y, other.top_left.y);
        let x2: i64 = smaller(self.bottom_right.x, other.bottom_right.x);
        let y2: i64 = smaller(self.bottom_right.y, other.bottom_right.y);
        Coordinate::from_rect(x1, y1, x2, y2)
    }

    /// Intersection over union, as an exact fraction: `0 / 1` where the two
    /// do not overlap, else the common area over the sum of both areas less
    /// the common area.
    pub fn iou(&self, other: &Coordinate) -> (r: Ratio)
        requires
            self.wf(),
            other.wf(),
        ensures
            r.num == self.iou_num(*other),
            r.den == self.iou_den(*other),
    {
        let dx: i64 = smaller(self.bottom_right.x, other.bottom_right.x) - larger(
            self.top_left.x,
            other.top_left.x,
        );
        let dy: i64 = smaller(self.bottom_right.y, other.bottom_right.y) - larger(
            self.top_left.y,
            other.top_left.y,
        );
        if dx <= 0 || dy <= 0 {
            Ratio { num: 0, den: 1 }
        } else {
            let area1: i128 = self.get_area();
            let area2: i128 = other.get_area();
            proof {
                lemma_product_bound(dx as int, dy as int, 2 * COORD_LIMIT);
                lemma_product_bound(self.spec_width(), self.spec_height(), 2 * COORD_LIMIT);
                lemma_product_bound(other.spec_width(), other.spec_height(), 2 * COORD_LIMIT);
            }
            let inter_area: i128 = (dx as i128) * (dy as i128);
            Ratio { num: inter_area, den: area1 + area2 - inter_area }
        }
    }

    /// Whether `other` lies mostly inside `self`: they overlap, and more
    /// than nine tenths of `other`'s area is common to both.
    pub fn mostly_contains(&self, other: &Coordinate) -> (r: bool)
        requires
            self.wf(),
            other.wf(),
        ensures
            r == self.spec_mostly_contains(*other),
    {
        let iou: Ratio = self.iou(other);
        if iou.num > 0 {
            let common: Coordinate = self.intersection(other);
            let inside: i128 = common.get_area();
            let whole: i128 = other.get_area();
            proof {
                lemma_product_bound(common.spec_width(), common.spec_height(), 2 * COORD_LIMIT);
                lemma_product_bound(other.spec_width(), other.spec_height(), 2 * COORD_LIMIT);
            }
            COVER_DEN * inside > COVER_NUM * whole
        } else {
            false
        }
    }
}

/// A product of two factors of magnitude at most `m` has magnitude at most
/// `m * m`.
pub proof fn lemma_product_bound(a: int, b: int, m: int)
    requires
        -m <= a <= m,
        -m <= b <= m,
    ensures
        -(m * m) <= a * b <= m * m,
{
    assert(-(m * m) <= a * b <= m * m) by (nonlinear_arith)
        requires
            -m <= a <= m,
            -m <= b <= m,
    ;
}

/// Overlap does not depend on the order of the two rectangles.
pub proof fn lemma_is_intercept_symmetric(a: Coordinate, b: Coordinate)
    ensures
        a.spec_is_intercept(b) == b.spec_is_intercept(a),
{
}

/// Rectangles that at most touch do not overlap: where one ends, along
/// either axis, no later than the other begins, they share no inner point
/// and their intersection over union is 0.
pub proof fn lemma_touching_is_no_overlap(a: Coordinate, b: Coordinate)
    requires
        a.bottom_right.x <= b.top_left.x || a.bottom_right.y <= b.top_left.y,
    ensures
        !a.spec_is_intercept(b),
        !b.spec_is_intercept(a),
        a.iou_num(b) == 0,
        b.iou_num(a) == 0,
{
}

/// The intersection over union does not depend on the order of the two
/// rectangles.
pub proof fn lemma_iou_symmetric(a: Coordinate, b: Coordinate)
    ensures
        a.iou_num(b) == b.iou_num(a),
        a.iou_den(b) == b.iou_den(a),
{
}

/// The intersection over union of two well-formed rectangles lies between
/// 0 and 1: its numerator is not negative and not above its denominator,
/// which is positive.
pub proof fn lemma_iou_bounded(a: Coordinate, b: Coordinate)
    requires
        a.wf(),
        b.wf(),
    ensures
        0 <= a.iou_num(b) <= a.iou_den(b),
        a.iou_den(b) > 0,
{
    if a.spec_is_intercept(b) {
        let ow = a.overlap_width(b);
        let oh = a.overlap_height(b);
        lemma_overlap_within(a, b);
        assert(ow * oh > 0) by (nonlinear_arith)
            requires
                ow > 0,
                oh > 0,
        ;
    }
}

/// Where two well-formed rectangles overlap, both have a positive width
/// and height, and the common part is no larger than either.
pub proof fn lemma_overlap_within(a: Coordinate, b: Coordinate)
    requires
        a.wf(),
        b.wf(),
        a.spec_is_intercept(b),
    ensures
        a.spec_width() > 0,
        a.spec_height() > 0,
        b.spec_width() > 0,
        b.spec_height() > 0,
        a.overlap_width(b) * a.overlap_height(b) <= a.spec_area(),
        a.overlap_width(b) * a.overlap_height(b) <= b.spec_area(),
        a.spec_intersection(b).spec_area() == a.overlap_width(b) * a.overlap_height(b),
{
    let ow = a.overlap_width(b);
    let oh = a.overlap_height(b);
    assert(ow * oh <= a.spec_width() * a.spec_height()) by (nonlinear_arith)
        requires
            0 < ow <= a.spec_width(),
            0 < oh <= a.spec_height(),
    ;
    assert(ow * oh <= b.spec_width() * b.spec_height()) by (nonlinear_arith)
        requires
            0 < ow <= b.spec_width(),
            0 < oh <= b.spec_height(),
    ;
}

/// A well-formed rectangle of positive width and height has an
/// intersection over union of exactly 1 with itself.
pub proof fn lemma_iou_self(a: Coordinate)
    requires
        a.wf(),
        a.spec_width() > 0,
        a.spec_height() > 0,
    ensures
        a.iou_num(a) == a.iou_den(a),
        a.iou_num(a) > 0,
{
    assert(a.spec_width() * a.spec_height() > 0) by (nonlinear_arith)
        requires
            a.spec_width() > 0,
            a.spec_height() > 0,
    ;
}

} // verus!
