//! Coordinates of a layout, and their scaling down to pixels.

use vstd::prelude::*;

verus! {

/// How many layout units one pixel of a tile covers, in each direction.
pub const UNITS_PER_PIXEL: i64 = 4;

/// The quotient of `a` by a positive `b`, rounded toward zero.
pub open spec fn quotient(a: int, b: int) -> int {
    if a >= 0 {
        a / b
    } else {
        -((-a) / b)
    }
}

/// A point of the layout, or of the picture of it.
#[derive(Debug, Clone, Copy, PartialEq, Eq)]
pub struct Point {
    pub x: i64,
    pub y: i64,
}

/// The size of a picture in pixels.
#[derive(Debug, Clone, Copy, PartialEq, Eq)]
pub struct Extent {
    pub width: u32,
    pub height: u32,
}

/// A rectangle, given by two opposite corners.
#[derive(Debug, Clone, Copy, PartialEq, Eq)]
pub struct Rect {
    pub p0: Point,
    pub p1: Point,
}

/// A four-sided polygon, its corners in drawing order.
#[derive(Debug, Clone, Copy, PartialEq, Eq)]
pub struct Polygon {
    pub corners: (Point, Point, Point, Point),
    pub closed: bool,
}

/// The pixel in which a layout coordinate falls.
pub open spec fn pixel(coordinate: i64) -> i64 {
    quotient(coordinate as int, UNITS_PER_PIXEL as int) as i64
}

/// The outline of `rect` in pixels: round the rectangle from its first corner, along the
/// x axis first, and back.
pub open spec fn outline(rect: Rect) -> Polygon {
    Polygon {
        corners: (
            Point { x: pixel(rect.p0.x), y: pixel(rect.p0.y) },
            Point { x: pixel(rect.p1.x), y: pixel(rect.p0.y) },
            Point { x: pixel(rect.p1.x), y: pixel(rect.p1.y) },
            Point { x: pixel(rect.p0.x), y: pixel(rect.p1.y) },
        ),
        closed: true,
    }
}

/// Scales a layout coordinate down to pixels.
pub fn to_pixel(coordinate: i64) -> (r: i64)
    ensures
        r == quotient(coordinate as int, 4),
        r == pixel(coordinate),
{
    coordinate / UNITS_PER_PIXEL
}

impl Rect {
    /// The closed polygon that is drawn for the rectangle.
    pub fn to_polygon(&self) -> (r: Polygon)
        ensures
            r == outline(*self),
            r.corners.0.x == quotient(self.p0.x as int, 4),
            r.corners.0.y == quotient(self.p0.y as int, 4),
            r.corners.2.x == quotient(self.p1.x as int, 4),
            r.corners.2.y == quotient(self.p1.y as int, 4),
    {
        let xmin = to_pixel(self.p0.x);
        let ymin = to_pixel(self.p0.y);
        let xmax = to_pixel(self.p1.x);
        let ymax = to_pixel(self.p1.y);
        Polygon {
            corners: (
                Point { x: xmin, y: ymin },
                Point { x: xmax, y: ymin },
                Point { x: xmax, y: ymax },
                Point { x: xmin, y: ymax },
            ),
            closed: true,
        }
    }
}

impl Polygon {
    /// The corners in drawing order.
    pub fn points(&self) -> (r: Vec<Point>)
        ensures
            r@ == seq![self.corners.0, self.corners.1, self.corners.2, self.corners.3],
    {
        vec![self.corners.0, self.corners.1, self.corners.2, self.corners.3]
    }
}

/// Scaling down keeps the order of coordinates and is off by less than a pixel.
pub proof fn law_scaling_keeps_order(a: i64, b: i64)
    requires
        a <= b,
    ensures
        pixel(a) <= pixel(b),
        -UNITS_PER_PIXEL < a - pixel(a) * UNITS_PER_PIXEL < UNITS_PER_PIXEL,
{
}

/// Scaling down is division by four, rounded toward zero: what is left over is less than a
/// pixel and has the sign of the coordinate.
pub proof fn law_scaling_rounds_toward_zero(coordinate: i64)
    ensures
        coordinate >= 0 ==> 0 <= coordinate - 4 * pixel(coordinate) < 4,
        coordinate <= 0 ==> -4 < coordinate - 4 * pixel(coordinate) <= 0,
{
}

/// Wherever a rectangle lies, its outline shows it: the first corner of the outline is the
/// first corner of the rectangle and the third is the second, scaled down by four and rounded
/// toward zero, and the other two share a coordinate with each of them.
pub proof fn law_outline_shows_the_rectangle(rect: Rect)
    ensures
        ({
            let (a, b, c, d) = outline(rect).corners;
            let scaled = |layout: i64, shown: i64|
                (layout >= 0 ==> 0 <= layout - 4 * shown < 4) && (layout <= 0 ==> -4 < layout - 4
                    * shown <= 0);
            &&& scaled(rect.p0.x, a.x) && scaled(rect.p0.y, a.y)
            &&& scaled(rect.p1.x, b.x) && scaled(rect.p0.y, b.y)
            &&& scaled(rect.p1.x, c.x) && scaled(rect.p1.y, c.y)
            &&& scaled(rect.p0.x, d.x) && scaled(rect.p1.y, d.y)
            &&& outline(rect).closed
        }),
{
}

proof fn lemma_whole_pixel(coordinate: i64)
    requires
        coordinate as int % 4 == 0,
    ensures
        coordinate == 4 * pixel(coordinate),
{
}

/// A rectangle whose corners lie on whole pixels can be read off its outline, so no two such
/// rectangles are drawn alike.
pub proof fn law_outline_keeps_whole_pixels(rect: Rect)
    requires
        rect.p0.x as int % 4 == 0,
        rect.p0.y as int % 4 == 0,
        rect.p1.x as int % 4 == 0,
        rect.p1.y as int % 4 == 0,
    ensures
        rect.p0.x == 4 * outline(rect).corners.0.x,
        rect.p0.y == 4 * outline(rect).corners.0.y,
        rect.p1.x == 4 * outline(rect).corners.2.x,
        rect.p1.y == 4 * outline(rect).corners.2.y,
{
    lemma_whole_pixel(rect.p0.x);
    lemma_whole_pixel(rect.p0.y);
    lemma_whole_pixel(rect.p1.x);
    lemma_whole_pixel(rect.p1.y);
}

/// The outline of a rectangle runs along the axes, and whichever two opposite corners give
/// the rectangle, it has the same corners.
pub proof fn law_outline_is_a_rectangle(rect: Rect)
    ensures
        ({
            let (a, b, c, d) = outline(rect).corners;
            let (e, f, g, h) = outline(Rect { p0: rect.p1, p1: rect.p0 }).corners;
            &&& a.y == b.y && b.x == c.x && c.y == d.y && d.x == a.x
            &&& (e, f, g, h) == (c, d, a, b)
            &&& outline(rect).closed
        }),
{
}

}
