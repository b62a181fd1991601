use crate::canvas::{paint, Displayable, Drawable};
use crate::point::{cells, random_in, white, Color, Point, RangeError};
use vstd::prelude::*;

verus! {

broadcast use vstd::seq_lib::group_seq_properties;

/// The eight mirror images of the arc point `(x, y)` around `c`, in the
/// order they are written.
pub open spec fn octants(c: (int, int), x: int, y: int) -> Seq<(int, int)> {
    seq![
        (c.0 + y, c.1 + x),
        (c.0 + x, c.1 + y),
        (c.0 - x, c.1 + y),
        (c.0 - y, c.1 + x),
        (c.0 - y, c.1 - x),
        (c.0 - x, c.1 - y),
        (c.0 + x, c.1 - y),
        (c.0 + y, c.1 - x),
    ]
}

/// The midpoint recurrence from the arc point `(x, y)` with decision value
/// `d`: while `x < y`, write the eight images of `(x, y)`, then step `x`,
/// and step `y` down too when `d` is not negative.
pub open spec fn midpoint_trace(c: (int, int), x: int, y: int, d: int) -> Seq<(int, int)>
    decreases y - x + 1,
{
    if x < y {
        octants(c, x, y) + if d < 0 {
            midpoint_trace(c, x + 1, y, d + 4 * x + 6)
        } else {
            midpoint_trace(c, x + 1, y - 1, d + 4 * (x - y) + 10)
        }
    } else {
        Seq::empty()
    }
}

/// The pixels written for a circle of radius `r` around `c`, in writing order.
pub open spec fn circle_pixels(c: (int, int), r: int) -> Seq<(int, int)> {
    midpoint_trace(c, 0, r, 3 - 2 * r)
}

/// Every pixel of the circle is a position that an `i32` pair can name.
pub open spec fn circle_fits(c: Point, r: i32) -> bool {
    r <= 0 || (i32::MIN <= c.x - r && c.x + r <= i32::MAX && i32::MIN <= c.y - r && c.y + r
        <= i32::MAX)
}

/// The distance from `p` to `q` is strictly less than `s`.
pub open spec fn closer_than(p: (int, int), q: (int, int), s: int) -> bool {
    0 < s && (p.0 - q.0) * (p.0 - q.0) + (p.1 - q.1) * (p.1 - q.1) < s * s
}

/// A circle of radius zero or less writes nothing.
pub proof fn lemma_circle_empty(c: (int, int), r: int)
    requires
        r <= 0,
    ensures
        circle_pixels(c, r).len() == 0,
{
}

/// A circle of positive radius writes the four pixels on its axes.
pub proof fn lemma_circle_axes(c: (int, int), r: int)
    requires
        0 < r,
    ensures
        circle_pixels(c, r).contains((c.0 + r, c.1)),
        circle_pixels(c, r).contains((c.0, c.1 + r)),
        circle_pixels(c, r).contains((c.0 - r, c.1)),
        circle_pixels(c, r).contains((c.0, c.1 - r)),
{
    let o = octants(c, 0, r);
    let s = circle_pixels(c, r);
    assert(s == o + (if 3 - 2 * r < 0 {
        midpoint_trace(c, 1, r, 3 - 2 * r + 6)
    } else {
        midpoint_trace(c, 1, r - 1, 3 - 2 * r + 0 - 4 * r + 10)
    }));
    assert(s[0] == (c.0 + r, c.1));
    assert(s[1] == (c.0, c.1 + r));
    assert(s[3] == (c.0 - r, c.1));
    assert(s[5] == (c.0, c.1 - r));
}

/// A circle outline in one stored color.
#[derive(Debug, Clone, Copy, PartialEq, Eq)]
pub struct Circle {
    pub center: Point,
    pub radius: i32,
    pub color: Color,
}

impl Circle {
    /// A white circle of the given radius around `(x, y)`.
    pub fn new(x: i32, y: i32, radius: i32) -> (r: Circle)
        ensures
            r.center == (Point { x, y }),
            r.radius == radius,
            r.color == white(),
    {
        Circle { center: Point { x, y }, radius, color: Color::white() }
    }

    pub fn diameter(&self) -> (r: i32)
        requires
            i32::MIN <= 2 * self.radius <= i32::MAX,
        ensures
            r == 2 * self.radius,
    {
        2 * self.radius
    }

    /// Whether the two circles overlap: the distance between the centers is
    /// strictly less than the sum of the radii, so circles that only touch do not.
    pub fn intersect(&self, c: &Circle) -> (r: bool)
        ensures
            r == closer_than(self.center@, c.center@, self.radius + c.radius),
    {
        let dx: i128 = self.center.x as i128 - c.center.x as i128;
        let dy: i128 = self.center.y as i128 - c.center.y as i128;
        let s: i128 = self.radius as i128 + c.radius as i128;
        if s <= 0 {
            return false;
        }
        proof {
            assert(0 <= dx * dx <= 0x1_0000_0000 * 0x1_0000_0000) by (nonlinear_arith)
                requires
                    -0x1_0000_0000 <= dx <= 0x1_0000_0000,
            ;
            assert(0 <= dy * dy <= 0x1_0000_0000 * 0x1_0000_0000) by (nonlinear_arith)
                requires
                    -0x1_0000_0000 <= dy <= 0x1_0000_0000,
            ;
            assert(0 <= s * s <= 0x1_0000_0000 * 0x1_0000_0000) by (nonlinear_arith)
                requires
                    0 < s <= 0x1_0000_0000,
            ;
        }
        dx * dx + dy * dy < s * s
    }

    /// A circle with its center drawn as `Point::random` draws one, a radius
    /// from `[9, 500)` and an opaque color of channels from `[0, 255)`.
    pub fn random(limit_x: i32, limit_y: i32) -> (r: Result<Circle, RangeError>)
        ensures
            match r {
                Ok(c) => 0 < limit_x && 0 < limit_y && 0 <= c.center.x < limit_x && 0 <= c.center.y
                    < limit_y && 9 <= c.radius < 500 && c.color.a == 255 && c.color.r < 255
                    && c.color.g < 255 && c.color.b < 255,
                Err(e) => (limit_x <= 0 || limit_y <= 0) && e.limit == (if limit_x <= 0 {
                    limit_x
                } else {
                    limit_y
                }),
            },
    {
        let center = Point::random(limit_x, limit_y)?;
        let red = random_in(0, 255) as u8;
        let blue = random_in(0, 255) as u8;
        let green = random_in(0, 255) as u8;
        let radius = random_in(9, 500);
        Ok(Circle { center, radius, color: Color::rgb(red, green, blue) })
    }

    /// The pixels of the outline, in the order they are written.
    pub fn pixels(&self) -> (r: Vec<Point>)
        requires
            circle_fits(self.center, self.radius),
        ensures
            cells(r@) == circle_pixels(self.center@, self.radius as int),
    {
        let cx = self.center.x;
        let cy = self.center.y;
        let rad = self.radius;
        let ghost c = self.center@;
        let mut x: i32 = 0;
        let mut y: i32 = rad;
        let mut d: i64 = 3 - 2 * (rad as i64);
        let mut r: Vec<Point> = Vec::new();
        assert(cells(r@) + midpoint_trace(c, x as int, y as int, d as int) =~= circle_pixels(
            c,
            rad as int,
        ));
        while x < y
            invariant
                c == self.center@,
                cx == self.center.x,
                cy == self.center.y,
                rad == self.radius,
                circle_fits(self.center, rad),
                0 <= x,
                y <= rad,
                x <= rad || rad <= 0,
                x < y ==> -4 * rad - 10 <= d <= 10 * x + 4 * rad + 10,
                cells(r@) + midpoint_trace(c, x as int, y as int, d as int) == circle_pixels(
                    c,
                    rad as int,
                ),
            decreases y - x + 1,
        {
            let ghost before = cells(r@);
            r.push(Point { x: y + cx, y: x + cy });
            r.push(Point { x: x + cx, y: y + cy });
            r.push(Point { x: -x + cx, y: y + cy });
            r.push(Point { x: -y + cx, y: x + cy });
            r.push(Point { x: -y + cx, y: -x + cy });
            r.push(Point { x: -x + cx, y: -y + cy });
            r.push(Point { x: x + cx, y: -y + cy });
            r.push(Point { x: y + cx, y: -x + cy });
            proof {
                assert(cells(r@) =~= before + octants(c, x as int, y as int));
            }
            let ghost rest = midpoint_trace(c, x as int, y as int, d as int);
            if d < 0 {
                d = d + 4 * (x as i64) + 6;
                x = x + 1;
            } else {
                d = d + 4 * ((x - y) as i64) + 10;
                x = x + 1;
                y = y - 1;
            }
            proof {
                assert(cells(r@) + midpoint_trace(c, x as int, y as int, d as int) =~= before + rest);
            }
        }
        assert(cells(r@) =~= circle_pixels(c, rad as int));
        r
    }
}

impl Drawable for Circle {
    open spec fn footprint(&self) -> Seq<(int, int)> {
        circle_pixels(self.center@, self.radius as int)
    }

    open spec fn ink(&self) -> Color {
        self.color
    }

    open spec fn renderable(&self) -> bool {
        circle_fits(self.center, self.radius)
    }

    fn color(&self) -> (c: Color) {
        self.color
    }

    fn draw<I: Displayable>(&self, image: &mut I) {
        let px = self.pixels();
        paint(image, &px, self.color);
    }
}

} // verus!
