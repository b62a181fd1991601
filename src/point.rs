use rand::Rng;
use vstd::prelude::*;

verus! {

/// A pixel position on the integer grid.
#[derive(Debug, Clone, Copy, PartialEq, Eq, Hash)]
pub struct Point {
    pub x: i32,
    pub y: i32,
}

impl View for Point {
    type V = (int, int);

    open spec fn view(&self) -> (int, int) {
        (self.x as int, self.y as int)
    }
}

/// The grid positions of a sequence of points.
pub open spec fn cells(v: Seq<Point>) -> Seq<(int, int)> {
    v.map_values(|p: Point| p@)
}

/// An RGBA color.
#[derive(Debug, Clone, Copy, PartialEq, Eq, Hash)]
pub struct Color {
    pub r: u8,
    pub g: u8,
    pub b: u8,
    pub a: u8,
}

pub open spec fn white() -> Color {
    Color { r: 255, g: 255, b: 255, a: 255 }
}

impl Color {
    /// Opaque white, the ink of every shape that stores no color of its own.
    pub fn white() -> (c: Color)
        ensures
            c == white(),
    {
        Color { r: 255, g: 255, b: 255, a: 255 }
    }

    /// An opaque color from its three channels.
    pub fn rgb(r: u8, g: u8, b: u8) -> (c: Color)
        ensures
            c == (Color { r, g, b, a: 255 }),
    {
        Color { r, g, b, a: 255 }
    }
}

/// A sampling bound that leaves no value to draw: the limit is not positive.
#[derive(Debug, Clone, Copy, PartialEq, Eq)]
pub struct RangeError {
    pub limit: i32,
}

/// Relies on rand's `thread_rng().gen_range(low..high)`: a value of the
/// half-open range, which is not empty here (gen_range panics on an empty one).
#[verifier::external_body]
pub(crate) fn random_in(low: i32, high: i32) -> (r: i32)
    requires
        low < high,
    ensures
        low <= r < high,
{
    rand::thread_rng().gen_range(low..high)
}

/// The outcome owed by a draw below `limit_x` and `limit_y`.
pub open spec fn random_point_outcome(limit_x: i32, limit_y: i32, r: Result<Point, RangeError>) -> bool {
    match r {
        Ok(p) => 0 < limit_x && 0 < limit_y && 0 <= p.x < limit_x && 0 <= p.y < limit_y,
        Err(e) => e.limit == (if limit_x <= 0 { limit_x } else { limit_y }) && (limit_x <= 0
            || limit_y <= 0),
    }
}

impl Point {
    pub fn new(x: i32, y: i32) -> (r: Point)
        ensures
            r.x == x,
            r.y == y,
    {
        Point { x, y }
    }

    /// A point with each coordinate drawn from `[0, limit)`; a limit that is
    /// not positive is refused before anything is drawn.
    pub fn random(limit_x: i32, limit_y: i32) -> (r: Result<Point, RangeError>)
        ensures
            random_point_outcome(limit_x, limit_y, r),
    {
        if limit_x <= 0 {
            return Err(RangeError { limit: limit_x });
        }
        if limit_y <= 0 {
            return Err(RangeError { limit: limit_y });
        }
        let x = random_in(0, limit_x);
        let y = random_in(0, limit_y);
        Ok(Point { x, y })
    }
}

} // verus!
