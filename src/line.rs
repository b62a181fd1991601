use crate::canvas::{paint, Displayable, Drawable};
use crate::point::{cells, white, Color, Point, RangeError};
use vstd::arithmetic::div_mod::{
    lemma_div_is_ordered, lemma_div_plus_one, lemma_fundamental_div_mod_converse,
};
use vstd::prelude::*;

verus! {

pub open spec fn abs(v: int) -> int {
    if v < 0 {
        -v
    } else {
        v
    }
}

pub open spec fn min(a: int, b: int) -> int {
    if a <= b {
        a
    } else {
        b
    }
}

/// Offset along the minor axis of the `k`-th pixel of a run that advances
/// `minor` over `major` steps: `k * minor / major` rounded to the nearest
/// integer, a half rounded up.
pub open spec fn offset(k: int, major: int, minor: int) -> int {
    (2 * minor * k + major) / (2 * major)
}

/// The pixels written for the segment from `a` to `b`, in writing order.
/// A vertical segment runs up its column; otherwise the loop advances one
/// pixel at a time along the longer axis, from the endpoint with the smaller
/// coordinate on that axis, and moves the other coordinate by `offset`.
pub open spec fn line_pixels(a: (int, int), b: (int, int)) -> Seq<(int, int)> {
    let dx = abs(b.0 - a.0);
    let dy = abs(b.1 - a.1);
    if dx == 0 {
        Seq::new((dy + 1) as nat, |k: int| (a.0, min(a.1, b.1) + k))
    } else if dy <= dx {
        let s = if a.0 < b.0 { a } else { b };
        let t = if a.0 < b.0 { b } else { a };
        let inc: int = if t.1 < s.1 { -1 } else { 1 };
        Seq::new((dx + 1) as nat, |k: int| (s.0 + k, s.1 + inc * offset(k, dx, dy)))
    } else {
        let s = if a.1 < b.1 { a } else { b };
        let t = if a.1 < b.1 { b } else { a };
        let inc: int = if t.0 < s.0 { -1 } else { 1 };
        Seq::new((dy + 1) as nat, |k: int| (s.0 + inc * offset(k, dy, dx), s.1 + k))
    }
}

/// Two pixels touch: they differ, by at most one in each coordinate.
pub open spec fn adjacent(p: (int, int), q: (int, int)) -> bool {
    p != q && abs(p.0 - q.0) <= 1 && abs(p.1 - q.1) <= 1
}

proof fn lemma_offset_ends(major: int, minor: int)
    requires
        0 < major,
        0 <= minor,
    ensures
        offset(0, major, minor) == 0,
        offset(major, major, minor) == minor,
{
    lemma_fundamental_div_mod_converse(major, 2 * major, 0, major);
    assert(2 * minor * major + major == minor * (2 * major) + major) by (nonlinear_arith);
    lemma_fundamental_div_mod_converse(2 * minor * major + major, 2 * major, minor, major);
}

proof fn lemma_offset_step(k: int, major: int, minor: int)
    requires
        0 < major,
        0 <= minor <= major,
        0 <= k,
    ensures
        offset(k, major, minor) <= offset(k + 1, major, minor) <= offset(k, major, minor) + 1,
        0 <= offset(k, major, minor),
{
    let n = 2 * minor * k + major;
    let d = 2 * major;
    assert(2 * minor * (k + 1) + major == n + 2 * minor) by (nonlinear_arith)
        requires
            n == 2 * minor * k + major,
    ;
    assert(0 <= n) by (nonlinear_arith)
        requires
            0 <= minor,
            0 <= k,
            0 < major,
            n == 2 * minor * k + major,
    ;
    lemma_div_is_ordered(n, n + 2 * minor, d);
    lemma_div_is_ordered(n + 2 * minor, n + d, d);
    lemma_div_is_ordered(0, n, d);
    lemma_div_plus_one(n, d);
    assert(0int / d == 0);
}

proof fn lemma_offset_bounded(k: int, major: int, minor: int)
    requires
        0 < major,
        0 <= minor <= major,
        0 <= k <= major,
    ensures
        0 <= offset(k, major, minor) <= minor,
{
    lemma_offset_ends(major, minor);
    lemma_offset_step(k, major, minor);
    assert(2 * minor * k + major <= 2 * minor * major + major) by (nonlinear_arith)
        requires
            0 <= minor,
            k <= major,
    ;
    lemma_div_is_ordered(2 * minor * k + major, 2 * minor * major + major, 2 * major);
}

/// A line's pixels start and end at its endpoints, and each pixel touches
/// the next, so the run has no gap.
pub proof fn lemma_line_connected(a: (int, int), b: (int, int))
    ensures
        line_pixels(a, b).len() >= 1,
        line_pixels(a, b).contains(a),
        line_pixels(a, b).contains(b),
        forall|i: int|
            0 <= i < line_pixels(a, b).len() - 1 ==> adjacent(
                #[trigger] line_pixels(a, b)[i],
                line_pixels(a, b)[i + 1],
            ),
{
    let s = line_pixels(a, b);
    let dx = abs(b.0 - a.0);
    let dy = abs(b.1 - a.1);
    if dx == 0 {
        if a.1 <= b.1 {
            assert(s[0] == a);
            assert(s[dy] == b);
        } else {
            assert(s[0] == b);
            assert(s[dy] == a);
        }
    } else if dy <= dx {
        lemma_offset_ends(dx, dy);
        assert(s[0] == a || s[0] == b);
        assert(s[dx] == a || s[dx] == b);
        assert(s[0] != s[dx]);
        assert forall|i: int| 0 <= i < s.len() - 1 implies adjacent(#[trigger] s[i], s[i + 1]) by {
            lemma_offset_step(i, dx, dy);
        }
    } else {
        lemma_offset_ends(dy, dx);
        assert(s[0] == a || s[0] == b);
        assert(s[dy] == a || s[dy] == b);
        assert(s[0] != s[dy]);
        assert forall|i: int| 0 <= i < s.len() - 1 implies adjacent(#[trigger] s[i], s[i + 1]) by {
            lemma_offset_step(i, dy, dx);
        }
    }
}

/// The pixels of one run along a driving axis: `major + 1` pixels from
/// `(u0, v0)`, written as `(v, u)` when `swap` holds.
pub open spec fn run_pixels(u0: int, v0: int, major: int, minor: int, inc: int, swap: bool) -> Seq<(int, int)> {
    Seq::new(
        (major + 1) as nat,
        |k: int|
            if swap {
                (v0 + inc * offset(k, major, minor), u0 + k)
            } else {
                (u0 + k, v0 + inc * offset(k, major, minor))
            },
    )
}

/// One driving-axis run of Bresenham's loop: `count + 1` pixels from
/// `(u0, v0)`, `u` advancing by one and `v` by `inc` when the error term says so.
/// With `swap` the coordinates are written as `(v, u)`.
fn trace_run(u0: i64, v0: i64, major: i64, minor: i64, inc: i64, swap: bool) -> (r: Vec<Point>)
    requires
        0 < major <= 0xffff_ffff,
        0 <= minor <= major,
        inc == 1 || inc == -1,
        i32::MIN <= u0,
        u0 + major <= i32::MAX,
        i32::MIN <= v0 + inc * minor <= i32::MAX,
        i32::MIN <= v0 <= i32::MAX,
    ensures
        cells(r@) == run_pixels(u0 as int, v0 as int, major as int, minor as int, inc as int, swap),
{
    let ghost want = run_pixels(u0 as int, v0 as int, major as int, minor as int, inc as int, swap);
    let a: i64 = 2 * minor;
    let b: i64 = a - 2 * major;
    let mut p: i64 = a - major;
    let mut k: i64 = 0;
    let mut j: i64 = 0;
    let mut r: Vec<Point> = Vec::new();
    while k <= major
        invariant
            0 < major <= 0xffff_ffff,
            0 <= minor <= major,
            inc == 1 || inc == -1,
            i32::MIN <= u0,
            u0 + major <= i32::MAX,
            i32::MIN <= v0 + inc * minor <= i32::MAX,
            i32::MIN <= v0 <= i32::MAX,
            a == 2 * minor,
            b == a - 2 * major,
            want == run_pixels(u0 as int, v0 as int, major as int, minor as int, inc as int, swap),
            0 <= k <= major + 1,
            p == 2 * minor * (k + 1) - major - 2 * major * j,
            2 * minor - 2 * major <= p < 2 * minor,
            cells(r@) == want.take(k as int),
        decreases major + 1 - k,
    {
        proof {
            assert(2 * minor * k + major == j * (2 * major) + (p - 2 * minor + 2 * major)) by (nonlinear_arith)
                requires
                    p == 2 * minor * (k + 1) - major - 2 * major * j,
            ;
            lemma_fundamental_div_mod_converse(
                2 * minor * k + major,
                2 * major,
                j as int,
                p - 2 * minor + 2 * major,
            );
            lemma_offset_bounded(k as int, major as int, minor as int);
            assert(0 <= inc * j <= minor || -minor <= inc * j <= 0) by (nonlinear_arith)
                requires
                    inc == 1 || inc == -1,
                    0 <= j <= minor,
            ;
        }
        let u = (u0 + k) as i32;
        let v = (v0 + inc * j) as i32;
        let q = if swap {
            Point { x: v, y: u }
        } else {
            Point { x: u, y: v }
        };
        let ghost before = r@;
        r.push(q);
        proof {
            assert(j == offset(k as int, major as int, minor as int));
            assert(q@ == want[k as int]);
            assert(cells(r@) =~= cells(before).push(q@));
            assert(cells(r@) =~= want.take(k + 1));
        }
        let ghost pk = p;
        let ghost jk = j;
        if p < 0 {
            p = p + a;
        } else {
            j = j + 1;
            p = p + b;
        }
        proof {
            assert(p == 2 * minor * (k + 2) - major - 2 * major * j) by (nonlinear_arith)
                requires
                    pk == 2 * minor * (k + 1) - major - 2 * major * jk,
                    (pk < 0 && p == pk + 2 * minor && j == jk) || (pk >= 0 && p == pk + 2 * minor - 2
                        * major && j == jk + 1),
            ;
        }
        k = k + 1;
    }
    assert(want.take(k as int) =~= want);
    r
}

/// A segment between two points. Its rendering depends on the endpoints'
/// order only in the direction in which the pixels are traced.
#[derive(Debug, Clone, Copy, PartialEq, Eq)]
pub struct Line {
    pub a: Point,
    pub b: Point,
}

impl Line {
    pub fn new(beg: &Point, end: &Point) -> (r: Line)
        ensures
            r.a == *beg,
            r.b == *end,
    {
        Line { a: *beg, b: *end }
    }

    /// A segment between two points drawn as `Point::random` draws them.
    pub fn random(limit_x: i32, limit_y: i32) -> (r: Result<Line, RangeError>)
        ensures
            match r {
                Ok(l) => 0 < limit_x && 0 < limit_y && 0 <= l.a.x < limit_x && 0 <= l.a.y < limit_y
                    && 0 <= l.b.x < limit_x && 0 <= l.b.y < limit_y,
                Err(e) => (limit_x <= 0 || limit_y <= 0) && e.limit == (if limit_x <= 0 {
                    limit_x
                } else {
                    limit_y
                }),
            },
    {
        let a = Point::random(limit_x, limit_y)?;
        let b = Point::random(limit_x, limit_y)?;
        Ok(Line::new(&a, &b))
    }

    /// The pixels of the segment, in the order they are written.
    pub fn pixels(&self) -> (r: Vec<Point>)
        ensures
            cells(r@) == line_pixels(self.a@, self.b@),
    {
        let ax = self.a.x as i64;
        let ay = self.a.y as i64;
        let bx = self.b.x as i64;
        let by = self.b.y as i64;
        let dx: i64 = if bx >= ax { bx - ax } else { ax - bx };
        let dy: i64 = if by >= ay { by - ay } else { ay - by };
        let ghost want = line_pixels(self.a@, self.b@);
        if dx == 0 {
            let start: i64 = if ay <= by { ay } else { by };
            let mut r: Vec<Point> = Vec::new();
            let mut k: i64 = 0;
            while k <= dy
                invariant
                    0 <= dy,
                    dx == 0,
                    ax == self.a.x,
                    ay == self.a.y,
                    bx == self.b.x,
                    by == self.b.y,
                    dx == abs(bx - ax),
                    start == min(ay as int, by as int),
                    dy == abs(by - ay),
                    i32::MIN <= ay <= i32::MAX,
                    i32::MIN <= by <= i32::MAX,
                    want == line_pixels(self.a@, self.b@),
                    0 <= k <= dy + 1,
                    cells(r@) == want.take(k as int),
                decreases dy + 1 - k,
            {
                let ghost before = r@;
                let q = Point { x: self.a.x, y: (start + k) as i32 };
                r.push(q);
                proof {
                    assert(q@ == want[k as int]);
                    assert(cells(r@) =~= cells(before).push(q@));
                    assert(cells(r@) =~= want.take(k + 1));
                }
                k = k + 1;
            }
            assert(want.take(k as int) =~= want);
            return r;
        }
        if dy <= dx {
            let (s, t) = if ax < bx { (self.a, self.b) } else { (self.b, self.a) };
            let inc: i64 = if t.y < s.y { -1 } else { 1 };
            let r = trace_run(s.x as i64, s.y as i64, dx, dy, inc, false);
            assert(cells(r@) =~= want);
            r
        } else {
            let (s, t) = if ay < by { (self.a, self.b) } else { (self.b, self.a) };
            let inc: i64 = if t.x < s.x { -1 } else { 1 };
            let r = trace_run(s.y as i64, s.x as i64, dy, dx, inc, true);
            assert(cells(r@) =~= want);
            r
        }
    }
}

impl Drawable for Line {
    open spec fn footprint(&self) -> Seq<(int, int)> {
        line_pixels(self.a@, self.b@)
    }

    open spec fn ink(&self) -> Color {
        white()
    }

    open spec fn renderable(&self) -> bool {
        true
    }

    fn color(&self) -> (c: Color) {
        Color::white()
    }

    fn draw<I: Displayable>(&self, image: &mut I) {
        let px = self.pixels();
        paint(image, &px, Color::white());
    }
}

} // verus!
