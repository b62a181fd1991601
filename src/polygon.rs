use crate::canvas::{paint, Displayable, Drawable};
use crate::line::{lemma_line_connected, line_pixels, Line};
use crate::point::{cells, white, Color, Point};
use vstd::prelude::*;

verus! {

broadcast use vstd::seq_lib::group_seq_properties;

/// The pixels of the open path through `vs`: the segment from each vertex
/// to the next, in order.
pub open spec fn path_pixels(vs: Seq<(int, int)>) -> Seq<(int, int)>
    decreases vs.len(),
{
    if vs.len() < 2 {
        Seq::empty()
    } else {
        path_pixels(vs.drop_last()) + line_pixels(vs[vs.len() - 2], vs[vs.len() - 1])
    }
}

/// The pixels of the closed outline through `vs`: the open path, then the
/// segment from the last vertex back to the first.
pub open spec fn outline_pixels(vs: Seq<(int, int)>) -> Seq<(int, int)> {
    if vs.len() == 0 {
        Seq::empty()
    } else {
        path_pixels(vs.push(vs[0]))
    }
}

/// The pixels of the segments `es`, each a pair of indices into `vs`, in order.
pub open spec fn edges_pixels(vs: Seq<(int, int)>, es: Seq<(int, int)>) -> Seq<(int, int)>
    decreases es.len(),
{
    if es.len() == 0 {
        Seq::empty()
    } else {
        edges_pixels(vs, es.drop_last()) + line_pixels(vs[es.last().0], vs[es.last().1])
    }
}

/// The twelve edges of a cube, over its corners numbered front face 0 to 3
/// and back face 4 to 7: the front face, the back face, then the four edges
/// that join them.
pub open spec fn cube_edges() -> Seq<(int, int)> {
    seq![
        (0, 1),
        (1, 2),
        (2, 3),
        (3, 0),
        (4, 5),
        (5, 6),
        (6, 7),
        (7, 4),
        (0, 4),
        (1, 5),
        (2, 6),
        (3, 7),
    ]
}

/// The corners of the rectangle spanned by `p` and `q`, in drawing order:
/// `p`, the corner on `p`'s row and `q`'s column, `q`, then the last one.
pub open spec fn rectangle_corners(p: (int, int), q: (int, int)) -> Seq<(int, int)> {
    seq![p, (q.0, p.1), q, (p.0, q.1)]
}

/// A closed outline of four corners is its four sides, in order.
pub proof fn lemma_outline_four(a: (int, int), b: (int, int), c: (int, int), d: (int, int))
    ensures
        outline_pixels(seq![a, b, c, d]) == line_pixels(a, b) + line_pixels(b, c) + line_pixels(c, d)
            + line_pixels(d, a),
{
    let vs = seq![a, b, c, d, a];
    assert(seq![a, b, c, d].push(a) =~= vs);
    assert(vs.drop_last() =~= seq![a, b, c, d]);
    assert(vs.drop_last().drop_last() =~= seq![a, b, c]);
    assert(vs.drop_last().drop_last().drop_last() =~= seq![a, b]);
    assert(vs.drop_last().drop_last().drop_last().drop_last() =~= seq![a]);
    reveal_with_fuel(path_pixels, 5);
    assert(Seq::<(int, int)>::empty() + line_pixels(a, b) =~= line_pixels(a, b));
}

/// A closed outline of three corners is its three sides, in order.
pub proof fn lemma_outline_three(a: (int, int), b: (int, int), c: (int, int))
    ensures
        outline_pixels(seq![a, b, c]) == line_pixels(a, b) + line_pixels(b, c) + line_pixels(c, a),
{
    let vs = seq![a, b, c, a];
    assert(seq![a, b, c].push(a) =~= vs);
    assert(vs.drop_last() =~= seq![a, b, c]);
    assert(vs.drop_last().drop_last() =~= seq![a, b]);
    assert(vs.drop_last().drop_last().drop_last() =~= seq![a]);
    reveal_with_fuel(path_pixels, 4);
    assert(Seq::<(int, int)>::empty() + line_pixels(a, b) =~= line_pixels(a, b));
}

/// A rectangle is drawn as its four sides, each traced as a line on its own.
pub proof fn lemma_rectangle_sides(p: (int, int), q: (int, int))
    ensures
        outline_pixels(rectangle_corners(p, q)) == line_pixels(p, (q.0, p.1)) + line_pixels(
            (q.0, p.1),
            q,
        ) + line_pixels(q, (p.0, q.1)) + line_pixels((p.0, q.1), p),
{
    lemma_outline_four(p, (q.0, p.1), q, (p.0, q.1));
    assert(rectangle_corners(p, q) =~= seq![p, (q.0, p.1), q, (p.0, q.1)]);
}

proof fn lemma_edges_take_step(vs: Seq<(int, int)>, es: Seq<(int, int)>, k: int)
    requires
        0 <= k < es.len(),
    ensures
        edges_pixels(vs, es.take(k + 1)) == edges_pixels(vs, es.take(k)) + line_pixels(
            vs[es[k].0],
            vs[es[k].1],
        ),
{
    assert(es.take(k + 1).drop_last() =~= es.take(k));
}

proof fn lemma_cube_edges_unfold(vs: Seq<(int, int)>)
    requires
        vs.len() == 8,
    ensures
        edges_pixels(vs, cube_edges()) == line_pixels(vs[0], vs[1]) + line_pixels(vs[1], vs[2])
            + line_pixels(vs[2], vs[3]) + line_pixels(vs[3], vs[0]) + line_pixels(vs[4], vs[5])
            + line_pixels(vs[5], vs[6]) + line_pixels(vs[6], vs[7]) + line_pixels(vs[7], vs[4])
            + line_pixels(vs[0], vs[4]) + line_pixels(vs[1], vs[5]) + line_pixels(vs[2], vs[6])
            + line_pixels(vs[3], vs[7]),
{
    let es = cube_edges();
    assert(es.take(0) =~= Seq::<(int, int)>::empty());
    assert(edges_pixels(vs, es.take(0)) == Seq::<(int, int)>::empty());
    lemma_edges_take_step(vs, es, 0);
    assert(Seq::<(int, int)>::empty() + line_pixels(vs[0], vs[1]) =~= line_pixels(vs[0], vs[1]));
    lemma_edges_take_step(vs, es, 1);
    lemma_edges_take_step(vs, es, 2);
    lemma_edges_take_step(vs, es, 3);
    lemma_edges_take_step(vs, es, 4);
    lemma_edges_take_step(vs, es, 5);
    lemma_edges_take_step(vs, es, 6);
    lemma_edges_take_step(vs, es, 7);
    lemma_edges_take_step(vs, es, 8);
    lemma_edges_take_step(vs, es, 9);
    lemma_edges_take_step(vs, es, 10);
    lemma_edges_take_step(vs, es, 11);
    assert(es.take(12) =~= es);
}

/// When each back corner of a cube projects onto the matching front corner,
/// as an unrotated cube seen without depth does, its twelve edges cover
/// exactly the pixels of the front face's outline.
pub proof fn lemma_flat_cube(vs: Seq<(int, int)>)
    requires
        vs.len() == 8,
        forall|i: int| 0 <= i < 4 ==> vs[i + 4] == #[trigger] vs[i],
    ensures
        forall|p: (int, int)|
            #[trigger] edges_pixels(vs, cube_edges()).contains(p) <==> outline_pixels(
                vs.take(4),
            ).contains(p),
{
    let (a, b, c, d) = (vs[0], vs[1], vs[2], vs[3]);
    assert(vs[4] == a && vs[5] == b && vs[6] == c && vs[7] == d);
    lemma_cube_edges_unfold(vs);
    assert(vs.take(4) =~= seq![a, b, c, d]);
    lemma_outline_four(a, b, c, d);
    lemma_line_connected(a, b);
    lemma_line_connected(b, c);
    lemma_line_connected(c, d);
    lemma_line_connected(d, a);
    lemma_line_single(a);
    lemma_line_single(b);
    lemma_line_single(c);
    lemma_line_single(d);
    lemma_face_twice_and_corners(
        line_pixels(a, b),
        line_pixels(b, c),
        line_pixels(c, d),
        line_pixels(d, a),
        a,
        b,
        c,
        d,
    );
}

proof fn lemma_line_single(a: (int, int))
    ensures
        line_pixels(a, a) == seq![a],
{
    assert(line_pixels(a, a) =~= seq![a]);
}

proof fn lemma_face_twice_and_corners(
    f1: Seq<(int, int)>,
    f2: Seq<(int, int)>,
    f3: Seq<(int, int)>,
    f4: Seq<(int, int)>,
    a: (int, int),
    b: (int, int),
    c: (int, int),
    d: (int, int),
)
    requires
        f1.contains(a),
        f2.contains(b),
        f3.contains(c),
        f4.contains(d),
    ensures
        forall|p: (int, int)|
            #[trigger] (f1 + f2 + f3 + f4 + f1 + f2 + f3 + f4 + seq![a] + seq![b] + seq![c] + seq![
                d
            ]).contains(p) <==> (f1 + f2 + f3 + f4).contains(p),
{
    let face = f1 + f2 + f3 + f4;
    let all = face + f1 + f2 + f3 + f4 + seq![a] + seq![b] + seq![c] + seq![d];
    assert forall|p: (int, int)| #[trigger] all.contains(p) <==> face.contains(p) by {
        if all.contains(p) {
            if p == a || p == b || p == c || p == d {
                assert(face.contains(p));
            }
        }
    }
}

/// Appends `s` to `r`.
fn extend(r: &mut Vec<Point>, s: &Vec<Point>)
    ensures
        cells(final(r)@) == cells(old(r)@) + cells(s@),
{
    let ghost start = old(r)@;
    let mut i: usize = 0;
    while i < s.len()
        invariant
            i <= s.len(),
            r@ == start + s@.take(i as int),
        decreases s.len() - i,
    {
        r.push(s[i]);
        assert(start + s@.take(i + 1) =~= (start + s@.take(i as int)).push(s@[i as int]));
        i = i + 1;
    }
    assert(s@.take(i as int) =~= s@);
    assert(cells(r@) =~= cells(start) + cells(s@));
}

/// The pixels of the closed outline through `vertices`, in writing order.
pub fn outline(vertices: &Vec<Point>) -> (r: Vec<Point>)
    ensures
        cells(r@) == outline_pixels(cells(vertices@)),
{
    let n = vertices.len();
    let mut r: Vec<Point> = Vec::new();
    if n == 0 {
        assert(cells(r@) =~= Seq::empty());
        return r;
    }
    let ghost vs = cells(vertices@);
    let ghost closed = vs.push(vs[0]);
    assert(closed.take(1).len() == 1);
    assert(cells(r@) =~= path_pixels(closed.take(1)));
    let mut i: usize = 0;
    while i < n
        invariant
            n == vertices.len(),
            0 < n,
            vs == cells(vertices@),
            closed == vs.push(vs[0]),
            i <= n,
            cells(r@) == path_pixels(closed.take(i + 1)),
        decreases n - i,
    {
        let next: usize = if i + 1 < n { i + 1 } else { 0 };
        let seg = Line::new(&vertices[i], &vertices[next]).pixels();
        extend(&mut r, &seg);
        proof {
            let t = closed.take(i + 2);
            assert(t.drop_last() =~= closed.take(i + 1));
            assert(t[i as int] == vs[i as int]);
            assert(t[i + 1] == vs[next as int]);
        }
        i = i + 1;
    }
    assert(closed.take(n + 1) =~= closed);
    r
}

/// The corner numbers joined by the `k`-th edge of a cube.
fn cube_edge(k: usize) -> (r: (usize, usize))
    requires
        k < 12,
    ensures
        (r.0 as int, r.1 as int) == cube_edges()[k as int],
{
    match k {
        0 => (0, 1),
        1 => (1, 2),
        2 => (2, 3),
        3 => (3, 0),
        4 => (4, 5),
        5 => (5, 6),
        6 => (6, 7),
        7 => (7, 4),
        8 => (0, 4),
        9 => (1, 5),
        10 => (2, 6),
        _ => (3, 7),
    }
}

/// The pixels of a cube's twelve edges, given the projections of its eight
/// corners, in writing order.
pub fn cube_wireframe(projected: &Vec<Point>) -> (r: Vec<Point>)
    requires
        projected.len() == 8,
    ensures
        cells(r@) == edges_pixels(cells(projected@), cube_edges()),
{
    let ghost vs = cells(projected@);
    let mut r: Vec<Point> = Vec::new();
    assert(cells(r@) =~= edges_pixels(vs, cube_edges().take(0)));
    let mut k: usize = 0;
    while k < 12
        invariant
            projected.len() == 8,
            vs == cells(projected@),
            k <= 12,
            cells(r@) == edges_pixels(vs, cube_edges().take(k as int)),
        decreases 12 - k,
    {
        let (i, j) = cube_edge(k);
        let seg = Line::new(&projected[i], &projected[j]).pixels();
        extend(&mut r, &seg);
        proof {
            let t = cube_edges().take(k + 1);
            assert(t.drop_last() =~= cube_edges().take(k as int));
        }
        k = k + 1;
    }
    assert(cube_edges().take(12) =~= cube_edges());
    r
}

/// An axis-aligned square given by its first corner and its side.
#[derive(Debug, Clone, Copy, PartialEq, Eq)]
pub struct Square {
    pub top_left: Point,
    pub side_length: i32,
}

/// The opposite corner of the square can be named by an `i32` pair.
pub open spec fn square_fits(tl: Point, side: i32) -> bool {
    i32::MIN <= tl.x + side <= i32::MAX && i32::MIN <= tl.y + side <= i32::MAX
}

impl Square {
    pub fn new(top_left: &Point, side_length: i32) -> (r: Square)
        ensures
            r.top_left == *top_left,
            r.side_length == side_length,
    {
        Square { top_left: *top_left, side_length }
    }

    /// The rectangle from the first corner to the one `side_length` further
    /// along both axes.
    pub fn to_rectangle(&self) -> (r: Rectangle)
        requires
            square_fits(self.top_left, self.side_length),
        ensures
            r.upper_left_corner == self.top_left,
            r.lower_right_corner@ == (self.top_left.x + self.side_length, self.top_left.y
                + self.side_length),
    {
        let bottom_right = Point {
            x: self.top_left.x + self.side_length,
            y: self.top_left.y + self.side_length,
        };
        Rectangle::new(&self.top_left, &bottom_right)
    }

    /// The pixels of the outline, in the order they are written.
    pub fn pixels(&self) -> (r: Vec<Point>)
        requires
            square_fits(self.top_left, self.side_length),
        ensures
            cells(r@) == self.footprint(),
    {
        self.to_rectangle().pixels()
    }
}

impl Drawable for Square {
    open spec fn footprint(&self) -> Seq<(int, int)> {
        outline_pixels(
            rectangle_corners(
                self.top_left@,
                (self.top_left.x + self.side_length, self.top_left.y + self.side_length),
            ),
        )
    }

    open spec fn ink(&self) -> Color {
        white()
    }

    open spec fn renderable(&self) -> bool {
        square_fits(self.top_left, self.side_length)
    }

    fn color(&self) -> (c: Color) {
        Color::white()
    }

    fn draw<I: Displayable>(&self, image: &mut I) {
        let px = self.pixels();
        paint(image, &px, Color::white());
    }
}

/// A rectangle given by two opposite corners; the other two take the column
/// of one and the row of the other, whichever way round the two are given.
#[derive(Debug, Clone, Copy, PartialEq, Eq)]
pub struct Rectangle {
    pub upper_left_corner: Point,
    pub lower_right_corner: Point,
}

impl Rectangle {
    pub fn new(point1: &Point, point2: &Point) -> (r: Rectangle)
        ensures
            r.upper_left_corner == *point1,
            r.lower_right_corner == *point2,
    {
        Rectangle { upper_left_corner: *point1, lower_right_corner: *point2 }
    }

    /// The four corners in drawing order.
    pub fn corners(&self) -> (r: Vec<Point>)
        ensures
            cells(r@) == rectangle_corners(self.upper_left_corner@, self.lower_right_corner@),
    {
        let p = self.upper_left_corner;
        let q = self.lower_right_corner;
        let r = vec![p, Point { x: q.x, y: p.y }, q, Point { x: p.x, y: q.y }];
        assert(cells(r@) =~= rectangle_corners(p@, q@));
        r
    }

    /// The pixels of the outline, in the order they are written.
    pub fn pixels(&self) -> (r: Vec<Point>)
        ensures
            cells(r@) == self.footprint(),
    {
        outline(&self.corners())
    }
}

impl Drawable for Rectangle {
    open spec fn footprint(&self) -> Seq<(int, int)> {
        outline_pixels(rectangle_corners(self.upper_left_corner@, self.lower_right_corner@))
    }

    open spec fn ink(&self) -> Color {
        white()
    }

    open spec fn renderable(&self) -> bool {
        true
    }

    fn color(&self) -> (c: Color) {
        Color::white()
    }

    fn draw<I: Displayable>(&self, image: &mut I) {
        let px = self.pixels();
        paint(image, &px, Color::white());
    }
}

/// A triangle given by its three corners; collinear corners are drawn as
/// overlapping segments.
#[derive(Debug, Clone, Copy, PartialEq, Eq)]
pub struct Triangle {
    pub vertices: (Point, Point, Point),
}

impl Triangle {
    pub fn new(a: &Point, b: &Point, c: &Point) -> (r: Triangle)
        ensures
            r.vertices == (*a, *b, *c),
    {
        Triangle { vertices: (*a, *b, *c) }
    }

    /// The pixels of the outline, in the order they are written.
    pub fn pixels(&self) -> (r: Vec<Point>)
        ensures
            cells(r@) == self.footprint(),
    {
        let vs = vec![self.vertices.0, self.vertices.1, self.vertices.2];
        assert(cells(vs@) =~= seq![self.vertices.0@, self.vertices.1@, self.vertices.2@]);
        outline(&vs)
    }
}

impl Drawable for Triangle {
    open spec fn footprint(&self) -> Seq<(int, int)> {
        outline_pixels(seq![self.vertices.0@, self.vertices.1@, self.vertices.2@])
    }

    open spec fn ink(&self) -> Color {
        white()
    }

    open spec fn renderable(&self) -> bool {
        true
    }

    fn color(&self) -> (c: Color) {
        Color::white()
    }

    fn draw<I: Displayable>(&self, image: &mut I) {
        let px = self.pixels();
        paint(image, &px, Color::white());
    }
}

} // verus!
