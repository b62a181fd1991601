use crate::point::{cells, white, Color, Point};
use vstd::prelude::*;

verus! {

broadcast use vstd::seq_lib::group_seq_properties;

/// A surface that takes pixel writes, and ignores those outside its bounds.
pub trait Displayable: Sized {
    /// Whether a write at `(x, y)` lands on the surface.
    spec fn within(&self, x: int, y: int) -> bool;

    /// The color held at `(x, y)`.
    spec fn pixel_at(&self, x: int, y: int) -> Color;

    fn display(&mut self, x: i32, y: i32, color: Color)
        ensures
            forall|i: int, j: int|
                #![trigger final(self).within(i, j)]
                #![trigger final(self).pixel_at(i, j)]
                final(self).within(i, j) == old(self).within(i, j) && final(self).pixel_at(i, j) == (
                if old(self).within(i, j) && i == x && j == y {
                    color
                } else {
                    old(self).pixel_at(i, j)
                }),
    ;
}

/// `after` is `before` with every in-bounds pixel of `pixels` set to `color`,
/// and nothing else changed.
pub open spec fn painted<I: Displayable>(before: I, after: I, pixels: Seq<(int, int)>, color: Color) -> bool {
    forall|x: int, y: int|
        #![trigger after.within(x, y)]
        #![trigger after.pixel_at(x, y)]
        after.within(x, y) == before.within(x, y) && after.pixel_at(x, y) == (if before.within(x, y)
            && pixels.contains((x, y)) {
            color
        } else {
            before.pixel_at(x, y)
        })
}

/// A shape that can be rendered onto a surface in one color.
pub trait Drawable {
    /// The pixels that rendering writes, in the order it writes them.
    spec fn footprint(&self) -> Seq<(int, int)>;

    /// The color that rendering writes.
    spec fn ink(&self) -> Color;

    /// Whether every pixel of the footprint is a position that a write can name.
    spec fn renderable(&self) -> bool;

    fn color(&self) -> (c: Color)
        ensures
            c == self.ink(),
    ;

    fn draw<I: Displayable>(&self, image: &mut I)
        requires
            self.renderable(),
        ensures
            painted(*old(image), *final(image), self.footprint(), self.ink()),
    ;
}

/// Painting two pixel runs one after the other paints their concatenation.
pub proof fn lemma_painted_concat<I: Displayable>(
    a: I,
    b: I,
    c: I,
    s: Seq<(int, int)>,
    t: Seq<(int, int)>,
    color: Color,
)
    requires
        painted(a, b, s, color),
        painted(b, c, t, color),
    ensures
        painted(a, c, s + t, color),
{
    assert forall|x: int, y: int| #![auto] c.within(x, y) == a.within(x, y) && c.pixel_at(x, y) == (
    if a.within(x, y) && (s + t).contains((x, y)) {
        color
    } else {
        a.pixel_at(x, y)
    }) by {
        assert(b.within(x, y) == a.within(x, y));
        assert((s + t).contains((x, y)) == (s.contains((x, y)) || t.contains((x, y))));
    }
}

/// Rendering the same pixels in the same color a second time changes nothing:
/// writes overwrite, they do not accumulate.
pub proof fn lemma_paint_twice<I: Displayable>(a: I, b: I, c: I, pixels: Seq<(int, int)>, color: Color)
    requires
        painted(a, b, pixels, color),
        painted(b, c, pixels, color),
    ensures
        forall|x: int, y: int|
            #![trigger c.within(x, y)]
            #![trigger c.pixel_at(x, y)]
            c.within(x, y) == b.within(x, y) && c.pixel_at(x, y) == b.pixel_at(x, y),
{
    assert forall|x: int, y: int| #![auto] c.within(x, y) == b.within(x, y) && c.pixel_at(x, y) == b.pixel_at(x, y) by {
        assert(b.within(x, y) == a.within(x, y));
    }
}

/// Rendering a drawable shape twice leaves the surface as rendering it once.
pub proof fn lemma_draw_idempotent<D: Drawable, I: Displayable>(shape: D, a: I, b: I, c: I)
    requires
        painted(a, b, shape.footprint(), shape.ink()),
        painted(b, c, shape.footprint(), shape.ink()),
    ensures
        forall|x: int, y: int|
            #![trigger c.within(x, y)]
            #![trigger c.pixel_at(x, y)]
            c.within(x, y) == b.within(x, y) && c.pixel_at(x, y) == b.pixel_at(x, y),
{
    lemma_paint_twice(a, b, c, shape.footprint(), shape.ink());
}

/// Writes every pixel of `pixels`, in order, in one color.
pub fn paint<I: Displayable>(image: &mut I, pixels: &Vec<Point>, color: Color)
    ensures
        painted(*old(image), *final(image), cells(pixels@), color),
{
    let ghost start = *image;
    assert(painted(start, *image, cells(pixels@).take(0), color));
    let mut i: usize = 0;
    while i < pixels.len()
        invariant
            i <= pixels.len(),
            painted(start, *image, cells(pixels@).take(i as int), color),
        decreases pixels.len() - i,
    {
        let p = pixels[i];
        let ghost before = *image;
        image.display(p.x, p.y, color);
        proof {
            assert forall|u: int, v: int| #![auto] seq![p@].contains((u, v)) == (u == p.x && v == p.y) by {
                if u == p.x && v == p.y {
                    assert(seq![p@][0] == (u, v));
                }
            }
            assert(painted(before, *image, seq![p@], color));
            lemma_painted_concat(start, before, *image, cells(pixels@).take(i as int), seq![p@], color);
            assert(cells(pixels@).take(i as int) + seq![p@] =~= cells(pixels@).take(i + 1));
        }
        i = i + 1;
    }
    assert(cells(pixels@).take(i as int) =~= cells(pixels@));
}

impl Drawable for Point {
    open spec fn footprint(&self) -> Seq<(int, int)> {
        seq![self@]
    }

    open spec fn ink(&self) -> Color {
        white()
    }

    open spec fn renderable(&self) -> bool {
        true
    }

    fn color(&self) -> (c: Color) {
        Color::white()
    }

    fn draw<I: Displayable>(&self, image: &mut I) {
        let px = vec![*self];
        assert(cells(px@) =~= seq![self@]);
        paint(image, &px, Color::white());
    }
}

} // verus!
