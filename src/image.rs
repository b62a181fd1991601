use crate::canvas::Displayable;
use crate::point::{white, Color};
use vstd::prelude::*;

verus! {

#[verifier::external_type_specification]
#[verifier::external_body]
pub struct ExImage(raster::Image);

/// The bytes that an image holds: four per pixel, red, green, blue and
/// alpha, row after row.
pub uninterp spec fn image_bytes(img: raster::Image) -> Seq<u8>;

/// The width and height that an image declares.
pub uninterp spec fn image_dims(img: raster::Image) -> (int, int);

/// Relies on raster's `Image::width` field: the declared width.
#[verifier::external_body]
fn image_width(img: &raster::Image) -> (r: i32)
    ensures
        r == image_dims(*img).0,
{
    img.width
}

/// Relies on raster's `Image::height` field: the declared height.
#[verifier::external_body]
fn image_height(img: &raster::Image) -> (r: i32)
    ensures
        r == image_dims(*img).1,
{
    img.height
}

/// Relies on raster's `Image::bytes` field: its length.
#[verifier::external_body]
fn image_byte_len(img: &raster::Image) -> (r: usize)
    ensures
        r == image_bytes(*img).len(),
{
    img.bytes.len()
}

/// Relies on raster's `Image::set_pixel`: for a position on the image whose
/// byte offset `4 * (y * width + x)` fits in `i32` and lies, with its three
/// successors, inside the bytes, it writes the four channels there and
/// returns `Ok`; nothing else changes.
#[verifier::external_body]
fn set_image_pixel(img: &mut raster::Image, x: i32, y: i32, c: Color)
    requires
        0 <= x < image_dims(*old(img)).0,
        0 <= y < image_dims(*old(img)).1,
        4 * (y * image_dims(*old(img)).0 + x) <= i32::MAX,
        4 * (y * image_dims(*old(img)).0 + x) + 4 <= image_bytes(*old(img)).len(),
    ensures
        image_dims(*final(img)) == image_dims(*old(img)),
        image_bytes(*final(img)) == image_bytes(*old(img)).update(
            4 * (y * image_dims(*old(img)).0 + x),
            c.r,
        ).update(4 * (y * image_dims(*old(img)).0 + x) + 1, c.g).update(
            4 * (y * image_dims(*old(img)).0 + x) + 2,
            c.b,
        ).update(4 * (y * image_dims(*old(img)).0 + x) + 3, c.a),
{
    let _ = img.set_pixel(x, y, raster::Color::rgba(c.r, c.g, c.b, c.a));
}

/// Byte offset of the pixel `(x, y)` in an image `w` pixels wide.
pub open spec fn byte_offset(x: int, y: int, w: int) -> int {
    4 * (y * w + x)
}

/// The offset of `(x, y)` is at the position that a write to the image can
/// reach: on the image, addressable in `i32`, and inside its bytes.
pub open spec fn writable(img: raster::Image, x: int, y: int) -> bool {
    let (w, h) = image_dims(img);
    &&& 0 <= x < w
    &&& 0 <= y < h
    &&& byte_offset(x, y, w) <= i32::MAX
    &&& byte_offset(x, y, w) + 4 <= image_bytes(img).len()
}

proof fn lemma_offsets_apart(x: int, y: int, i: int, j: int, w: int)
    requires
        0 <= x < w,
        0 <= i < w,
        0 <= y,
        0 <= j,
        !(x == i && y == j),
    ensures
        byte_offset(x, y, w) + 4 <= byte_offset(i, j, w) || byte_offset(i, j, w) + 4 <= byte_offset(
            x,
            y,
            w,
        ),
{
    if y < j {
        assert(y * w + w <= j * w) by (nonlinear_arith)
            requires
                y < j,
                0 <= w,
        ;
    } else if j < y {
        assert(j * w + w <= y * w) by (nonlinear_arith)
            requires
                j < y,
                0 <= w,
        ;
    }
}

impl Displayable for raster::Image {
    open spec fn within(&self, x: int, y: int) -> bool {
        writable(*self, x, y)
    }

    open spec fn pixel_at(&self, x: int, y: int) -> Color {
        if writable(*self, x, y) {
            let k = byte_offset(x, y, image_dims(*self).0);
            let b = image_bytes(*self);
            Color { r: b[k], g: b[k + 1], b: b[k + 2], a: b[k + 3] }
        } else {
            white()
        }
    }

    /// Writes the pixel where the image can take it; elsewhere nothing happens.
    fn display(&mut self, x: i32, y: i32, color: Color) {
        let w = image_width(self);
        let h = image_height(self);
        if 0 <= x && x < w && 0 <= y && y < h {
            proof {
                assert(0 <= (y as int) * (w as int) <= 0x7fff_ffff * 0x7fff_ffff) by (nonlinear_arith)
                    requires
                        0 <= y <= 0x7fff_ffff,
                        0 <= w <= 0x7fff_ffff,
                ;
            }
            let m: i64 = (y as i64) * (w as i64) + (x as i64);
            if m <= (i32::MAX as i64) / 4 && (4 * m) as usize + 4 <= image_byte_len(self) {
                let ghost before = *self;
                let ghost k = 4 * m;
                set_image_pixel(self, x, y, color);
                proof {
                    let b = image_bytes(*self);
                    assert(b[k] == color.r && b[k + 1] == color.g && b[k + 2] == color.b && b[k + 3]
                        == color.a);
                    assert(self.pixel_at(x as int, y as int) == color);
                    assert forall|i: int, j: int| #[trigger]
                        self.within(i, j) && !(i == x && j == y) implies self.pixel_at(i, j)
                        == before.pixel_at(i, j) by {
                        lemma_offsets_apart(x as int, y as int, i, j, w as int);
                    }
                }
            }
        }
    }
}

} // verus!
