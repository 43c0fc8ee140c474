use image::{ImageBuffer, Rgba};
use vstd::prelude::*;

use crate::color::{channel, clear, transparent, Color};

verus! {

/// An RGBA image with eight bits per channel, held by the image crate.
///
/// The buffer stays private; its contents are described by `pixels_of` and
/// its size by `dims_of`, and every access goes through the methods below.
#[verifier::external_body]
pub struct Canvas {
    img: ImageBuffer<Rgba<u8>, Vec<u8>>,
}

/// The pixels of a canvas, keyed by `(x, y)`.
pub uninterp spec fn pixels_of(c: Canvas) -> Map<(u32, u32), Color>;

/// The width and height of a canvas.
pub uninterp spec fn dims_of(c: Canvas) -> (u32, u32);

/// The pixel map of a `w` by `h` image filled with `c`.
pub open spec fn filled(w: u32, h: u32, c: Color) -> Map<(u32, u32), Color> {
    Map::new(|p: (u32, u32)| p.0 < w && p.1 < h, |p: (u32, u32)| c)
}

/// Whether `p` lies in the box with top-left corner `(x, y)`, `w` wide and
/// `h` high.
pub open spec fn in_box(p: (u32, u32), x: int, y: int, w: int, h: int) -> bool {
    x <= p.0 < x + w && y <= p.1 < y + h
}

/// `m` with every pixel of the box `(x, y, w, h)` overwritten by `c`.
pub open spec fn fill_box(
    m: Map<(u32, u32), Color>,
    x: int,
    y: int,
    w: int,
    h: int,
    c: Color,
) -> Map<(u32, u32), Color> {
    Map::new(
        |p: (u32, u32)| m.contains_key(p) || in_box(p, x, y, w, h),
        |p: (u32, u32)|
            if in_box(p, x, y, w, h) {
                c
            } else {
                m[p]
            },
    )
}

impl Canvas {
    /// A `w` by `h` canvas with every pixel fully transparent.
    pub fn transparent(w: u32, h: u32) -> (r: Canvas)
        requires
            4 * (w as int) * (h as int) <= isize::MAX,
        ensures
            dims_of(r) == (w, h),
            pixels_of(r) == filled(w, h, transparent()),
    {
        Canvas::from_pixel(w, h, clear())
    }

    /// The samples as plain bytes: rows from the top, each row from the left,
    /// four bytes (red, green, blue, alpha) per pixel.
    pub fn into_rgba(self) -> (r: Vec<u8>)
        ensures
            r@.len() == 4 * dims_of(self).0 * dims_of(self).1,
            forall|x: u32, y: u32, k: int|
                x < dims_of(self).0 && y < dims_of(self).1 && 0 <= k < 4 ==> r@[4 * (y
                    * dims_of(self).0 + x) + k] == #[trigger] channel(pixels_of(self)[(x, y)], k),
    {
        self.into_raw()
    }

    /// Relies on `ImageBuffer::from_pixel`: a `w` by `h` image with every
    /// pixel set to `c`. It panics when the buffer length `4 * w * h`
    /// overflows `usize` or exceeds what a `Vec` can hold.
    #[verifier::external_body]
    pub(crate) fn from_pixel(w: u32, h: u32, c: Color) -> (r: Canvas)
        requires
            4 * (w as int) * (h as int) <= isize::MAX,
        ensures
            dims_of(r) == (w, h),
            pixels_of(r) == filled(w, h, c),
    {
        Canvas { img: ImageBuffer::from_pixel(w, h, Rgba([c.r, c.g, c.b, c.a])) }
    }

    /// Relies on `ImageBuffer::dimensions`: the width and height.
    #[verifier::external_body]
    pub(crate) fn dimensions(&self) -> (r: (u32, u32))
        ensures
            r == dims_of(*self),
    {
        self.img.dimensions()
    }

    /// Relies on `ImageBuffer::put_pixel`: overwrites the pixel at `(x, y)`
    /// with `c`. It panics when `(x, y)` lies outside the image.
    #[verifier::external_body]
    pub(crate) fn put_pixel(&mut self, x: u32, y: u32, c: Color)
        requires
            x < dims_of(*old(self)).0,
            y < dims_of(*old(self)).1,
        ensures
            dims_of(*final(self)) == dims_of(*old(self)),
            pixels_of(*final(self)) == pixels_of(*old(self)).insert((x, y), c),
    {
        self.img.put_pixel(x, y, Rgba([c.r, c.g, c.b, c.a]))
    }

    /// Relies on `ImageBuffer::get_pixel`: the pixel at `(x, y)`. It panics
    /// when `(x, y)` lies outside the image.
    #[verifier::external_body]
    pub(crate) fn get_pixel(&self, x: u32, y: u32) -> (r: Color)
        requires
            x < dims_of(*self).0,
            y < dims_of(*self).1,
        ensures
            r == pixels_of(*self)[(x, y)],
    {
        let px = self.img.get_pixel(x, y);
        Color { r: px.0[0], g: px.0[1], b: px.0[2], a: px.0[3] }
    }

    /// Relies on `ImageBuffer::into_raw`: the samples row by row from the
    /// top, each row from the left, four bytes (red, green, blue, alpha) per
    /// pixel, as `from_pixel` allocated them.
    #[verifier::external_body]
    pub(crate) fn into_raw(self) -> (r: Vec<u8>)
        ensures
            r@.len() == 4 * dims_of(self).0 * dims_of(self).1,
            forall|x: u32, y: u32, k: int|
                x < dims_of(self).0 && y < dims_of(self).1 && 0 <= k < 4 ==> r@[4 * (y
                    * dims_of(self).0 + x) + k] == #[trigger] channel(pixels_of(self)[(x, y)], k),
    {
        self.img.into_raw()
    }
}

/// Overwrites every pixel of the box with top-left corner `(x, y)`, `width`
/// wide and `height` high, with `color`. The box must lie inside the image.
pub fn draw_rect(img: &mut Canvas, x: u32, y: u32, width: u32, height: u32, color: Color)
    requires
        x as int + width as int <= dims_of(*old(img)).0,
        y as int + height as int <= dims_of(*old(img)).1,
    ensures
        dims_of(*final(img)) == dims_of(*old(img)),
        pixels_of(*final(img)) == fill_box(pixels_of(*old(img)), x as int, y as int, width as int, height as int, color),
{
    let ghost m0 = pixels_of(*img);
    let mut dy: u32 = 0;
    while dy < height
        invariant
            dy <= height,
            dims_of(*img) == dims_of(*old(img)),
            x as int + width as int <= dims_of(*img).0,
            y as int + height as int <= dims_of(*img).1,
            pixels_of(*img) == fill_box(m0, x as int, y as int, width as int, dy as int, color),
        decreases height - dy,
    {
        let ghost m1 = pixels_of(*img);
        let mut dx: u32 = 0;
        while dx < width
            invariant
                dx <= width,
                dy < height,
                dims_of(*img) == dims_of(*old(img)),
                x as int + width as int <= dims_of(*img).0,
                y as int + height as int <= dims_of(*img).1,
                m1 == fill_box(m0, x as int, y as int, width as int, dy as int, color),
                pixels_of(*img) == fill_box(m1, x as int, y + dy, dx as int, 1, color),
            decreases width - dx,
        {
            img.put_pixel(x + dx, y + dy, color);
            assert(pixels_of(*img) =~= fill_box(m1, x as int, y + dy, dx + 1, 1, color));
            dx = dx + 1;
        }
        assert(pixels_of(*img) =~= fill_box(m0, x as int, y as int, width as int, dy + 1, color));
        dy = dy + 1;
    }
    assert(pixels_of(*img) =~= fill_box(m0, x as int, y as int, width as int, height as int, color));
}

} // verus!
