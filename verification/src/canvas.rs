//! The pixel grid that a flag is rendered into.
//!
//! The grid is an RGB buffer of the `image` crate. Verus does not look into
//! it: what it holds is named by [`image_size`] and [`image_pixels`], and the
//! few functions at the end of this file that touch the buffer state over
//! those two names what the buffer's methods do. Everything else is proved
//! from them.

use vstd::prelude::*;
use crate::color::Color;
use crate::background::FlagBackground;

verus! {

/// A rendered flag: a grid of colors, stored row by row from the top-left
/// corner.
///
/// The grid is an `image::RgbImage`. Its type is generic over a pixel trait
/// that Verus cannot be told of, so the buffer is kept behind this struct,
/// whose inside Verus does not read.
#[verifier::external_body]
pub struct FlagImage {
    buffer: image::RgbImage,
}

/// The width and the height that the buffer was made with, in pixels.
pub uninterp spec fn image_size(img: FlagImage) -> (nat, nat);

/// The pixels of the buffer in storage order: row by row, each row from left
/// to right, each pixel by its red, green and blue channel.
pub uninterp spec fn image_pixels(img: FlagImage) -> Seq<(u8, u8, u8)>;

/// The place of pixel `(x, y)` in the storage order of a grid of the given
/// width.
pub open spec fn cell(width: int, x: int, y: int) -> int {
    y * width + x
}

/// A pixel inside a grid has its place inside the storage.
pub proof fn lemma_cell_in_range(width: int, height: int, x: int, y: int)
    requires
        0 <= x < width,
        0 <= y < height,
    ensures
        0 <= cell(width, x, y) < width * height,
{
    assert(y * width + x < width * height && 0 <= y * width) by (nonlinear_arith)
        requires
            0 <= x < width,
            0 <= y < height,
    ;
}

/// Two different pixels of a grid have different places in the storage.
pub proof fn lemma_cell_distinct(width: int, x: int, y: int, i: int, j: int)
    requires
        0 <= x < width,
        0 <= i < width,
        x != i || y != j,
    ensures
        cell(width, x, y) != cell(width, i, j),
{
    if y != j {
        assert(y * width + x != j * width + i) by (nonlinear_arith)
            requires
                0 <= x < width,
                0 <= i < width,
                y != j,
        ;
    }
}

impl View for FlagImage {
    type V = Seq<(u8, u8, u8)>;

    /// The pixels in storage order.
    open spec fn view(&self) -> Seq<(u8, u8, u8)> {
        image_pixels(*self)
    }
}

impl FlagImage {
    /// The number of pixels in a row.
    pub open spec fn spec_width(&self) -> nat {
        image_size(*self).0
    }

    /// The number of rows.
    pub open spec fn spec_height(&self) -> nat {
        image_size(*self).1
    }

    /// The storage holds exactly one entry for each pixel of the grid.
    pub open spec fn wf(&self) -> bool {
        self@.len() == self.spec_width() * self.spec_height()
    }

    /// Whether `(x, y)` is a pixel of the grid.
    pub open spec fn has(&self, x: int, y: int) -> bool {
        0 <= x < self.spec_width() && 0 <= y < self.spec_height()
    }

    /// The channels of the pixel in column `x` of row `y`.
    pub open spec fn pixel_at(&self, x: int, y: int) -> (u8, u8, u8) {
        self@[cell(self.spec_width() as int, x, y)]
    }

    /// The number of pixels in a row.
    pub fn width(&self) -> (w: u32)
        ensures
            w == self.spec_width(),
    {
        buffer_width(self)
    }

    /// The number of rows.
    pub fn height(&self) -> (h: u32)
        ensures
            h == self.spec_height(),
    {
        buffer_height(self)
    }

    /// The color of the pixel in column `x` of row `y`, or `None` where the
    /// grid has no such pixel.
    pub fn pixel(&self, x: u32, y: u32) -> (found: Option<Color>)
        ensures
            found.is_some() == self.has(x as int, y as int),
            found.is_some() ==> found.unwrap()@ == self.pixel_at(x as int, y as int),
    {
        if x < buffer_width(self) && y < buffer_height(self) {
            Some(buffer_get(self, x, y))
        } else {
            None
        }
    }

    /// Gives the grid up as bytes: three for each pixel, in storage order.
    pub fn into_bytes(self) -> (bytes: Vec<u8>)
        ensures
            bytes@.len() == 3 * self@.len(),
            forall|k: int|
                0 <= k < self@.len() ==> (#[trigger] self@[k]) == (
                    bytes@[3 * k],
                    bytes@[3 * k + 1],
                    bytes@[3 * k + 2],
                ),
    {
        buffer_into_raw(self)
    }
}

/// `ImageBuffer::width`: the width the buffer was made with.
#[verifier::external_body]
pub(crate) fn buffer_width(img: &FlagImage) -> (w: u32)
    ensures
        w == image_size(*img).0,
{
    img.buffer.width()
}

/// `ImageBuffer::height`: the height the buffer was made with.
#[verifier::external_body]
pub(crate) fn buffer_height(img: &FlagImage) -> (h: u32)
    ensures
        h == image_size(*img).1,
{
    img.buffer.height()
}

/// `ImageBuffer::get_pixel`: the pixel that is stored for `(x, y)`, which is
/// the one at place `y * width + x`. It panics outside the grid, so such
/// coordinates are left out.
#[verifier::external_body]
pub(crate) fn buffer_get(img: &FlagImage, x: u32, y: u32) -> (c: Color)
    requires
        x < image_size(*img).0,
        y < image_size(*img).1,
    ensures
        c@ == image_pixels(*img)[cell(image_size(*img).0 as int, x as int, y as int)],
{
    let p = img.buffer.get_pixel(x, y);
    Color { r: p.0[0], g: p.0[1], b: p.0[2] }
}

/// `ImageBuffer::put_pixel`: overwrites the pixel stored for `(x, y)` and
/// leaves the size and every other pixel as they were. It panics outside the
/// grid, so such coordinates are left out.
#[verifier::external_body]
pub(crate) fn buffer_put(img: &mut FlagImage, x: u32, y: u32, c: Color)
    requires
        x < image_size(*old(img)).0,
        y < image_size(*old(img)).1,
    ensures
        image_size(*final(img)) == image_size(*old(img)),
        image_pixels(*final(img)) == image_pixels(*old(img)).update(
            cell(image_size(*old(img)).0 as int, x as int, y as int),
            c@,
        ),
{
    img.buffer.put_pixel(x, y, image::Rgb([c.r, c.g, c.b]))
}

/// `ImageBuffer::into_raw`: the bytes behind the buffer, three for each
/// pixel in storage order, and no more.
#[verifier::external_body]
pub(crate) fn buffer_into_raw(img: FlagImage) -> (bytes: Vec<u8>)
    ensures
        bytes@.len() == 3 * image_pixels(img).len(),
        forall|k: int|
            0 <= k < image_pixels(img).len() ==> (#[trigger] image_pixels(img)[k]) == (
                bytes@[3 * k],
                bytes@[3 * k + 1],
                bytes@[3 * k + 2],
            ),
{
    img.buffer.into_raw()
}

/// `ImageBuffer::from_fn`: a new buffer of the given size in which each pixel
/// holds what the closure returns for its coordinates; the closure asks the
/// background for the color of the stripe that the pixel lies in.
///
/// `from_fn` panics where three bytes for each pixel are more than a vector
/// can hold, so such sizes are left out.
#[verifier::external_body]
pub(crate) fn buffer_from_stripes(background: &FlagBackground, width: u32, height: u32) -> (img:
    FlagImage)
    requires
        background.wf(),
        3 * width * height <= isize::MAX,
    ensures
        image_size(img) == (width as nat, height as nat),
        image_pixels(img).len() == width * height,
        forall|x: int, y: int|
            0 <= x < width && 0 <= y < height ==> image_pixels(img)[cell(width as int, x, y)] == (
            #[trigger] background.spec_color_at(x, y, width as int, height as int))@,
{
    FlagImage {
        buffer: image::RgbImage::from_fn(
            width,
            height,
            |x, y|
                {
                    let c = background.color_at(x, y, width, height);
                    image::Rgb([c.r, c.g, c.b])
                },
        ),
    }
}

} // verus!
