//! The RGB pixel buffer of the `image` crate, as far as the raster needs it:
//! make one of a single colour, overwrite one pixel, take the bytes out.

use crate::raster::Color;
use vstd::prelude::*;

verus! {

/// An `image::RgbImage`, that is an `image::ImageBuffer<Rgb<u8>, Vec<u8>>`.
/// The buffer's own declaration is bound by the crate's `Pixel` trait, so it
/// is held here behind a field that the verifier does not look into.
#[verifier::external_body]
pub struct Canvas {
    inner: image::RgbImage,
}

/// The pixels of a canvas as `(red, green, blue)`, row by row from the top,
/// each row from the left: pixel `(x, y)` stands at `y * width + x`.
pub uninterp spec fn canvas_pixels(canvas: Canvas) -> Seq<(u8, u8, u8)>;

/// The width, in pixels, that a canvas was made with.
pub uninterp spec fn canvas_width(canvas: Canvas) -> nat;

/// The height, in pixels, that a canvas was made with.
pub uninterp spec fn canvas_height(canvas: Canvas) -> nat;

/// The bytes of a row of pixels laid end to end, three per pixel, red first.
pub open spec fn interleaved(pixels: Seq<(u8, u8, u8)>) -> Seq<u8> {
    Seq::new(
        3 * pixels.len(),
        |k: int|
            if k % 3 == 0 {
                pixels[k / 3].0
            } else if k % 3 == 1 {
                pixels[k / 3].1
            } else {
                pixels[k / 3].2
            },
    )
}

/// `ImageBuffer::from_fn`, with a function that answers `fill` at every
/// coordinate. Claimed: the buffer has the size asked for and every pixel is
/// `fill`. The call panics where the buffer would not fit in a vector, which
/// the precondition keeps out.
#[verifier::external_body]
pub(crate) fn canvas_filled(width: u32, height: u32, fill: Color) -> (canvas: Canvas)
    requires
        3 * width * height <= isize::MAX,
    ensures
        canvas_width(canvas) == width,
        canvas_height(canvas) == height,
        canvas_pixels(canvas).len() == width * height,
        forall|i: int|
            0 <= i < width * height ==> #[trigger] canvas_pixels(canvas)[i] == fill.rgb(),
{
    Canvas {
        inner: image::ImageBuffer::from_fn(width, height, |_, _| image::Rgb([fill.r, fill.g, fill.b])),
    }
}

/// `ImageBuffer::put_pixel`. Claimed: the pixel at `(x, y)` becomes `color`
/// and nothing else changes. The call panics on a coordinate outside the
/// buffer, which the precondition keeps out.
#[verifier::external_body]
pub(crate) fn canvas_put(canvas: &mut Canvas, x: u32, y: u32, color: Color)
    requires
        x < canvas_width(*old(canvas)),
        y < canvas_height(*old(canvas)),
    ensures
        canvas_width(*final(canvas)) == canvas_width(*old(canvas)),
        canvas_height(*final(canvas)) == canvas_height(*old(canvas)),
        canvas_pixels(*final(canvas)) == canvas_pixels(*old(canvas)).update(
            y * canvas_width(*old(canvas)) + x,
            color.rgb(),
        ),
{
    canvas.inner.put_pixel(x, y, image::Rgb([color.r, color.g, color.b]));
}

/// `ImageBuffer::into_raw`. Claimed: the vector that comes out holds the
/// pixels in their order, three bytes each.
#[verifier::external_body]
pub(crate) fn canvas_into_bytes(canvas: Canvas) -> (bytes: Vec<u8>)
    ensures
        bytes@ == interleaved(canvas_pixels(canvas)),
{
    canvas.inner.into_raw()
}

} // verus!
