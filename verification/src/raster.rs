//! The raster of a grid: a square of 256×256 pixels in which every grid cell
//! covers a square of 32×32, foreground where the cell is 1 and white
//! elsewhere.

use crate::grid::{has_clear_border, in_grid, is_grid, is_symmetric, on_border, Grid};
use crate::trusted::canvas::{
    canvas_filled, canvas_height, canvas_into_bytes, canvas_pixels, canvas_put, canvas_width,
    interleaved,
};
use vstd::prelude::*;

verus! {

/// Side of the raster, in pixels.
pub const IMAGE_WIDTH: u32 = 256;

/// Side of the square of pixels that one grid cell covers.
pub const CELL_PIXELS: u32 = 32;

/// An RGB colour, eight bits a channel.
#[derive(Clone, Copy, Debug, PartialEq, Eq, Structural)]
pub struct Color {
    pub r: u8,
    pub g: u8,
    pub b: u8,
}

impl Color {
    /// The channels as a triple.
    pub open spec fn rgb(self) -> (u8, u8, u8) {
        (self.r, self.g, self.b)
    }

    /// The background colour.
    pub open spec fn spec_white() -> Color {
        Color { r: 255, g: 255, b: 255 }
    }

    /// The background colour.
    #[verifier::when_used_as_spec(spec_white)]
    pub fn white() -> (c: Color)
        ensures
            c == Color::spec_white(),
    {
        Color { r: 255, g: 255, b: 255 }
    }
}

/// The colour of pixel `(x, y)`: the cell that owns it is `(x / 32, y / 32)`.
pub open spec fn pixel_color(g: Seq<Seq<u8>>, foreground: Color, x: int, y: int) -> Color {
    if g[x / 32][y / 32] == 1 {
        foreground
    } else {
        Color::white()
    }
}

/// The pixels of the raster, row by row.
pub open spec fn raster_pixels(g: Seq<Seq<u8>>, foreground: Color) -> Seq<(u8, u8, u8)> {
    Seq::new(65536, |i: int| pixel_color(g, foreground, i % 256, i / 256).rgb())
}

/// The raster as bytes: three per pixel, 196608 in all.
pub open spec fn raster_bytes(g: Seq<Seq<u8>>, foreground: Color) -> Seq<u8> {
    interleaved(raster_pixels(g, foreground))
}

/// The raster of a symmetric grid is symmetric from left to right: pixel
/// `(x, y)` and pixel `(255 - x, y)` have the same colour.
pub proof fn law_raster_is_symmetric(g: Seq<Seq<u8>>, foreground: Color, x: int, y: int)
    requires
        is_grid(g),
        is_symmetric(g),
        0 <= x < 256,
        0 <= y < 256,
    ensures
        pixel_color(g, foreground, x, y) == pixel_color(g, foreground, 255 - x, y),
{
    assert((255 - x) / 32 == 7 - x / 32);
    assert(in_grid(x / 32, y / 32));
}

/// The raster of a grid with a clear border has a white frame 32 pixels wide.
pub proof fn law_raster_frame_is_white(g: Seq<Seq<u8>>, foreground: Color, x: int, y: int)
    requires
        is_grid(g),
        has_clear_border(g),
        0 <= x < 256,
        0 <= y < 256,
        x < 32 || x >= 224 || y < 32 || y >= 224,
    ensures
        pixel_color(g, foreground, x, y) == Color::white(),
{
    assert(in_grid(x / 32, y / 32) && on_border(x / 32, y / 32));
}

/// Paints the raster of `grid` and returns its bytes.
pub fn rasterize(grid: &Grid, foreground: Color) -> (bytes: Vec<u8>)
    ensures
        bytes@ == raster_bytes(grid@, foreground),
{
    proof {
        grid.lemma_shape();
    }
    let mut canvas = canvas_filled(IMAGE_WIDTH, IMAGE_WIDTH, Color::white());
    let mut y: u32 = 0;
    while y < IMAGE_WIDTH
        invariant
            y <= 256,
            canvas_width(canvas) == 256,
            canvas_height(canvas) == 256,
            canvas_pixels(canvas).len() == 65536,
            forall|i: int|
                0 <= i < 65536 ==> #[trigger] canvas_pixels(canvas)[i] == if i < y * 256 {
                    pixel_color(grid@, foreground, i % 256, i / 256).rgb()
                } else {
                    Color::white().rgb()
                },
        decreases 256 - y,
    {
        let mut x: u32 = 0;
        while x < IMAGE_WIDTH
            invariant
                y < 256,
                x <= 256,
                canvas_width(canvas) == 256,
                canvas_height(canvas) == 256,
                canvas_pixels(canvas).len() == 65536,
                forall|i: int|
                    0 <= i < 65536 ==> #[trigger] canvas_pixels(canvas)[i] == if i < y * 256 + x {
                        pixel_color(grid@, foreground, i % 256, i / 256).rgb()
                    } else {
                        Color::white().rgb()
                    },
            decreases 256 - x,
        {
            let row: usize = (x / CELL_PIXELS) as usize;
            let col: usize = (y / CELL_PIXELS) as usize;
            if grid.get(row, col) == 1 {
                canvas_put(&mut canvas, x, y, foreground);
            }
            x += 1;
        }
        y += 1;
    }
    assert(canvas_pixels(canvas) =~= raster_pixels(grid@, foreground));
    canvas_into_bytes(canvas)
}

} // verus!
