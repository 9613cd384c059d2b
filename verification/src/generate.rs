//! One image from start to end: a random colour and pattern, the raster, the
//! PNG stream, and the path of its file. Writing the file is the caller's.

use crate::encode::{encode_rgb8, EncodeError};
use crate::grid::{has_clear_border, is_binary, is_symmetric, pattern_of, Grid};
use crate::naming::{image_path, path_text};
use crate::raster::{raster_bytes, rasterize, Color, IMAGE_WIDTH};
use crate::trusted::encoder::{begins_with, png_rgb8_fast_unfiltered, rgb8_preamble};
use crate::trusted::rng::sample_byte;
use vstd::prelude::*;

verus! {

/// An image that is ready to be written.
#[derive(Debug)]
pub struct GeneratedImage {
    /// Where it goes.
    pub path: String,
    /// Its pattern.
    pub grid: Grid,
    /// Its foreground colour.
    pub color: Color,
    /// The file's content: a PNG stream.
    pub png: Vec<u8>,
}

/// The PNG stream of the raster of a grid.
pub open spec fn png_of(g: Seq<Seq<u8>>, foreground: Color) -> Seq<u8> {
    png_rgb8_fast_unfiltered(256, 256, raster_bytes(g, foreground))
}

/// Paints and encodes a grid. The stream is that of a 256×256 image in RGB
/// with eight bits a sample, and encoding a raster never fails.
pub fn render(grid: &Grid, foreground: Color) -> (r: Result<Vec<u8>, EncodeError>)
    ensures
        r is Ok,
        r.unwrap()@ == png_of(grid@, foreground),
        begins_with(r.unwrap()@, rgb8_preamble(256, 256)),
{
    let bytes = rasterize(grid, foreground);
    encode_rgb8(IMAGE_WIDTH, IMAGE_WIDTH, &bytes)
}

/// The image number `id` with the given colour and the pattern of the given
/// samples.
pub fn compose_image(
    output_directory: &str,
    id: i32,
    foreground: Color,
    samples: &[u8; 36],
) -> (r: Result<GeneratedImage, EncodeError>)
    ensures
        r is Ok,
        r.unwrap().path@ == path_text(output_directory@, id as int),
        r.unwrap().grid@ == pattern_of(samples@),
        r.unwrap().color == foreground,
        r.unwrap().png@ == png_of(pattern_of(samples@), foreground),
        begins_with(r.unwrap().png@, rgb8_preamble(256, 256)),
{
    let grid = Grid::from_samples(samples);
    match render(&grid, foreground) {
        Ok(png) => Ok(
            GeneratedImage { path: image_path(output_directory, id), grid, color: foreground, png },
        ),
        Err(e) => Err(e),
    }
}

/// Three bytes from the generator, as a colour.
fn random_color(rng: &mut rand::rngs::ThreadRng) -> Color {
    let r: u8 = sample_byte(rng);
    let g: u8 = sample_byte(rng);
    let b: u8 = sample_byte(rng);
    Color { r, g, b }
}

/// One byte from the generator for each interior cell.
fn random_samples(rng: &mut rand::rngs::ThreadRng) -> [u8; 36] {
    let mut samples: [u8; 36] = [0u8; 36];
    let mut k: usize = 0;
    while k < 36
        invariant
            k <= 36,
        decreases 36 - k,
    {
        samples[k] = sample_byte(rng);
        k += 1;
    }
    samples
}

/// The image number `id`, with a colour and a pattern drawn from the random
/// generator of the calling thread. Whatever is drawn, the pattern is
/// symmetric and binary with a clear border, and the stream is that of its
/// raster.
pub fn generate_image(output_directory: &str, id: i32) -> (r: Result<GeneratedImage, EncodeError>)
    ensures
        r is Ok,
        r.unwrap().path@ == path_text(output_directory@, id as int),
        is_symmetric(r.unwrap().grid@),
        has_clear_border(r.unwrap().grid@),
        is_binary(r.unwrap().grid@),
        r.unwrap().png@ == png_of(r.unwrap().grid@, r.unwrap().color),
        begins_with(r.unwrap().png@, rgb8_preamble(256, 256)),
{
    let mut rng = rand::thread_rng();
    let foreground = random_color(&mut rng);
    let samples = random_samples(&mut rng);
    compose_image(output_directory, id, foreground, &samples)
}

} // verus!
