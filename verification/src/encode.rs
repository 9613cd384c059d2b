//! PNG encoding of raw RGB samples.

use crate::trusted::encoder::{
    begins_with, png_encode_rgb8, png_rgb8_fast_unfiltered, rgb8_preamble,
};
use vstd::prelude::*;

verus! {

/// Why an image was not encoded.
#[derive(Clone, Copy, Debug, PartialEq, Eq, Structural)]
pub enum EncodeError {
    /// The width is zero.
    ZeroWidth,
    /// The height is zero.
    ZeroHeight,
    /// A row, with one more byte for its filter, has 2^32 bytes or more, or
    /// the rows together would not fit in memory.
    TooLarge,
    /// The data are not three bytes for each pixel.
    DataLength,
}

/// What encoding gives: the stream, or the first reason against it.
pub open spec fn encoded(width: u32, height: u32, data: Seq<u8>) -> Result<Seq<u8>, EncodeError> {
    if width == 0 {
        Err(EncodeError::ZeroWidth)
    } else if height == 0 {
        Err(EncodeError::ZeroHeight)
    } else if 3 * width + 1 >= 0x1_0000_0000 || (3 * width + 1) * height > isize::MAX {
        Err(EncodeError::TooLarge)
    } else if data.len() != 3 * width * height {
        Err(EncodeError::DataLength)
    } else {
        Ok(png_rgb8_fast_unfiltered(width as int, height as int, data))
    }
}

/// Encodes `data`, the RGB samples of an image of `width` by `height` pixels
/// row by row, as a PNG stream of eight bits a sample.
pub fn encode_rgb8(width: u32, height: u32, data: &Vec<u8>) -> (r: Result<Vec<u8>, EncodeError>)
    ensures
        match r {
            Ok(stream) => encoded(width, height, data@) == Ok::<Seq<u8>, EncodeError>(stream@)
                && begins_with(stream@, rgb8_preamble(width, height)),
            Err(e) => encoded(width, height, data@) == Err::<Seq<u8>, EncodeError>(e),
        },
{
    if width == 0 {
        return Err(EncodeError::ZeroWidth);
    }
    if height == 0 {
        return Err(EncodeError::ZeroHeight);
    }
    let row: u128 = 3 * (width as u128) + 1;
    if row >= 0x1_0000_0000 {
        return Err(EncodeError::TooLarge);
    }
    assert(row * height <= 0x4_0000_0000 * 0x1_0000_0000) by (nonlinear_arith)
        requires
            0 <= row <= 0x4_0000_0000,
            0 <= height <= 0x1_0000_0000,
    ;
    let filtered: u128 = row * (height as u128);
    if filtered > isize::MAX as u128 {
        return Err(EncodeError::TooLarge);
    }
    // With the sizes above ruled out, the encoder has one reason left to
    // refuse: data that are not three bytes a pixel.
    match png_encode_rgb8(width, height, data) {
        Ok(stream) => Ok(stream),
        Err(_) => Err(EncodeError::DataLength),
    }
}

} // verus!
