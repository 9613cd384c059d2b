//! The encoder of the `png` crate, run over a sink in memory.

use vstd::prelude::*;

verus! {

/// `png::EncodingError`.
#[verifier::external_type_specification]
#[verifier::external_body]
pub struct ExEncodingError(png::EncodingError);

/// The PNG stream that the encoder writes for an image of `width` by `height`
/// pixels whose samples are `data`, with colour type RGB, eight bits a sample,
/// fast compression and no scanline filter.
pub uninterp spec fn png_rgb8_fast_unfiltered(width: int, height: int, data: Seq<u8>) -> Seq<u8>;

/// A 32-bit number, most significant byte first.
pub open spec fn be_bytes(v: u32) -> Seq<u8> {
    seq![
        (v / 0x100_0000) as u8,
        (v / 0x1_0000 % 0x100) as u8,
        (v / 0x100 % 0x100) as u8,
        (v % 0x100) as u8,
    ]
}

/// What every stream for an RGB image of eight bits a sample starts with: the
/// PNG signature, then the length and type of the header chunk, then its
/// first thirteen bytes: width, height, bit depth 8, colour type 2,
/// and zero for compression method, filter method and interlacing.
pub open spec fn rgb8_preamble(width: u32, height: u32) -> Seq<u8> {
    seq![137u8, 80, 78, 71, 13, 10, 26, 10] + seq![0u8, 0, 0, 13, 73, 72, 68, 82] + be_bytes(width)
        + be_bytes(height) + seq![8u8, 2, 0, 0, 0]
}

/// `stream` starts with `prefix`.
pub open spec fn begins_with(stream: Seq<u8>, prefix: Seq<u8>) -> bool {
    &&& prefix.len() <= stream.len()
    &&& forall|i: int| 0 <= i < prefix.len() ==> #[trigger] stream[i] == prefix[i]
}

/// `png::Encoder::new` over an empty vector, `set_color(Rgb)`,
/// `set_depth(Eight)`, `set_compression(Fast)`, `set_filter(NoFilter)`,
/// `write_header`, `Writer::write_image_data`, and the writer's drop, which
/// ends the stream.
///
/// Claimed: the encoder refuses a zero width, a zero height, and data whose
/// length is not three bytes a pixel; writing into a vector gives it no other
/// reason to fail. What it writes depends on the three arguments alone and
/// starts with the signature and the header chunk.
///
/// The first precondition keeps a row, with its filter byte, under 2^32
/// bytes: the fast compressor takes one row at a time and counts a run of
/// zero bytes in 32 bits. The second keeps the encoder's arithmetic on the
/// size of the whole image within `usize`.
#[verifier::external_body]
pub(crate) fn png_encode_rgb8(
    width: u32,
    height: u32,
    data: &Vec<u8>,
) -> (outcome: Result<Vec<u8>, png::EncodingError>)
    requires
        3 * width + 1 < 0x1_0000_0000,
        (3 * width + 1) * height <= isize::MAX,
    ensures
        outcome.is_ok() == (width != 0 && height != 0 && data@.len() == 3 * width * height),
        outcome.is_ok() ==> outcome.unwrap()@ == png_rgb8_fast_unfiltered(
            width as int,
            height as int,
            data@,
        ),
        outcome.is_ok() ==> begins_with(outcome.unwrap()@, rgb8_preamble(width, height)),
{
    let mut stream: Vec<u8> = Vec::new();
    let mut encoder = png::Encoder::new(&mut stream, width, height);
    encoder.set_color(png::ColorType::Rgb);
    encoder.set_depth(png::BitDepth::Eight);
    encoder.set_compression(png::Compression::Fast);
    encoder.set_filter(png::FilterType::NoFilter);
    let mut writer = encoder.write_header()?;
    writer.write_image_data(data)?;
    drop(writer);
    Ok(stream)
}

} // verus!
