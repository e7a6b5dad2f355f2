//! Decoding an encoded image (PNG, JPEG, ...) into 8-bit RGBA pixels.

use vstd::prelude::*;
use image::{GenericImageView, ImageError};

verus! {

/// Errors of the `image` crate (unsupported format, malformed data, limits).
#[verifier::external_type_specification]
#[verifier::external_body]
pub struct ExImageError(ImageError);

/// A decoded source image: RGBA8 pixels, row-major, and the time the
/// decoding took.
#[derive(Debug)]
pub struct DecodedImage {
    pub rgba: Vec<u8>,
    pub width: u32,
    pub height: u32,
    pub decode_ms: u128,
}

/// What the `image` crate's built-in path makes of `bytes`: the format
/// detected from the bytes by `image::guess_format`, the image decoded by
/// `image::load_from_memory_with_format` with the default limits, and that
/// converted to 8-bit RGBA: the pixels row-major, the width and the height;
/// `None` where either call reports an error.
pub uninterp spec fn rgba8_decoding(bytes: Seq<u8>) -> Option<(Seq<u8>, u32, u32)>;

/// Calls `image::guess_format` and `image::load_from_memory_with_format`,
/// then `dimensions`, `to_rgba8` and `into_raw` on the result. Trusted: this
/// path uses only the crate's own magic-byte table and built-in decoders,
/// never the process-wide hooks that `image::hooks` lets code register, and
/// the decoding limits are the crate's defaults, so the outcome depends on
/// the bytes alone and is named `rgba8_decoding(bytes)`. The built-in
/// decoders size their buffer from the image's dimensions and the
/// conversion builds a width x height RGBA buffer, so the pixels are four
/// bytes each. Which error comes back on failure is left unsaid.
#[verifier::external_body]
fn load_rgba8_from_memory(bytes: &[u8]) -> (res: Result<(Vec<u8>, u32, u32), ImageError>)
    ensures
        res is Ok <==> rgba8_decoding(bytes@) is Some,
        res matches Ok((pixels, width, height)) ==> {
            &&& rgba8_decoding(bytes@) == Some((pixels@, width, height))
            &&& pixels@.len() == 4 * width * height
        },
{
    let format = image::guess_format(bytes)?;
    let image = image::load_from_memory_with_format(bytes, format)?;
    let (width, height) = image.dimensions();
    Ok((image.to_rgba8().into_raw(), width, height))
}

/// Decodes an encoded image held in memory into RGBA8 pixels, with the
/// formats the `image` crate has built in. The decoding time is left at zero
/// for the caller, who measures it, to fill in.
pub fn decode_image_bytes(bytes: &[u8]) -> (res: Result<DecodedImage, ImageError>)
    ensures
        res is Ok <==> rgba8_decoding(bytes@) is Some,
        res matches Ok(image) ==> {
            &&& rgba8_decoding(bytes@) == Some((image.rgba@, image.width, image.height))
            &&& image.rgba@.len() == 4 * image.width * image.height
            &&& image.decode_ms == 0
        },
{
    match load_rgba8_from_memory(bytes) {
        Ok((rgba, width, height)) => Ok(DecodedImage { rgba, width, height, decode_ms: 0 }),
        Err(e) => Err(e),
    }
}

} // verus!
