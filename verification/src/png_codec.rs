//! The one place where the library leans on an outside crate: turning a
//! finished grayscale raster into PNG bytes.

use vstd::prelude::*;

use crate::errors::Error;

verus! {

/// The PNG encoding of a square 8-bit grayscale raster. Encoding with the
/// image crate's defaults is a pure function of the pixels and the side
/// length, so the bytes are named rather than described.
pub uninterp spec fn png_gray_bytes(pixels: Seq<u8>, size: int) -> Seq<u8>;

/// Relies on image's `PngEncoder::write_image` with `ExtendedColorType::L8`
/// and default compression: given a buffer of exactly `size * size` bytes
/// and a nonzero side length it deterministically encodes the raster into
/// the output vector and returns `Ok`. The length precondition keeps out
/// the one input on which `write_image` panics.
#[verifier::external_body]
pub(crate) fn encode_gray_png(pixels: &Vec<u8>, size: u32) -> (r: Result<Vec<u8>, Error>)
    requires
        1 <= size <= 8192,
        pixels@.len() == size * size,
    ensures
        r is Ok,
        r matches Ok(b) ==> b@ == png_gray_bytes(pixels@, size as int),
{
    let mut out: Vec<u8> = Vec::new();
    let encoder = image::codecs::png::PngEncoder::new(&mut out);
    match image::ImageEncoder::write_image(
        encoder,
        pixels.as_slice(),
        size,
        size,
        image::ExtendedColorType::L8,
    ) {
        Ok(()) => Ok(out),
        Err(_) => Err(Error::ImageSaveError),
    }
}

} // verus!
