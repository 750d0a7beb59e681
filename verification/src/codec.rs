//! Decoding of encoded images (PNG, JPEG, WebP) through the `image` crate.
use vstd::prelude::*;

verus! {

/// An error of the `image` crate, carried through unchanged.
#[verifier::external_type_specification]
#[verifier::external_body]
pub struct ExImageError(image::ImageError);

/// Calls `image::load_from_memory` (format guessed from the content) and
/// converts the decoded image with `DynamicImage::into_rgba8`, handing out
/// its width, height and raw bytes. Trusted only to hand out at least four
/// bytes per pixel (every constructor of the crate's `ImageBuffer` checks
/// that its buffer fits the image). Nothing ties the result to `bytes`: the
/// crate picks the format and the decoder through process-wide hook
/// registries that any code in the process may fill, so whether decoding
/// succeeds and what it yields is left unsaid.
#[verifier::external_body]
pub(crate) fn decode_rgba8(bytes: &[u8]) -> (r: Result<(u32, u32, Vec<u8>), image::ImageError>)
    ensures
        r matches Ok((w, h, p)) ==> p@.len() >= w * h * 4,
{
    match image::load_from_memory(bytes) {
        Ok(img) => {
            let rgba = img.into_rgba8();
            let (w, h) = rgba.dimensions();
            Ok((w, h, rgba.into_raw()))
        },
        Err(e) => Err(e),
    }
}

} // verus!
