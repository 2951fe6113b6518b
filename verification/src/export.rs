//! Encoding the final image for export.

use vstd::prelude::*;
use image::ImageEncoder;

verus! {

/// Name for the PNG file the `image` crate's `PngEncoder` writes for an
/// RGBA8 image of the given size and pixels (default compression and
/// filter); `None` when it refuses the image.
pub uninterp spec fn png_encoded(width: u32, height: u32, rgba: Seq<u8>) -> Option<Seq<u8>>;

/// `PngEncoder::write_image` of RGBA8 pixels into a byte vector. The encoder
/// asserts that the buffer holds exactly `width * height` pixels, so other
/// lengths are left out. Claims only that the result is `png_encoded` of the
/// arguments.
#[verifier::external_body]
fn encode_png_rgba(width: u32, height: u32, rgba: &[u8]) -> (r: Option<Vec<u8>>)
    requires
        rgba@.len() == width * height * 4,
    ensures
        match r {
            Some(v) => png_encoded(width, height, rgba@) == Some(v@),
            None => png_encoded(width, height, rgba@) is None,
        },
{
    let mut png = Vec::new();
    image::codecs::png::PngEncoder::new(&mut png)
        .write_image(rgba, width, height, image::ExtendedColorType::Rgba8)
        .ok()?;
    Some(png)
}

/// Why an image could not be encoded.
#[derive(Debug, Clone, Copy, PartialEq, Eq, Structural)]
pub enum EncodeError {
    /// The PNG encoder refused the image.
    Refused,
}

/// The PNG file of an RGBA8 image of `width` by `height` pixels, as the
/// clipboard receives it.
pub fn png_bytes(width: u32, height: u32, rgba: &[u8]) -> (r: Result<Vec<u8>, EncodeError>)
    requires
        rgba@.len() == width * height * 4,
    ensures
        match r {
            Ok(v) => png_encoded(width, height, rgba@) == Some(v@),
            Err(e) => e == EncodeError::Refused && png_encoded(width, height, rgba@) is None,
        },
{
    match encode_png_rgba(width, height, rgba) {
        Some(v) => Ok(v),
        None => Err(EncodeError::Refused),
    }
}

} // verus!
