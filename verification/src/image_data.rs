//! Decoded raster images in RGBA format.
use vstd::prelude::*;

verus! {

#[verifier::external_type_specification]
#[verifier::external_body]
pub struct ExImageError(image::ImageError);

/// What decoding `bytes` as a PNG or JPEG image and converting it to 8-bit
/// RGBA yields: the pixels, the width and the height; `None` when the bytes
/// are not an image the decoder accepts.
pub uninterp spec fn decoded_rgba8(bytes: Seq<u8>) -> Option<(Seq<u8>, u32, u32)>;

/// Decodes `bytes` and converts the image to RGBA, 4 bytes per pixel.
///
/// Trusted: `image::load_from_memory` followed by `DynamicImage::to_rgba8`,
/// `ImageBuffer::width`, `height` and `into_raw`. Claims that the outcome
/// is determined by the bytes (success and the returned pixels and size
/// are `decoded_rgba8(bytes)`), and that the pixels are exactly 4 bytes for
/// each of the `width * height` pixels: the decoders fill a buffer of that
/// size, and the conversion to RGBA makes one of 4 bytes per pixel.
#[verifier::external_body]
fn decode_rgba8(bytes: &[u8]) -> (r: Result<(Vec<u8>, u32, u32), image::ImageError>)
    ensures
        match r {
            Ok((pixels, w, h)) => decoded_rgba8(bytes@) == Some((pixels@, w, h))
                && pixels@.len() == w as int * h as int * 4,
            Err(_) => decoded_rgba8(bytes@) is None,
        },
{
    let img = image::load_from_memory(bytes)?;
    let rgba = img.to_rgba8();
    let (w, h) = (rgba.width(), rgba.height());
    Ok((rgba.into_raw(), w, h))
}

/// Decoded raster image data in RGBA format.
pub struct ImageData {
    /// RGBA pixel data, 4 bytes per pixel.
    pub pixels: Vec<u8>,
    /// Image width in pixels.
    pub width: u32,
    /// Image height in pixels.
    pub height: u32,
}

impl ImageData {
    /// Decodes a raster image (PNG, JPEG) from raw bytes.
    pub fn from_bytes(bytes: &[u8]) -> (r: Result<ImageData, image::ImageError>)
        ensures
            match r {
                Ok(img) => decoded_rgba8(bytes@) == Some((img.pixels@, img.width, img.height))
                    && img.pixels@.len() == img.width as int * img.height as int * 4,
                Err(_) => decoded_rgba8(bytes@) is None,
            },
    {
        match decode_rgba8(bytes) {
            Ok((pixels, width, height)) => Ok(ImageData { pixels, width, height }),
            Err(e) => Err(e),
        }
    }

    /// Creates an `ImageData` from pre-decoded RGBA pixels, which must hold
    /// exactly `width * height * 4` bytes.
    pub fn from_raw(pixels: Vec<u8>, width: u32, height: u32) -> (img: ImageData)
        requires
            pixels@.len() == width as int * height as int * 4,
        ensures
            img.pixels@ == pixels@,
            img.width == width,
            img.height == height,
    {
        ImageData { pixels, width, height }
    }
}

} // verus!
