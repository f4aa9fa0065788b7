//! The calls into the `image` crate and the pixel hash that image change
//! detection rests on. Each item here is trusted: its contract is believed, not
//! proved.

use vstd::prelude::*;

verus! {

/// The `image` crate's error type, carried through to callers unchanged.
#[verifier::external_type_specification]
#[verifier::external_body]
pub struct ExImageError(image::ImageError);

/// An RGBA image with 8 bits per channel, pixels row by row.
pub struct RgbaPixels {
    pub width: u32,
    pub height: u32,
    pub data: Vec<u8>,
}

/// Width, height and RGBA pixel bytes of the image that the `image` crate decodes
/// from the given bytes (any format it recognises), or `None` where it fails.
pub uninterp spec fn decoded_rgba(bytes: Seq<u8>) -> Option<(u32, u32, Seq<u8>)>;

/// The PNG file that the `image` crate writes for an RGBA image of the given size
/// and exactly that many pixel bytes, or `None` where the encoder fails.
pub uninterp spec fn png_encoding(width: u32, height: u32, rgba: Seq<u8>) -> Option<Seq<u8>>;

/// The 64-bit hash that std's `DefaultHasher` (created by `new`, keys fixed)
/// gives for a byte slice.
pub uninterp spec fn pixel_hash(pixels: Seq<u8>) -> u64;

/// Decodes compressed image bytes and converts the result to RGBA.
///
/// Calls `image::load_from_memory`, then `DynamicImage::into_rgba8`,
/// `ImageBuffer::dimensions` and `ImageBuffer::into_raw` to take the result
/// apart. Claimed: the call succeeds exactly where `decoded_rgba` is `Some`, and
/// then yields those values, with exactly `4 * width * height` pixel bytes (the
/// decoder allocates `total_bytes`, and a conversion builds a new buffer of the
/// image's size). Which inputs decode is left to the crate.
#[verifier::external_body]
pub(crate) fn decode_image(bytes: &[u8]) -> (r: Result<RgbaPixels, image::ImageError>)
    ensures
        r is Ok <==> decoded_rgba(bytes@) is Some,
        r matches Ok(p) ==> decoded_rgba(bytes@) == Some((p.width, p.height, p.data@)),
        r matches Ok(p) ==> p.data@.len() == 4 * p.width * p.height,
{
    match image::load_from_memory(bytes) {
        Ok(img) => {
            let rgba = img.into_rgba8();
            let (width, height) = rgba.dimensions();
            Ok(RgbaPixels { width, height, data: rgba.into_raw() })
        },
        Err(e) => Err(e),
    }
}

/// Encodes RGBA pixels as a PNG file.
///
/// `ImageBuffer::from_raw` turns the pixels into an `RgbaImage`, and
/// `DynamicImage::write_to` with `ImageFormat::Png` writes the file into memory.
/// The PNG encoder asserts that the buffer holds exactly `4 * width * height`
/// bytes, so callers must pass exactly that many. Claimed: the result is
/// `png_encoding` of the arguments; where the encoder fails is left to the crate.
#[verifier::external_body]
pub(crate) fn encode_png(width: u32, height: u32, rgba: Vec<u8>) -> (png: Option<Vec<u8>>)
    requires
        rgba@.len() == 4 * width * height,
    ensures
        png is Some <==> png_encoding(width, height, rgba@) is Some,
        png matches Some(b) ==> png_encoding(width, height, rgba@) == Some(b@),
{
    let img = match image::RgbaImage::from_raw(width, height, rgba) {
        Some(img) => img,
        None => return None,
    };
    let mut out: Vec<u8> = Vec::new();
    match image::DynamicImage::ImageRgba8(img).write_to(
        &mut std::io::Cursor::new(&mut out),
        image::ImageFormat::Png,
    ) {
        Ok(()) => Some(out),
        Err(_) => None,
    }
}

/// Hashes pixel bytes with std's `DefaultHasher`.
///
/// Calls `BuildHasher::hash_one` on a `BuildHasherDefault<DefaultHasher>`, which
/// std documents as hashing with a fresh `DefaultHasher::new()` and returning
/// `finish()`. Claimed: the result is `pixel_hash` of the bytes. Which value that
/// is, std leaves unspecified (it may differ between Rust releases).
#[verifier::external_body]
pub(crate) fn hash_pixels(pixels: &[u8]) -> (h: u64)
    ensures
        h == pixel_hash(pixels@),
{
    std::hash::BuildHasher::hash_one(
        &std::hash::BuildHasherDefault::<std::hash::DefaultHasher>::default(),
        pixels,
    )
}

} // verus!
