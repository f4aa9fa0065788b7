//! What the clipboard side computes between reading the OS clipboard and writing
//! to it: images for the clipboard, detection of a changed image, and the file
//! name of a dropped file.

use vstd::prelude::*;
use crate::bitmap::{bmp_file, dib_to_bmp};
use crate::image_codec::{
    decode_image, decoded_rgba, encode_png, hash_pixels, pixel_hash, png_encoding,
};

verus! {

/// An image as the OS clipboard exchanges it: RGBA pixels, 8 bits per channel.
pub struct ClipboardImage {
    pub width: usize,
    pub height: usize,
    pub bytes: Vec<u8>,
}

/// The PNG file for RGBA pixels: `None` when the buffer does not hold exactly
/// the image's pixels or the encoder fails.
pub open spec fn png_of(width: u32, height: u32, rgba: Seq<u8>) -> Option<Seq<u8>> {
    if rgba.len() == 4 * width * height {
        png_encoding(width, height, rgba)
    } else {
        None
    }
}

/// A changed image to send: its hash and PNG file, when a PNG could be made and
/// the hash differs from the last one sent.
pub open spec fn change_of(hash: u64, png: Option<Seq<u8>>, last_hash: u64) -> Option<(u64, Seq<u8>)> {
    match png {
        Some(p) => if hash != last_hash {
            Some((hash, p))
        } else {
            None
        },
        None => None,
    }
}

/// Hash and PNG of an image given as compressed bytes of any decodable format.
pub open spec fn hashed_png_of_file(bytes: Seq<u8>) -> Option<(u64, Seq<u8>)> {
    match decoded_rgba(bytes) {
        Some((w, h, px)) => match png_of(w, h, px) {
            Some(p) => Some((pixel_hash(px), p)),
            None => None,
        },
        None => None,
    }
}

/// Hash and PNG of the image in clipboard DIB data.
pub open spec fn dib_image_of(dib: Seq<u8>) -> Option<(u64, Seq<u8>)> {
    if dib.len() < 4 {
        None
    } else {
        hashed_png_of_file(bmp_file(dib))
    }
}

/// The mathematical value of an optional hash and file.
pub open spec fn hashed_view(r: Option<(u64, Vec<u8>)>) -> Option<(u64, Seq<u8>)> {
    match r {
        Some((h, b)) => Some((h, b@)),
        None => None,
    }
}

/// Decodes compressed image bytes (as the phone sends them) into an image for the
/// OS clipboard; the decoder's error where it fails.
pub fn image_for_clipboard(compressed: &[u8]) -> (r: Result<ClipboardImage, image::ImageError>)
    ensures
        r is Ok <==> decoded_rgba(compressed@) is Some,
        r matches Ok(img) ==> (decoded_rgba(compressed@) matches Some((w, h, px)) && img.width
            == w as usize && img.height == h as usize && img.bytes@ == px),
        r matches Ok(img) ==> img.bytes@.len() == 4 * img.width * img.height,
{
    match decode_image(compressed) {
        Ok(p) => {
            let img = ClipboardImage { width: p.width as usize, height: p.height as usize, bytes: p.data };
            Ok(img)
        },
        Err(e) => Err(e),
    }
}

/// Hash that identifies the pixels of a clipboard image.
pub fn clipboard_image_hash(image: &ClipboardImage) -> (h: u64)
    ensures
        h == pixel_hash(image.bytes@),
{
    hash_pixels(image.bytes.as_slice())
}

fn hashed_png(width: u32, height: u32, rgba: Vec<u8>) -> (r: Option<(u64, Vec<u8>)>)
    requires
        rgba@.len() <= 4 * width * height,
    ensures
        hashed_view(r) == (match png_of(width, height, rgba@) {
            Some(p) => Some((pixel_hash(rgba@), p)),
            None => None,
        }),
{
    let hash = hash_pixels(rgba.as_slice());
    let w = width as u128;
    let h = height as u128;
    assert(4 * w * h <= 4 * 0xFFFF_FFFFu128 * 0xFFFF_FFFFu128) by (nonlinear_arith)
        requires
            w <= 0xFFFF_FFFF,
            h <= 0xFFFF_FFFF,
    ;
    let expected: u128 = 4 * w * h;
    if (rgba.len() as u128) < expected {
        return None;
    }
    match encode_png(width, height, rgba) {
        Some(png) => Some((hash, png)),
        None => None,
    }
}

/// The clipboard image to send, if it differs from the last one sent: its hash
/// and PNG file. Sizes are taken modulo 2^32, as the PNG encoder takes them; a
/// pixel buffer shorter than the image gives `None`. (The encoder panics on a
/// longer one, which is left out.)
pub fn image_change(image: ClipboardImage, last_hash: u64) -> (r: Option<(u64, Vec<u8>)>)
    requires
        image.bytes@.len() <= 4 * (image.width as u32) * (image.height as u32),
    ensures
        hashed_view(r) == change_of(
            pixel_hash(image.bytes@),
            png_of(image.width as u32, image.height as u32, image.bytes@),
            last_hash,
        ),
{
    let w = image.width as u32;
    let h = image.height as u32;
    match hashed_png(w, h, image.bytes) {
        Some((hash, png)) => if hash != last_hash {
            Some((hash, png))
        } else {
            None
        },
        None => None,
    }
}

fn file_hashed_png(bytes: &[u8]) -> (r: Option<(u64, Vec<u8>)>)
    ensures
        hashed_view(r) == hashed_png_of_file(bytes@),
{
    match decode_image(bytes) {
        Ok(p) => hashed_png(p.width, p.height, p.data),
        Err(_) => None,
    }
}

/// Hash and PNG file of the image in clipboard DIB data (a bitmap info header,
/// palette and pixels), read through a BMP file built around it.
pub fn dib_image(dib: &[u8]) -> (r: Option<(u64, Vec<u8>)>)
    ensures
        hashed_view(r) == dib_image_of(dib@),
{
    match dib_to_bmp(dib) {
        Some(bmp) => file_hashed_png(bmp.as_slice()),
        None => None,
    }
}

/// Hash of the pixels of the image in clipboard DIB data, without encoding a PNG.
pub open spec fn dib_pixel_hash(dib: Seq<u8>) -> Option<u64> {
    if dib.len() < 4 {
        None
    } else {
        match decoded_rgba(bmp_file(dib)) {
            Some((_, _, px)) => Some(pixel_hash(px)),
            None => None,
        }
    }
}

/// Hash of the image in clipboard DIB data, taken from its decoded pixels
/// without PNG compression; `None` when the data does not decode.
pub fn dib_hash(dib: &[u8]) -> (h: Option<u64>)
    ensures
        h == dib_pixel_hash(dib@),
{
    match dib_to_bmp(dib) {
        Some(bmp) => match decode_image(bmp.as_slice()) {
            Ok(p) => Some(hash_pixels(p.data.as_slice())),
            Err(_) => None,
        },
        None => None,
    }
}

/// The image in clipboard DIB data, if it differs from the last one sent.
pub fn dib_image_change(dib: &[u8], last_hash: u64) -> (r: Option<(u64, Vec<u8>)>)
    ensures
        hashed_view(r) == (match dib_image_of(dib@) {
            Some((hash, p)) => if hash != last_hash {
                Some((hash, p))
            } else {
                None
            },
            None => None,
        }),
{
    match dib_image(dib) {
        Some((hash, png)) => if hash != last_hash {
            Some((hash, png))
        } else {
            None
        },
        None => None,
    }
}

/// The image in a file dropped on the clipboard (its bytes), if it decodes and
/// differs from the last one sent: its hash and PNG file.
pub fn file_image_change(file: &[u8], last_hash: u64) -> (r: Option<(u64, Vec<u8>)>)
    ensures
        hashed_view(r) == (match decoded_rgba(file@) {
            Some((w, h, px)) => change_of(pixel_hash(px), png_of(w, h, px), last_hash),
            None => None,
        }),
{
    match decode_image(file) {
        Ok(p) => {
            let hash = hash_pixels(p.data.as_slice());
            if hash != last_hash {
                hashed_png(p.width, p.height, p.data)
            } else {
                None
            }
        },
        Err(_) => None,
    }
}

/// Hash of the image in a dropped file, as the change check against hash 0
/// reports it (so an image whose hash is 0 gives `None`).
pub fn file_image_hash(file: &[u8]) -> (h: Option<u64>)
    ensures
        h == (match decoded_rgba(file@) {
            Some((w, hh, px)) => match change_of(pixel_hash(px), png_of(w, hh, px), 0) {
                Some((hash, _)) => Some(hash),
                None => None::<u64>,
            },
            None => None::<u64>,
        }),
{
    match file_image_change(file, 0) {
        Some((hash, _)) => Some(hash),
        None => None,
    }
}

/// UTF-16 units with the trailing NUL units removed.
pub open spec fn without_trailing_nuls(units: Seq<u16>) -> Seq<u16>
    decreases units.len(),
{
    if units.len() > 0 && units.last() == 0 {
        without_trailing_nuls(units.drop_last())
    } else {
        units
    }
}

/// The path of a dropped file from the UTF-16 buffer that the shell filled: the
/// first `copied` units, without trailing NULs.
pub fn dropped_file_units(buf: &[u16], copied: usize) -> (path: Vec<u16>)
    requires
        copied <= buf@.len(),
    ensures
        path@ == without_trailing_nuls(buf@.subrange(0, copied as int)),
{
    let mut end: usize = copied;
    while end > 0 && buf[end - 1] == 0
        invariant
            end <= copied <= buf@.len(),
            without_trailing_nuls(buf@.subrange(0, copied as int)) == without_trailing_nuls(
                buf@.subrange(0, end as int),
            ),
        decreases end,
    {
        assert(buf@.subrange(0, end as int).drop_last() =~= buf@.subrange(0, end - 1));
        end = end - 1;
    }
    let mut path: Vec<u16> = Vec::new();
    let mut i: usize = 0;
    while i < end
        invariant
            i <= end <= buf@.len(),
            path@ == buf@.subrange(0, i as int),
        decreases end - i,
    {
        path.push(buf[i]);
        i = i + 1;
        assert(buf@.subrange(0, i as int) =~= buf@.subrange(0, i - 1) + seq![buf@[i - 1]]);
    }
    path
}


/// An image whose hash was recorded as sent is not reported as changed again,
/// from the clipboard, from a DIB or from a dropped file.
pub proof fn lemma_sent_image_not_resent(pixels: Seq<u8>, width: u32, height: u32)
    ensures
        change_of(pixel_hash(pixels), png_of(width, height, pixels), pixel_hash(pixels)) is None,
{
}

/// Any image reported as changed differs, by hash, from the last one sent.
pub proof fn lemma_change_differs_from_last(hash: u64, png: Option<Seq<u8>>, last_hash: u64)
    ensures
        change_of(hash, png, last_hash) matches Some((h, _)) ==> h == hash && h != last_hash,
        change_of(hash, png, last_hash) is Some <==> (png is Some && hash != last_hash),
{
}

} // verus!
