use btclip::clipboard::{
    clipboard_image_hash, dib_hash, dib_image, dib_image_change, dropped_file_units,
    file_image_change, file_image_hash, image_change, image_for_clipboard, ClipboardImage,
};

const PNG_SIGNATURE: [u8; 8] = [0x89, b'P', b'N', b'G', 0x0D, 0x0A, 0x1A, 0x0A];

fn red_green() -> ClipboardImage {
    ClipboardImage { width: 2, height: 1, bytes: vec![255, 0, 0, 255, 0, 255, 0, 255] }
}

/// A 2x1 24-bit bottom-up DIB: red, green.
fn red_green_dib() -> Vec<u8> {
    let mut d = vec![0u8; 40];
    d[0..4].copy_from_slice(&40u32.to_le_bytes());
    d[4..8].copy_from_slice(&2i32.to_le_bytes());
    d[8..12].copy_from_slice(&1i32.to_le_bytes());
    d[12..14].copy_from_slice(&1u16.to_le_bytes());
    d[14..16].copy_from_slice(&24u16.to_le_bytes());
    d.extend_from_slice(&[0, 0, 255, 0, 255, 0, 0, 0]);
    d
}

#[test]
fn image_change_encodes_png_and_round_trips() {
    let (hash, png) = image_change(red_green(), 0x1234).unwrap();
    assert_eq!(&png[..8], &PNG_SIGNATURE);
    assert_eq!(hash, clipboard_image_hash(&red_green()));
    let back = image_for_clipboard(&png).unwrap();
    assert_eq!((back.width, back.height), (2, 1));
    assert_eq!(back.bytes, red_green().bytes);
}

#[test]
fn unchanged_image_is_not_reported() {
    let h = clipboard_image_hash(&red_green());
    assert_eq!(image_change(red_green(), h), None);
}

#[test]
fn different_pixels_hash_differently() {
    let other = ClipboardImage { width: 2, height: 1, bytes: vec![0, 0, 255, 255, 0, 255, 0, 255] };
    assert_ne!(clipboard_image_hash(&red_green()), clipboard_image_hash(&other));
    assert_eq!(clipboard_image_hash(&red_green()), clipboard_image_hash(&red_green()));
}

#[test]
fn short_pixel_buffer_gives_nothing() {
    let img = ClipboardImage { width: 4, height: 4, bytes: vec![0; 10] };
    assert_eq!(image_change(img, 0), None);
}

#[test]
fn undecodable_bytes_are_an_error() {
    assert!(image_for_clipboard(b"not an image").is_err());
    assert!(image_for_clipboard(&[]).is_err());
}

#[test]
fn dib_is_read_through_bmp() {
    let dib = red_green_dib();
    let (hash, png) = dib_image(&dib).unwrap();
    assert_eq!(hash, clipboard_image_hash(&red_green()));
    assert_eq!(image_for_clipboard(&png).unwrap().bytes, red_green().bytes);
    assert_eq!(dib_hash(&dib), Some(hash));
    assert_eq!(dib_image_change(&dib, hash), None);
    assert_eq!(dib_image_change(&dib, hash.wrapping_add(1)).map(|(h, _)| h), Some(hash));
}

#[test]
fn broken_dib_gives_nothing() {
    assert_eq!(dib_image(&[1, 2]), None);
    assert_eq!(dib_image(&[40, 0, 0, 0, 9, 9]), None);
    assert_eq!(dib_hash(&[]), None);
}

#[test]
fn dropped_file_image() {
    let (hash, png) = image_change(red_green(), 0).unwrap();
    let (h2, png2) = file_image_change(&png, 0).unwrap();
    assert_eq!(h2, hash);
    assert_eq!(&png2[..8], &PNG_SIGNATURE);
    assert_eq!(file_image_change(&png, hash), None);
    assert_eq!(file_image_hash(&png), Some(hash));
    assert_eq!(file_image_change(b"plain text file", 0), None);
    assert_eq!(file_image_hash(b"plain text file"), None);
}

#[test]
fn dropped_file_name_trimming() {
    let buf = [b'a' as u16, b'b' as u16, 0, 0, 0];
    assert_eq!(dropped_file_units(&buf, 5), vec![b'a' as u16, b'b' as u16]);
    assert_eq!(dropped_file_units(&buf, 2), vec![b'a' as u16, b'b' as u16]);
    assert_eq!(dropped_file_units(&buf, 1), vec![b'a' as u16]);
    assert_eq!(dropped_file_units(&[0, 0], 2), Vec::<u16>::new());
    let inner = [b'x' as u16, 0, b'y' as u16, 0];
    assert_eq!(dropped_file_units(&inner, 4), vec![b'x' as u16, 0, b'y' as u16]);
}

#[test]
fn decoded_image_has_exact_size() {
    let (_, png) = image_change(red_green(), 0).unwrap();
    let img = image_for_clipboard(&png).unwrap();
    assert_eq!(img.width, 2);
    assert_eq!(img.height, 1);
    assert_eq!(img.bytes.len(), 4 * img.width * img.height);
}

#[test]
fn dib_hash_is_the_pixel_hash() {
    let dib = red_green_dib();
    assert_eq!(dib_hash(&dib), Some(clipboard_image_hash(&red_green())));
    assert_eq!(dib_hash(&[40, 0, 0, 0, 1]), None);
}
