use btclip::bitmap::{dib_to_bmp, FILE_HEADER_LEN};

fn info_header(size: u32, bit_count: u16, colors_used: u32) -> Vec<u8> {
    let mut h = vec![0u8; 40];
    h[0..4].copy_from_slice(&size.to_le_bytes());
    h[14..16].copy_from_slice(&bit_count.to_le_bytes());
    h[32..36].copy_from_slice(&colors_used.to_le_bytes());
    h
}

#[test]
fn too_short_dib() {
    assert_eq!(dib_to_bmp(&[]), None);
    assert_eq!(dib_to_bmp(&[40, 0, 0]), None);
}

#[test]
fn eight_bit_dib_has_full_palette() {
    let dib = info_header(40, 8, 0);
    let bmp = dib_to_bmp(&dib).unwrap();
    assert_eq!(bmp.len(), dib.len() + FILE_HEADER_LEN);
    assert_eq!(&bmp[0..2], b"BM");
    assert_eq!(u32::from_le_bytes(bmp[2..6].try_into().unwrap()), 54);
    assert_eq!(&bmp[6..10], &[0, 0, 0, 0]);
    // 14 + 40 + 256 * 4
    assert_eq!(u32::from_le_bytes(bmp[10..14].try_into().unwrap()), 1078);
    assert_eq!(&bmp[14..], dib.as_slice());
}

#[test]
fn colors_used_sets_palette() {
    let dib = info_header(40, 8, 16);
    let bmp = dib_to_bmp(&dib).unwrap();
    assert_eq!(u32::from_le_bytes(bmp[10..14].try_into().unwrap()), 14 + 40 + 64);
}

#[test]
fn true_colour_dib_has_no_palette() {
    let dib = info_header(40, 24, 0);
    let bmp = dib_to_bmp(&dib).unwrap();
    assert_eq!(u32::from_le_bytes(bmp[10..14].try_into().unwrap()), 54);
    let v5 = {
        let mut d = info_header(124, 32, 0);
        d.resize(124, 0);
        d
    };
    let bmp = dib_to_bmp(&v5).unwrap();
    assert_eq!(u32::from_le_bytes(bmp[10..14].try_into().unwrap()), 14 + 124);
    assert_eq!(u32::from_le_bytes(bmp[2..6].try_into().unwrap()), 14 + 124);
}

#[test]
fn small_header_has_no_palette() {
    // A 12-byte core header: the palette rule needs at least 40 bytes.
    let dib = vec![12, 0, 0, 0, 1, 0, 1, 0, 1, 0, 1, 0];
    let bmp = dib_to_bmp(&dib).unwrap();
    assert_eq!(u32::from_le_bytes(bmp[10..14].try_into().unwrap()), 26);
    assert_eq!(u32::from_le_bytes(bmp[2..6].try_into().unwrap()), 26);
    assert_eq!(&bmp[14..], dib.as_slice());
}

#[test]
fn one_bit_dib_palette() {
    let dib = info_header(40, 1, 0);
    let bmp = dib_to_bmp(&dib).unwrap();
    assert_eq!(u32::from_le_bytes(bmp[10..14].try_into().unwrap()), 14 + 40 + 8);
}
