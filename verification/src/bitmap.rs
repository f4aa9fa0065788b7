//! Turning the device-independent bitmap (DIB) that the Windows clipboard holds
//! into a complete BMP file that an image decoder reads.

use vstd::prelude::*;

verus! {

/// Size of the BMP file header that precedes the DIB.
pub const FILE_HEADER_LEN: usize = 14;

/// Unsigned little-endian value of the 4 bytes of `s` at `at`.
pub open spec fn le_u32_at(s: Seq<u8>, at: int) -> int {
    s[at] + s[at + 1] * 0x100int + s[at + 2] * 0x1_0000int + s[at + 3] * 0x100_0000int
}

/// Unsigned little-endian value of the 2 bytes of `s` at `at`.
pub open spec fn le_u16_at(s: Seq<u8>, at: int) -> int {
    s[at] + s[at + 1] * 0x100int
}

/// Little-endian bytes of `x` taken modulo 2^32.
pub open spec fn le_bytes_mod32(x: int) -> Seq<u8> {
    seq![
        (x % 0x100) as u8,
        ((x / 0x100) % 0x100) as u8,
        ((x / 0x1_0000) % 0x100) as u8,
        ((x / 0x100_0000) % 0x100) as u8,
    ]
}

/// Colours in the palette of a DIB whose info header has at least 40 bytes: the
/// `biClrUsed` field, or, when that is 0, `2^biBitCount` for at most 8 bits per
/// pixel, else none.
pub open spec fn palette_colors(dib: Seq<u8>) -> int {
    let colors_used = le_u32_at(dib, 32);
    let bit_count = le_u16_at(dib, 14);
    if colors_used != 0 {
        colors_used
    } else if bit_count <= 8 {
        (1u32 << (bit_count as u32)) as int
    } else {
        0
    }
}

/// Bytes of palette between the info header and the pixels: 4 per colour when
/// the header size and the data both reach 40 bytes, else none.
pub open spec fn palette_len(dib: Seq<u8>) -> int {
    if le_u32_at(dib, 0) >= 40 && dib.len() >= 40 {
        4 * palette_colors(dib)
    } else {
        0
    }
}

/// Offset of the pixel array from the start of the BMP file.
pub open spec fn pixel_offset(dib: Seq<u8>) -> int {
    FILE_HEADER_LEN + le_u32_at(dib, 0) + palette_len(dib)
}

/// The BMP file for a DIB: `"BM"`, the file size, two reserved zero words and
/// the pixel offset (each little-endian, modulo 2^32), then the DIB itself.
pub open spec fn bmp_file(dib: Seq<u8>) -> Seq<u8> {
    seq![0x42u8, 0x4Du8] + le_bytes_mod32(FILE_HEADER_LEN + dib.len()) + seq![0u8, 0u8, 0u8, 0u8]
        + le_bytes_mod32(pixel_offset(dib)) + dib
}

fn read_le_u32(s: &[u8], at: usize) -> (v: u32)
    requires
        at + 4 <= s@.len(),
    ensures
        v == le_u32_at(s@, at as int),
{
    (s[at] as u32) + (s[at + 1] as u32) * 0x100 + (s[at + 2] as u32) * 0x1_0000 + (s[at + 3] as u32)
        * 0x100_0000
}

fn read_le_u16(s: &[u8], at: usize) -> (v: u16)
    requires
        at + 2 <= s@.len(),
    ensures
        v == le_u16_at(s@, at as int),
{
    (s[at] as u16) + (s[at + 1] as u16) * 0x100
}

/// Appends the little-endian bytes of `x` modulo 2^32.
fn push_le_u32(out: &mut Vec<u8>, x: u128)
    ensures
        final(out)@ == old(out)@ + le_bytes_mod32(x as int),
{
    out.push((x % 0x100) as u8);
    out.push(((x / 0x100) % 0x100) as u8);
    out.push(((x / 0x1_0000) % 0x100) as u8);
    out.push(((x / 0x100_0000) % 0x100) as u8);
    assert(final(out)@ =~= old(out)@ + le_bytes_mod32(x as int));
}

/// Frames clipboard DIB data as a BMP file. `None` when the data is too short to
/// hold the size of its info header (fewer than 4 bytes).
/// Offsets are computed without overflow, as on a 64-bit host.
pub fn dib_to_bmp(dib: &[u8]) -> (bmp: Option<Vec<u8>>)
    ensures
        dib@.len() < 4 ==> bmp is None,
        dib@.len() >= 4 ==> (bmp matches Some(b) && b@ == bmp_file(dib@)),
        bmp matches Some(b) ==> b@.len() == dib@.len() + FILE_HEADER_LEN && b@.subrange(2, 6)
            == le_bytes_mod32(b@.len() as int) && b@.subrange(FILE_HEADER_LEN as int, b@.len() as int)
            == dib@,
{
    if dib.len() < 4 {
        return None;
    }
    let header_size = read_le_u32(dib, 0);
    let palette_bytes: u64 = if header_size >= 40 && dib.len() >= 40 {
        let bit_count = read_le_u16(dib, 14);
        let colors_used = read_le_u32(dib, 32);
        let num_colors: u32 = if colors_used != 0 {
            colors_used
        } else if bit_count <= 8 {
            1u32 << bit_count
        } else {
            0
        };
        (num_colors as u64) * 4
    } else {
        0
    };
    let bmp_offset: u128 = 14 + header_size as u128 + palette_bytes as u128;
    let file_size: u128 = 14 + dib.len() as u128;
    let mut bmp: Vec<u8> = Vec::new();
    bmp.push(0x42);
    bmp.push(0x4D);
    push_le_u32(&mut bmp, file_size);
    bmp.push(0);
    bmp.push(0);
    bmp.push(0);
    bmp.push(0);
    push_le_u32(&mut bmp, bmp_offset);
    let mut i: usize = 0;
    let ghost head = bmp@;
    while i < dib.len()
        invariant
            i <= dib@.len(),
            bmp@ == head + dib@.subrange(0, i as int),
        decreases dib@.len() - i,
    {
        bmp.push(dib[i]);
        i = i + 1;
        assert(dib@.subrange(0, i as int) =~= dib@.subrange(0, i - 1) + seq![dib@[i - 1]]);
    }
    assert(dib@.subrange(0, dib@.len() as int) =~= dib@);
    assert(bmp@ =~= bmp_file(dib@));
    proof {
        lemma_bmp_wraps_dib(dib@);
        lemma_bmp_size_field(dib@);
    }
    Some(bmp)
}

/// A BMP built from a DIB is 14 bytes longer, starts with `"BM"` and ends with
/// the DIB unchanged.
pub proof fn lemma_bmp_wraps_dib(dib: Seq<u8>)
    ensures
        bmp_file(dib).len() == dib.len() + FILE_HEADER_LEN,
        bmp_file(dib)[0] == 0x42 && bmp_file(dib)[1] == 0x4D,
        bmp_file(dib).subrange(FILE_HEADER_LEN as int, bmp_file(dib).len() as int) == dib,
{
    assert(bmp_file(dib).subrange(14, bmp_file(dib).len() as int) =~= dib);
}


/// The size field of a BMP built from a DIB (bytes 2 to 5) is the length of the
/// whole file, header and DIB together, modulo 2^32; the reserved words are zero.
pub proof fn lemma_bmp_size_field(dib: Seq<u8>)
    ensures
        bmp_file(dib).subrange(2, 6) == le_bytes_mod32(bmp_file(dib).len() as int),
        bmp_file(dib).subrange(6, 10) == seq![0u8, 0u8, 0u8, 0u8],
{
    assert(bmp_file(dib).len() == dib.len() + 14);
    assert(bmp_file(dib).subrange(2, 6) =~= le_bytes_mod32(bmp_file(dib).len() as int));
    assert(bmp_file(dib).subrange(6, 10) =~= seq![0u8, 0u8, 0u8, 0u8]);
}


/// Reading four little-endian bytes written for `x` gives `x` modulo 2^32.
pub proof fn lemma_le_bytes_read_back(x: int)
    requires
        x >= 0,
    ensures
        le_bytes_mod32(x).len() == 4,
        le_u32_at(le_bytes_mod32(x), 0) == x % 0x1_0000_0000,
{
    let b0 = x % 0x100;
    let b1 = (x / 0x100) % 0x100;
    let b2 = (x / 0x1_0000) % 0x100;
    let b3 = (x / 0x100_0000) % 0x100;
    assert(b0 + b1 * 0x100 + b2 * 0x1_0000 + b3 * 0x100_0000 == x % 0x1_0000_0000) by (nonlinear_arith)
        requires
            x >= 0,
            b0 == x % 0x100,
            b1 == (x / 0x100) % 0x100,
            b2 == (x / 0x1_0000) % 0x100,
            b3 == (x / 0x100_0000) % 0x100,
    ;
}

/// The pixel offset field (bytes 10 to 13) of a BMP built from a DIB points past
/// the 14-byte file header, the info header (its size in the DIB's first four
/// bytes) and the palette: for a full info header (40 bytes or more, and at
/// least 40 bytes of data) 4 bytes per colour, the colour count being `biClrUsed`
/// (bytes 32 to 35) when non-zero, else 2^`biBitCount` (bytes 14 and 15) for at
/// most 8 bits per pixel and none above; no palette otherwise.
pub proof fn lemma_bmp_pixel_offset(dib: Seq<u8>)
    requires
        dib.len() >= 4,
    ensures
        le_u32_at(bmp_file(dib), 10) == pixel_offset(dib) % 0x1_0000_0000,
        pixel_offset(dib) == 14 + le_u32_at(dib, 0) + palette_len(dib),
        !(le_u32_at(dib, 0) >= 40 && dib.len() >= 40) ==> palette_len(dib) == 0,
        (le_u32_at(dib, 0) >= 40 && dib.len() >= 40 && le_u32_at(dib, 32) != 0) ==> palette_len(dib)
            == 4 * le_u32_at(dib, 32),
        (le_u32_at(dib, 0) >= 40 && dib.len() >= 40 && le_u32_at(dib, 32) == 0 && le_u16_at(dib, 14)
            <= 8) ==> palette_len(dib) == 4 * vstd::arithmetic::power2::pow2(le_u16_at(dib, 14) as nat),
        (le_u32_at(dib, 0) >= 40 && dib.len() >= 40 && le_u32_at(dib, 32) == 0 && le_u16_at(dib, 14)
            > 8) ==> palette_len(dib) == 0,
{
    let f = bmp_file(dib);
    assert(0 <= le_u32_at(dib, 0)) by (nonlinear_arith)
        requires
            0 <= dib[0] < 256,
            0 <= dib[1] < 256,
            0 <= dib[2] < 256,
            0 <= dib[3] < 256,
    ;
    if le_u32_at(dib, 0) >= 40 && dib.len() >= 40 {
        assert(0 <= le_u16_at(dib, 14) < 0x1_0000) by (nonlinear_arith)
            requires
                0 <= dib[14] < 256,
                0 <= dib[15] < 256,
        ;
        assert(0 <= le_u32_at(dib, 32)) by (nonlinear_arith)
            requires
                0 <= dib[32] < 256,
                0 <= dib[33] < 256,
                0 <= dib[34] < 256,
                0 <= dib[35] < 256,
        ;
        let b = le_u16_at(dib, 14);
        if le_u32_at(dib, 32) == 0 && b <= 8 {
            let bb = b as u32;
            vstd::arithmetic::power2::lemma2_to64();
            vstd::arithmetic::power2::lemma_pow2_strictly_increases(bb as nat, 32);
            vstd::bits::lemma_u32_shl_is_mul(1u32, bb);
        }
    }
    assert(pixel_offset(dib) >= 0);
    lemma_le_bytes_read_back(pixel_offset(dib));
    assert(f.subrange(10, 14) =~= le_bytes_mod32(pixel_offset(dib)));
    assert(le_u32_at(f, 10) == le_u32_at(f.subrange(10, 14), 0));
}

} // verus!
