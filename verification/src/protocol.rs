//! The frame format spoken over the RFCOMM link:
//! `[1-byte type][4-byte big-endian payload length][payload]`.

use vstd::prelude::*;

verus! {

/// Number of bytes in a frame header: the type byte and the length.
pub const HEADER_LEN: usize = 5;

/// Largest payload that the receiving side accepts (20 MiB).
pub const MAX_PAYLOAD_SIZE: u32 = 20 * 1024 * 1024;

/// Kind of payload carried by a frame.
#[derive(Clone, Copy, Debug, PartialEq, Eq, Structural)]
pub enum FrameType {
    /// UTF-8 text, wire byte `0x01`.
    Text,
    /// Compressed image bytes (PNG or JPEG), wire byte `0x02`.
    Image,
}

/// The wire byte of a frame type.
pub open spec fn type_byte(t: FrameType) -> u8 {
    match t {
        FrameType::Text => 1u8,
        FrameType::Image => 2u8,
    }
}

/// The frame type that a wire byte names, if any.
pub open spec fn type_of_byte(b: u8) -> Option<FrameType> {
    if b == 1 {
        Some(FrameType::Text)
    } else if b == 2 {
        Some(FrameType::Image)
    } else {
        None
    }
}

impl FrameType {
    /// The byte that stands for this type on the wire.
    pub fn to_byte(self) -> (b: u8)
        ensures
            b == type_byte(self),
    {
        match self {
            FrameType::Text => 1,
            FrameType::Image => 2,
        }
    }

    /// The frame type named by a wire byte; `None` for any other byte.
    pub fn from_byte(b: u8) -> (t: Option<FrameType>)
        ensures
            t == type_of_byte(b),
    {
        if b == 1 {
            Some(FrameType::Text)
        } else if b == 2 {
            Some(FrameType::Image)
        } else {
            None
        }
    }
}

/// Big-endian bytes of a 32-bit value.
pub open spec fn be_bytes(x: u32) -> Seq<u8> {
    seq![
        (x / 0x100_0000) as u8,
        ((x / 0x1_0000) % 0x100) as u8,
        ((x / 0x100) % 0x100) as u8,
        (x % 0x100) as u8,
    ]
}

/// The 32-bit value of four big-endian bytes.
pub open spec fn be_value(s: Seq<u8>) -> u32
    recommends
        s.len() == 4,
{
    (s[0] * 0x100_0000int + s[1] * 0x1_0000int + s[2] * 0x100int + s[3]) as u32
}

/// Reading back the big-endian bytes of a value gives the value.
pub proof fn lemma_be_value_of_bytes(x: u32)
    ensures
        be_bytes(x).len() == 4,
        be_value(be_bytes(x)) == x,
{
}

/// Four bytes are the big-endian bytes of their value.
pub proof fn lemma_be_bytes_of_value(s: Seq<u8>)
    requires
        s.len() == 4,
    ensures
        be_bytes(be_value(s)) == s,
{
    let a = s[0] as int;
    let b = s[1] as int;
    let c = s[2] as int;
    let d = s[3] as int;
    let v = a * 0x100_0000 + b * 0x1_0000 + c * 0x100 + d;
    assert(v / 0x100_0000 == a && (v / 0x1_0000) % 0x100 == b && (v / 0x100) % 0x100 == c && v
        % 0x100 == d && 0 <= v < 0x1_0000_0000) by (nonlinear_arith)
        requires
            0 <= a < 256,
            0 <= b < 256,
            0 <= c < 256,
            0 <= d < 256,
            v == a * 0x100_0000 + b * 0x1_0000 + c * 0x100 + d,
    ;
    assert(be_bytes(be_value(s)) =~= s);
}


/// A decoded frame.
#[derive(Debug, PartialEq, Eq)]
pub struct Frame {
    /// What the payload holds.
    pub frame_type: FrameType,
    /// Payload length as carried in the header.
    pub length: u32,
    /// The payload bytes.
    pub payload: Vec<u8>,
}

/// Mathematical content of a frame.
pub struct FrameView {
    pub frame_type: FrameType,
    pub length: u32,
    pub payload: Seq<u8>,
}

impl View for Frame {
    type V = FrameView;

    open spec fn view(&self) -> FrameView {
        FrameView { frame_type: self.frame_type, length: self.length, payload: self.payload@ }
    }
}

/// Why a byte string is not a frame.
#[derive(Clone, Copy, Debug, PartialEq, Eq, Structural)]
pub enum FrameError {
    /// Fewer bytes than a header.
    Truncated,
    /// The type byte names no frame type.
    UnknownType(u8),
    /// The header's length differs from the number of payload bytes that follow it.
    LengthMismatch { declared: u32, actual: usize },
}

/// The bytes of a frame with the given type and payload.
pub open spec fn encoded_frame(t: FrameType, payload: Seq<u8>) -> Seq<u8> {
    seq![type_byte(t)] + be_bytes(payload.len() as u32) + payload
}

/// The payload length that a header (its bytes 1 to 4) declares.
pub open spec fn declared_length(bytes: Seq<u8>) -> u32 {
    be_value(bytes.subrange(1, 5))
}

/// What decoding a byte string gives.
pub open spec fn decoded_frame(bytes: Seq<u8>) -> Result<FrameView, FrameError> {
    if bytes.len() < 5 {
        Err(FrameError::Truncated)
    } else {
        match type_of_byte(bytes[0]) {
            None => Err(FrameError::UnknownType(bytes[0])),
            Some(t) => {
                let declared = declared_length(bytes);
                if bytes.len() - 5 != declared {
                    Err(
                        FrameError::LengthMismatch {
                            declared,
                            actual: (bytes.len() - 5) as usize,
                        },
                    )
                } else {
                    Ok(
                        FrameView {
                            frame_type: t,
                            length: declared,
                            payload: bytes.subrange(5, bytes.len() as int),
                        },
                    )
                }
            },
        }
    }
}

/// Big-endian bytes of `x`.
fn u32_to_be(x: u32) -> (r: [u8; 4])
    ensures
        r@ == be_bytes(x),
{
    let r = [
        (x / 0x100_0000) as u8,
        ((x / 0x1_0000) % 0x100) as u8,
        ((x / 0x100) % 0x100) as u8,
        (x % 0x100) as u8,
    ];
    assert(r@ =~= be_bytes(x));
    r
}

/// Value of the four big-endian bytes of `s` that start at `at`.
fn u32_from_be(s: &[u8], at: usize) -> (v: u32)
    requires
        at + 4 <= s@.len(),
    ensures
        v == be_value(s@.subrange(at as int, at + 4)),
{
    let v = (s[at] as u32) * 0x100_0000 + (s[at + 1] as u32) * 0x1_0000 + (s[at + 2] as u32) * 0x100
        + (s[at + 3] as u32);
    v
}

/// Appends all of `src` to `dst`.
fn push_all(dst: &mut Vec<u8>, src: &[u8])
    ensures
        final(dst)@ == old(dst)@ + src@,
{
    let mut i: usize = 0;
    while i < src.len()
        invariant
            i <= src@.len(),
            dst@ == old(dst)@ + src@.subrange(0, i as int),
        decreases src@.len() - i,
    {
        dst.push(src[i]);
        i = i + 1;
        assert(src@.subrange(0, i as int) =~= src@.subrange(0, i - 1) + seq![src@[i - 1]]);
    }
    assert(src@.subrange(0, src@.len() as int) =~= src@);
}

/// Builds the frame that carries `payload` as `frame_type`.
pub fn encode_frame(frame_type: FrameType, payload: &[u8]) -> (out: Vec<u8>)
    requires
        payload@.len() <= u32::MAX,
    ensures
        out@ == encoded_frame(frame_type, payload@),
{
    let mut out: Vec<u8> = Vec::new();
    out.push(frame_type.to_byte());
    let len_bytes = u32_to_be(payload.len() as u32);
    push_all(&mut out, &len_bytes);
    push_all(&mut out, payload);
    assert(out@ =~= encoded_frame(frame_type, payload@));
    out
}

/// Reads one complete frame: a header whose length equals the number of payload
/// bytes after it. Fewer than five bytes, an unknown type byte or a length that
/// disagrees with the bytes present is an error.
pub fn decode_frame(bytes: &[u8]) -> (res: Result<Frame, FrameError>)
    ensures
        match res {
            Ok(f) => decoded_frame(bytes@) == Ok::<FrameView, FrameError>(f@),
            Err(e) => decoded_frame(bytes@) == Err::<FrameView, FrameError>(e),
        },
{
    if bytes.len() < HEADER_LEN {
        return Err(FrameError::Truncated);
    }
    let frame_type = match FrameType::from_byte(bytes[0]) {
        Some(t) => t,
        None => return Err(FrameError::UnknownType(bytes[0])),
    };
    let declared = u32_from_be(bytes, 1);
    let actual = bytes.len() - HEADER_LEN;
    if actual as u64 != declared as u64 {
        return Err(FrameError::LengthMismatch { declared, actual });
    }
    let mut payload: Vec<u8> = Vec::new();
    push_all(&mut payload, slice_tail(bytes, HEADER_LEN));
    Ok(Frame { frame_type, length: declared, payload })
}

/// The bytes of `s` from `at` on.
fn slice_tail(s: &[u8], at: usize) -> (r: &[u8])
    requires
        at <= s@.len(),
    ensures
        r@ == s@.subrange(at as int, s@.len() as int),
{
    vstd::slice::slice_subrange(s, at, s.len())
}


/// Payload length declared by a received header, if the receiver accepts it;
/// `Err` with the declared length when it exceeds [`MAX_PAYLOAD_SIZE`], upon
/// which the link is dropped.
pub fn accepted_payload_length(header: &[u8]) -> (len: Result<u32, u32>)
    requires
        header@.len() >= HEADER_LEN,
    ensures
        len == (if declared_length(header@) <= MAX_PAYLOAD_SIZE {
            Ok::<u32, u32>(declared_length(header@))
        } else {
            Err::<u32, u32>(declared_length(header@))
        }),
{
    let declared = u32_from_be(header, 1);
    if declared > MAX_PAYLOAD_SIZE {
        Err(declared)
    } else {
        Ok(declared)
    }
}

/// Joins a received header and the payload read after it into one frame buffer.
pub fn assemble_frame(header: &[u8], payload: &[u8]) -> (raw: Vec<u8>)
    ensures
        raw@ == header@ + payload@,
{
    let mut raw: Vec<u8> = Vec::new();
    push_all(&mut raw, header);
    push_all(&mut raw, payload);
    raw
}

/// Decoding an encoded frame gives back its type, its length and its payload.
pub proof fn lemma_decode_encode(t: FrameType, payload: Seq<u8>)
    requires
        payload.len() <= u32::MAX,
    ensures
        decoded_frame(encoded_frame(t, payload)) == Ok::<FrameView, FrameError>(
            FrameView { frame_type: t, length: payload.len() as u32, payload },
        ),
{
    let bytes = encoded_frame(t, payload);
    lemma_be_value_of_bytes(payload.len() as u32);
    assert(bytes.subrange(1, 5) =~= be_bytes(payload.len() as u32));
    assert(bytes.subrange(5, bytes.len() as int) =~= payload);
}

/// A byte string that decodes is the encoding of what it decodes to.
pub proof fn lemma_encode_decode(bytes: Seq<u8>)
    requires
        decoded_frame(bytes) is Ok,
    ensures
        encoded_frame(decoded_frame(bytes)->Ok_0.frame_type, decoded_frame(bytes)->Ok_0.payload)
            == bytes,
        decoded_frame(bytes)->Ok_0.length == decoded_frame(bytes)->Ok_0.payload.len(),
{
    let f = decoded_frame(bytes)->Ok_0;
    lemma_be_bytes_of_value(bytes.subrange(1, 5));
    assert(f.payload.len() == bytes.len() - 5);
    assert(encoded_frame(f.frame_type, f.payload) =~= bytes);
}

/// The header of an encoded frame declares the length of its payload, so a
/// receiver reads exactly the payload back.
pub proof fn lemma_header_declares_payload_length(t: FrameType, payload: Seq<u8>)
    requires
        payload.len() <= u32::MAX,
    ensures
        encoded_frame(t, payload).len() == HEADER_LEN + payload.len(),
        declared_length(encoded_frame(t, payload)) == payload.len(),
        encoded_frame(t, payload).subrange(0, HEADER_LEN as int) + payload == encoded_frame(
            t,
            payload,
        ),
{
    let bytes = encoded_frame(t, payload);
    lemma_be_value_of_bytes(payload.len() as u32);
    assert(bytes.subrange(1, 5) =~= be_bytes(payload.len() as u32));
    assert(bytes.subrange(0, 5) + payload =~= bytes);
}


/// Byte layout of an encoded frame: the type byte (1 for text, 2 for image), the
/// payload length as four big-endian bytes, then the payload.
pub proof fn lemma_frame_layout(t: FrameType, payload: Seq<u8>)
    requires
        payload.len() <= u32::MAX,
    ensures
        encoded_frame(t, payload).len() == payload.len() + 5,
        encoded_frame(t, payload)[0] == (if t == FrameType::Text {
            1u8
        } else {
            2u8
        }),
        encoded_frame(t, payload)[1] * 0x100_0000int + encoded_frame(t, payload)[2] * 0x1_0000int
            + encoded_frame(t, payload)[3] * 0x100int + encoded_frame(t, payload)[4] == payload.len(),
        encoded_frame(t, payload).subrange(5, payload.len() + 5int) == payload,
{
    let f = encoded_frame(t, payload);
    lemma_be_value_of_bytes(payload.len() as u32);
    assert(f.subrange(1, 5) =~= be_bytes(payload.len() as u32));
    assert(f.subrange(5, payload.len() + 5int) =~= payload);
}

/// How a byte string decodes: fewer than five bytes are truncated; a first byte
/// other than 1 or 2 is an unknown type; otherwise it is a frame exactly when the
/// big-endian length in bytes 1 to 4 equals the number of bytes after them, and
/// the frame then holds that type and those bytes.
pub proof fn lemma_decode_outcomes(b: Seq<u8>)
    ensures
        b.len() < 5 <==> decoded_frame(b) == Err::<FrameView, FrameError>(FrameError::Truncated),
        b.len() >= 5 && b[0] != 1 && b[0] != 2 ==> decoded_frame(b) == Err::<FrameView, FrameError>(
            FrameError::UnknownType(b[0]),
        ),
        b.len() >= 5 && (b[0] == 1 || b[0] == 2) ==> (decoded_frame(b) is Ok <==> b.len() - 5 == b[1]
            * 0x100_0000int + b[2] * 0x1_0000int + b[3] * 0x100int + b[4]),
        decoded_frame(b) matches Ok(f) ==> (f.frame_type == (if b[0] == 1 {
            FrameType::Text
        } else {
            FrameType::Image
        }) && f.length == b.len() - 5 && f.payload == b.subrange(5, b.len() as int)),
{
    if b.len() >= 5 {
        let v = b[1] * 0x100_0000int + b[2] * 0x1_0000int + b[3] * 0x100int + b[4];
        assert(0 <= v < 0x1_0000_0000) by (nonlinear_arith)
            requires
                0 <= b[1] < 256,
                0 <= b[2] < 256,
                0 <= b[3] < 256,
                0 <= b[4] < 256,
                v == b[1] * 0x100_0000int + b[2] * 0x1_0000int + b[3] * 0x100int + b[4],
        ;
        assert(declared_length(b) == v);
    }
}

/// A received header is accepted exactly when the big-endian length in its bytes
/// 1 to 4 is at most 20 MiB, and then that length is what is read next.
pub proof fn lemma_accepted_length(header: Seq<u8>)
    requires
        header.len() >= 5,
    ensures
        ({
            let v = header[1] * 0x100_0000int + header[2] * 0x1_0000int + header[3] * 0x100int
                + header[4];
            &&& declared_length(header) == v
            &&& (declared_length(header) <= MAX_PAYLOAD_SIZE <==> v <= 20 * 1024 * 1024)
        }),
{
    let v = header[1] * 0x100_0000int + header[2] * 0x1_0000int + header[3] * 0x100int + header[4];
    assert(0 <= v < 0x1_0000_0000) by (nonlinear_arith)
        requires
            0 <= header[1] < 256,
            0 <= header[2] < 256,
            0 <= header[3] < 256,
            0 <= header[4] < 256,
            v == header[1] * 0x100_0000int + header[2] * 0x1_0000int + header[3] * 0x100int
                + header[4],
    ;
}

} // verus!
