use btclip::protocol::{
    accepted_payload_length, assemble_frame, decode_frame, encode_frame, Frame, FrameError,
    FrameType, HEADER_LEN, MAX_PAYLOAD_SIZE,
};

#[test]
fn frame_type_bytes() {
    assert_eq!(FrameType::Text.to_byte(), 0x01);
    assert_eq!(FrameType::Image.to_byte(), 0x02);
    assert_eq!(FrameType::from_byte(0x01), Some(FrameType::Text));
    assert_eq!(FrameType::from_byte(0x02), Some(FrameType::Image));
    assert_eq!(FrameType::from_byte(0x00), None);
    assert_eq!(FrameType::from_byte(0x03), None);
}

#[test]
fn encode_text_frame_layout() {
    assert_eq!(encode_frame(FrameType::Text, b"hi"), vec![0x01, 0, 0, 0, 2, b'h', b'i']);
}

#[test]
fn encode_image_frame_big_endian_length() {
    let payload = vec![7u8; 0x012C];
    let frame = encode_frame(FrameType::Image, &payload);
    assert_eq!(&frame[..HEADER_LEN], &[0x02, 0x00, 0x00, 0x01, 0x2C]);
    assert_eq!(frame.len(), HEADER_LEN + 0x012C);
    assert_eq!(&frame[HEADER_LEN..], payload.as_slice());
}

#[test]
fn encode_empty_payload() {
    assert_eq!(encode_frame(FrameType::Text, &[]), vec![0x01, 0, 0, 0, 0]);
}

#[test]
fn decode_round_trip() {
    let payload: Vec<u8> = (0..=255u8).collect();
    let frame = encode_frame(FrameType::Image, &payload);
    assert_eq!(
        decode_frame(&frame),
        Ok(Frame { frame_type: FrameType::Image, length: 256, payload: payload.clone() })
    );
    let text = encode_frame(FrameType::Text, "héllo".as_bytes());
    let decoded = decode_frame(&text).unwrap();
    assert_eq!(decoded.frame_type, FrameType::Text);
    assert_eq!(decoded.length, 6);
    assert_eq!(decoded.payload, "héllo".as_bytes().to_vec());
}

#[test]
fn decode_truncated() {
    assert_eq!(decode_frame(&[]), Err(FrameError::Truncated));
    assert_eq!(decode_frame(&[0x01, 0, 0, 0]), Err(FrameError::Truncated));
}

#[test]
fn decode_unknown_type() {
    assert_eq!(decode_frame(&[0x03, 0, 0, 0, 0]), Err(FrameError::UnknownType(3)));
    assert_eq!(decode_frame(&[0x00, 0, 0, 0, 1, 9]), Err(FrameError::UnknownType(0)));
}

#[test]
fn decode_length_mismatch() {
    assert_eq!(
        decode_frame(&[0x01, 0, 0, 0, 5, b'a', b'b']),
        Err(FrameError::LengthMismatch { declared: 5, actual: 2 })
    );
    assert_eq!(
        decode_frame(&[0x02, 0, 0, 0, 0, 1]),
        Err(FrameError::LengthMismatch { declared: 0, actual: 1 })
    );
}

#[test]
fn payload_length_limit() {
    assert_eq!(MAX_PAYLOAD_SIZE, 20 * 1024 * 1024);
    assert_eq!(accepted_payload_length(&[0x02, 0x01, 0x40, 0x00, 0x00]), Ok(MAX_PAYLOAD_SIZE));
    assert_eq!(accepted_payload_length(&[0x02, 0x01, 0x40, 0x00, 0x01]), Err(MAX_PAYLOAD_SIZE + 1));
    assert_eq!(accepted_payload_length(&[0x01, 0xFF, 0xFF, 0xFF, 0xFF]), Err(u32::MAX));
    assert_eq!(accepted_payload_length(&[0x01, 0, 0, 0x01, 0x2C]), Ok(300));
}

#[test]
fn assemble_header_and_payload() {
    let frame = encode_frame(FrameType::Text, b"abc");
    let raw = assemble_frame(&frame[..HEADER_LEN], &frame[HEADER_LEN..]);
    assert_eq!(raw, frame);
    assert_eq!(decode_frame(&raw).unwrap().payload, b"abc".to_vec());
}
