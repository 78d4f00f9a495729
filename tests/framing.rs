use cpm::frame::{decode_frame, encode_frame, end_of_stream, parse_header, Decoded, FrameError, Header, MAX_FRAME_LEN};

#[test]
fn frame_has_big_endian_length_then_payload() {
    let framed = encode_frame(&[1, 2, 3]).unwrap();
    assert_eq!(framed, vec![0, 0, 0, 3, 1, 2, 3]);
    let long = vec![7u8; 0x0102];
    let framed = encode_frame(&long).unwrap();
    assert_eq!(&framed[..4], &[0, 0, 1, 2]);
    assert_eq!(framed.len(), 4 + 0x0102);
}

#[test]
fn empty_payload_is_refused() {
    assert_eq!(encode_frame(&[]), Err(FrameError::EmptyPayload));
}

#[test]
fn oversized_payload_is_refused() {
    let big = vec![0u8; MAX_FRAME_LEN as usize + 1];
    assert_eq!(encode_frame(&big), Err(FrameError::TooLarge));
    let largest = vec![0u8; MAX_FRAME_LEN as usize];
    assert!(encode_frame(&largest).is_ok());
}

#[test]
fn end_of_stream_is_zero_length() {
    assert_eq!(end_of_stream(), vec![0, 0, 0, 0]);
    assert_eq!(parse_header(&[0, 0, 0, 0]), Some(Header::End));
}

#[test]
fn headers_are_read_big_endian() {
    assert_eq!(parse_header(&[0, 0]), None);
    assert_eq!(parse_header(&[0, 0, 1, 0]), Some(Header::Payload(256)));
    assert_eq!(parse_header(&[4, 0, 0, 0]), Some(Header::Payload(MAX_FRAME_LEN)));
    assert_eq!(parse_header(&[4, 0, 0, 1]), Some(Header::TooLarge(MAX_FRAME_LEN + 1)));
    assert_eq!(parse_header(&[0xff, 0xff, 0xff, 0xff]), Some(Header::TooLarge(u32::MAX)));
}

#[test]
fn decode_needs_whole_frame() {
    assert!(matches!(decode_frame(&[0, 0]), Decoded::NeedMore { needed: 4 }));
    assert!(matches!(decode_frame(&[0, 0, 0, 3, 9]), Decoded::NeedMore { needed: 7 }));
    assert!(matches!(decode_frame(&[4, 0, 0, 1]), Decoded::TooLarge { len } if len == MAX_FRAME_LEN + 1));
}

#[test]
fn zero_length_frame_ends_stream_cleanly() {
    let mut stream = Vec::new();
    stream.extend(encode_frame(b"first").unwrap());
    stream.extend(encode_frame(b"second").unwrap());
    stream.extend(end_of_stream());
    stream.extend(encode_frame(b"after the end").unwrap());

    let mut payloads = Vec::new();
    let mut at = 0;
    loop {
        match decode_frame(&stream[at..]) {
            Decoded::Frame { payload, consumed } => {
                payloads.push(payload);
                at += consumed;
            }
            Decoded::End => break,
            other => panic!("unexpected {:?}", matches!(other, Decoded::NeedMore { .. })),
        }
    }
    assert_eq!(payloads, vec![b"first".to_vec(), b"second".to_vec()]);
    assert_eq!(at, 9 + 10);
}
