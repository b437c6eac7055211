use naivechain_rs::frame::{decode_frame, encode_frame, parse_header, FrameError, HeaderStatus};

#[test]
fn frame_header_is_big_endian_length() {
    let f = encode_frame(&[0xaa; 258]);
    assert_eq!(f.len(), 8 + 258);
    assert_eq!(&f[0..8], &[0, 0, 0, 0, 0, 0, 1, 2]);
    assert_eq!(&f[8..], &[0xaa; 258][..]);
}

#[test]
fn frame_round_trip_over_sizes() {
    for size in [0usize, 1, 7, 8, 255, 256, 1024, 70000] {
        let payload: Vec<u8> = (0..size).map(|i| (i % 251) as u8).collect();
        let mut bytes = encode_frame(&payload);
        bytes.extend_from_slice(&[1, 2, 3]);
        match decode_frame(&bytes) {
            Ok(Some((p, used))) => {
                assert_eq!(p, payload);
                assert_eq!(used, 8 + size);
            }
            other => panic!("unexpected {:?}", other),
        }
    }
}

#[test]
fn closed_stream_is_not_an_error() {
    assert_eq!(decode_frame(&[]), Ok(None));
    assert_eq!(parse_header(&[]), HeaderStatus::Closed);
}

#[test]
fn partial_header_is_malformed() {
    for n in 1..8 {
        let bytes = vec![0u8; n];
        assert_eq!(decode_frame(&bytes), Err(FrameError::MalformedHeader));
        assert_eq!(parse_header(&bytes), HeaderStatus::Malformed);
    }
}

#[test]
fn full_header_gives_length() {
    assert_eq!(parse_header(&[0, 0, 0, 0, 0, 1, 0, 3]), HeaderStatus::Length(65539));
    assert_eq!(parse_header(&[0xff; 8]), HeaderStatus::Length(u64::MAX));
}

#[test]
fn short_payload_is_truncated() {
    let mut bytes = encode_frame(&[5; 10]);
    bytes.truncate(12);
    assert_eq!(decode_frame(&bytes), Err(FrameError::Truncated));
}
