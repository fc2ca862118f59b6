use flow_transport::checksum::crc32c;
use flow_transport::codec::{read_frame, write_frame};
use flow_transport::errors::FlowError;
use flow_transport::frame::Frame;
use flow_transport::uid::UID;

fn sample_frame() -> Frame {
    Frame {
        token: UID { first: 0x0123456789abcdef, second: 0xfedcba9876543210 },
        payload: vec![1, 2, 3, 4, 5, 6, 7, 8],
    }
}

#[test]
fn crc32c_known_vectors() {
    assert_eq!(crc32c(b""), 0);
    assert_eq!(crc32c(b"123456789"), 0xe3069283);
}

#[test]
fn write_frame_exact_bytes_plain() {
    let frame = Frame { token: UID { first: 1, second: 2 }, payload: vec![0xaa, 0xbb] };
    let mut out = Vec::new();
    write_frame(&mut out, &frame, false);
    let mut expected: Vec<u8> = Vec::new();
    expected.extend_from_slice(&18u32.to_le_bytes()); // 16 token bytes + 2 payload bytes
    expected.extend_from_slice(&1u64.to_le_bytes());
    expected.extend_from_slice(&2u64.to_le_bytes());
    expected.extend_from_slice(&[0xaa, 0xbb]);
    assert_eq!(out, expected);
}

#[test]
fn write_frame_checksum_covers_token_and_payload() {
    let frame = sample_frame();
    let mut out = Vec::new();
    write_frame(&mut out, &frame, true);
    let mut body: Vec<u8> = Vec::new();
    body.extend_from_slice(&frame.token.first.to_le_bytes());
    body.extend_from_slice(&frame.token.second.to_le_bytes());
    body.extend_from_slice(&frame.payload);
    assert_eq!(&out[0..4], &24u32.to_le_bytes());
    assert_eq!(&out[4..8], &crc32c(&body).to_le_bytes());
    assert_eq!(&out[8..], &body[..]);
}

#[test]
fn round_trip_plain() {
    let frame = sample_frame();
    let mut out = Vec::new();
    write_frame(&mut out, &frame, false);
    let (got, end) = read_frame(&out, 0, false).unwrap().unwrap();
    assert_eq!(got.token, frame.token);
    assert_eq!(got.payload, frame.payload);
    assert_eq!(end, out.len());
}

#[test]
fn round_trip_with_checksum() {
    let frame = sample_frame();
    let mut out = Vec::new();
    write_frame(&mut out, &frame, true);
    let (got, end) = read_frame(&out, 0, true).unwrap().unwrap();
    assert_eq!(got.token, frame.token);
    assert_eq!(got.payload, frame.payload);
    assert_eq!(end, out.len());
}

#[test]
fn round_trip_empty_payload() {
    let frame = Frame { token: UID { first: 7, second: 9 }, payload: Vec::new() };
    let mut out = Vec::new();
    write_frame(&mut out, &frame, false);
    let (got, end) = read_frame(&out, 0, false).unwrap().unwrap();
    assert_eq!(got.token, frame.token);
    assert!(got.payload.is_empty());
    assert_eq!(end, out.len());
}

#[test]
fn two_frames_read_back_to_back() {
    let a = sample_frame();
    let b = Frame { token: UID { first: 3, second: 4 }, payload: vec![9; 16] };
    let mut out = Vec::new();
    write_frame(&mut out, &a, false);
    write_frame(&mut out, &b, false);
    let (got_a, mid) = read_frame(&out, 0, false).unwrap().unwrap();
    let (got_b, end) = read_frame(&out, mid, false).unwrap().unwrap();
    assert_eq!(got_a.token, a.token);
    assert_eq!(got_b.token, b.token);
    assert_eq!(got_b.payload, b.payload);
    assert_eq!(end, out.len());
    // and the stream ends cleanly at a frame boundary
    assert_eq!(read_frame(&out, end, false).unwrap().is_none(), true);
}

#[test]
fn clean_eof_at_boundary() {
    let out: Vec<u8> = Vec::new();
    assert!(read_frame(&out, 0, false).unwrap().is_none());
}

#[test]
fn zero_length_is_fatal() {
    let out = vec![0u8, 0, 0, 0, 1, 2, 3];
    assert!(matches!(read_frame(&out, 0, false), Err(FlowError::LengthZero)));
}

#[test]
fn length_under_token_size_is_fatal() {
    let out = vec![15u8, 0, 0, 0, 1, 2, 3];
    assert!(matches!(read_frame(&out, 0, false), Err(FlowError::LengthUnderMin)));
}

#[test]
fn length_over_maximum_is_fatal() {
    let out = vec![0xff, 0xff, 0xff, 0xff];
    assert!(matches!(read_frame(&out, 0, false), Err(FlowError::LengthOverMax)));
}

#[test]
fn eof_mid_frame_is_fatal() {
    let frame = sample_frame();
    let mut out = Vec::new();
    write_frame(&mut out, &frame, false);
    out.truncate(out.len() - 1);
    assert!(matches!(read_frame(&out, 0, false), Err(FlowError::Truncated)));
    // even a bare, partial length word is a truncation
    assert!(matches!(read_frame(&[1u8, 0], 0, false), Err(FlowError::Truncated)));
}

#[test]
fn corrupted_byte_fails_checksum() {
    let frame = sample_frame();
    let mut out = Vec::new();
    write_frame(&mut out, &frame, true);
    let last = out.len() - 1;
    out[last] ^= 0x01;
    assert!(matches!(read_frame(&out, 0, true), Err(FlowError::ChecksumMismatch)));
}

#[test]
fn frame_validation_and_file_identifier() {
    let frame = sample_frame();
    assert!(frame.validate().is_ok());
    // little-endian over the first four payload bytes 1,2,3,4
    assert_eq!(frame.peek_file_identifier(), Ok(0x04030201));
    let short = Frame { token: frame.token, payload: vec![1, 2, 3] };
    assert_eq!(short.validate(), Err(FlowError::FrameTooShort));
    assert_eq!(short.peek_file_identifier(), Err(FlowError::FrameTooShort));
}
