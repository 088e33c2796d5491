use srwp::codec::{encode_read_frame, encode_test_frame, encode_write_frame};

#[test]
fn read_frame_is_exactly_ten_bytes() {
    let frame = encode_read_frame(0x100, 32);
    assert_eq!(frame.len(), 10);
    assert_eq!(frame, vec![0x00, 0x01, 0x00, 0x01, 0x00, 0x00, 0x20, 0x00, 0x00, 0x00]);
}

#[test]
fn read_frame_header_is_little_endian() {
    let frame = encode_read_frame(0x1234_5678, 0xAABB_CCDD);
    assert_eq!(
        frame,
        vec![0x00, 0x01, 0x78, 0x56, 0x34, 0x12, 0xDD, 0xCC, 0xBB, 0xAA]
    );
}

#[test]
fn read_frame_of_zero_values() {
    let frame = encode_read_frame(0, 0);
    assert_eq!(frame, vec![0x00, 0x01, 0, 0, 0, 0, 0, 0, 0, 0]);
}

#[test]
fn write_frame_is_header_then_payload() {
    let payload: Vec<u8> = vec![0xDE, 0xAD, 0xBE, 0xEF];
    let frame = encode_write_frame(0x0102_0304, &payload);
    let mut expected: Vec<u8> = vec![0x00, 0x02, 0x04, 0x03, 0x02, 0x01, 0x04, 0x00, 0x00, 0x00];
    expected.extend_from_slice(&payload);
    assert_eq!(frame, expected);
}

#[test]
fn write_frame_with_empty_payload() {
    let frame = encode_write_frame(7, &[]);
    assert_eq!(frame, vec![0x00, 0x02, 7, 0, 0, 0, 0, 0, 0, 0]);
    assert_eq!(frame.len(), 10);
}

#[test]
fn write_frame_length_field_counts_payload() {
    let payload: Vec<u8> = (0u8..=40).collect();
    let frame = encode_write_frame(0, &payload);
    assert_eq!(frame.len(), 10 + 41);
    assert_eq!(frame[6], 41);
    assert_eq!(&frame[10..], &payload[..]);
}

#[test]
fn test_frame_is_six_bytes_plus_payload() {
    let frame = encode_test_frame(&[0xAB, 0xCD]);
    assert_eq!(frame, vec![0x00, 0x00, 0x02, 0x00, 0x00, 0x00, 0xAB, 0xCD]);
}

#[test]
fn test_frame_with_empty_payload() {
    let frame = encode_test_frame(&[]);
    assert_eq!(frame, vec![0x00, 0x00, 0, 0, 0, 0]);
}
