use maze_player::error::FrameError;
use maze_player::frame::{encode_frame, frame_length, FrameReader};

#[test]
fn frames_carry_a_little_endian_length() {
    assert_eq!(encode_frame(b"abc"), vec![3, 0, 0, 0, b'a', b'b', b'c']);
    assert_eq!(encode_frame(b""), vec![0, 0, 0, 0]);
    let payload = vec![7u8; 300];
    let frame = encode_frame(&payload);
    assert_eq!(&frame[..4], &[44, 1, 0, 0]);
    assert_eq!(&frame[4..], &payload[..]);
}

#[test]
fn prefix_gives_the_payload_length() {
    assert_eq!(frame_length(&[5, 0, 0, 0]), 5);
    assert_eq!(frame_length(&[44, 1, 0, 0]), 300);
    assert_eq!(frame_length(&[0x78, 0x56, 0x34, 0x12]), 0x1234_5678);
    assert_eq!(frame_length(&[255, 255, 255, 255]), u32::MAX);
}

#[test]
fn short_payload_before_close_is_a_connection_error() {
    let mut reader = FrameReader::new();
    reader.push(&[5, 0, 0, 0, 1, 2, 3]);
    assert_eq!(reader.next_frame(), None);
    assert_eq!(reader.bytes_wanted(), 2);
    assert_eq!(reader.finish(), Err(FrameError::ConnectionError));
}

#[test]
fn short_prefix_before_close_is_a_connection_error() {
    let mut reader = FrameReader::new();
    assert_eq!(reader.bytes_wanted(), 4);
    reader.push(&[5, 0]);
    assert_eq!(reader.bytes_wanted(), 2);
    assert_eq!(reader.finish(), Err(FrameError::ConnectionError));
    assert_eq!(FrameReader::new().finish(), Err(FrameError::ConnectionError));
}

#[test]
fn frames_come_out_whole_and_in_order() {
    let mut reader = FrameReader::new();
    let mut bytes = encode_frame(b"hello");
    bytes.extend(encode_frame(b""));
    bytes.extend(encode_frame(b"xy"));
    reader.push(&bytes[..6]);
    assert_eq!(reader.next_frame(), None);
    reader.push(&bytes[6..]);
    assert_eq!(reader.bytes_wanted(), 0);
    assert_eq!(reader.next_frame(), Some(b"hello".to_vec()));
    assert_eq!(reader.next_frame(), Some(vec![]));
    assert_eq!(reader.finish(), Ok(b"xy".to_vec()));
    assert_eq!(reader.finish(), Err(FrameError::ConnectionError));
}
