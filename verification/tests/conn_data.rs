use bytes::Buf;

use sendch::codec::decode_data;
use sendch::codec::EncodingFailure;
use sendch::codec::MAX_PAYLOAD_LEN;
use sendch::codec::MSG_HEADER_LEN;
use sendch::ConnData;

#[test]
fn from_string_keeps_id_and_bytes() {
    let data = ConnData::from_string(7, "hello");
    assert_eq!(data.msg_id(), 7);
    assert_eq!(data.len(), 5);
    let frame = data.encode_to_buf().unwrap();
    assert_eq!(decode_data(frame.bytes()), Ok((7, &b"hello"[..])));
}

#[test]
fn from_string_takes_utf8_bytes() {
    let data = ConnData::from_string(1, "h\u{e9}");
    assert_eq!(data.len(), 3);
    let frame = data.encode_to_buf().unwrap();
    assert_eq!(&frame.bytes()[MSG_HEADER_LEN..], &[b'h', 0xc3, 0xa9]);
}

#[test]
fn encoded_frame_has_header_length_plus_payload_length() {
    let data = ConnData::from_string(42, "\u{1}\u{2}");
    let frame = data.encode_to_buf().unwrap();
    assert_eq!(frame.remaining(), MSG_HEADER_LEN + 2);
    assert_eq!(
        frame.bytes(),
        &[0xda, 0xf4, 0x00, 0x01, 0, 0, 0, 2, 0, 0, 0, 0, 0, 0, 0, 42, 0x01, 0x02]
    );
}

#[test]
fn encoding_does_not_change_the_message() {
    let data = ConnData::from_string(42, "abc");
    let first = data.encode_to_buf().unwrap().bytes().to_vec();
    let second = data.encode_to_buf().unwrap().bytes().to_vec();
    assert_eq!(first, second);
    assert_eq!(data.msg_id(), 42);
    assert_eq!(data.len(), 3);
}

#[test]
fn empty_payload_encodes_to_a_bare_header() {
    let data = ConnData::from_string(3, "");
    assert_eq!(data.len(), 0);
    let frame = data.encode_to_buf().unwrap();
    assert_eq!(frame.remaining(), MSG_HEADER_LEN);
    assert_eq!(decode_data(frame.bytes()), Ok((3, &[][..])));
}

#[test]
fn largest_id_round_trips() {
    let data = ConnData::from_string(u64::MAX, "x");
    let frame = data.encode_to_buf().unwrap();
    assert_eq!(decode_data(frame.bytes()), Ok((u64::MAX, &b"x"[..])));
}

#[test]
fn payload_over_the_limit_is_not_encoded() {
    let text = String::from_utf8(vec![0u8; MAX_PAYLOAD_LEN + 1]).unwrap();
    let data = ConnData::from_string(42, &text);
    assert_eq!(data.len(), MAX_PAYLOAD_LEN + 1);
    assert!(matches!(data.encode_to_buf(), Err(EncodingFailure::PayloadTooLong)));
}
