use bytes::Buf;
use bytes::ByteBuf;
use bytes::MutBuf;

use sendch::codec::decode_data;
use sendch::codec::decode_msg_header;
use sendch::codec::encode_data;
use sendch::codec::encode_msg_header;
use sendch::codec::DecodeError;
use sendch::codec::EncodingFailure;
use sendch::codec::MAX_PAYLOAD_LEN;
use sendch::codec::MSG_HEADER_LEN;
use sendch::codec::MSG_MAGIC;
use sendch::codec::MSG_VERSION_V1;

fn frame_of(msg_id: u64, payload: &[u8]) -> Vec<u8> {
    let mut buf = ByteBuf::mut_with_capacity(MSG_HEADER_LEN + payload.len());
    assert_eq!(encode_data(&mut buf, msg_id, payload), Ok(()));
    buf.flip().bytes().to_vec()
}

#[test]
fn constants_have_their_values() {
    assert_eq!(MSG_HEADER_LEN, 16);
    assert_eq!(MSG_MAGIC, 0xdaf4);
    assert_eq!(MSG_VERSION_V1, 1);
    assert_eq!(MAX_PAYLOAD_LEN, 0x4000_0000 - 16);
}

#[test]
fn header_is_laid_out_field_by_field() {
    let header = encode_msg_header(42, 2);
    assert_eq!(
        header,
        vec![0xda, 0xf4, 0x00, 0x01, 0x00, 0x00, 0x00, 0x02, 0, 0, 0, 0, 0, 0, 0, 42]
    );
}

#[test]
fn header_fields_are_big_endian() {
    let header = encode_msg_header(0x0102_0304_0506_0708, 0x0a0b_0c0d);
    assert_eq!(
        header,
        vec![0xda, 0xf4, 0x00, 0x01, 0x0a, 0x0b, 0x0c, 0x0d, 1, 2, 3, 4, 5, 6, 7, 8]
    );
}

#[test]
fn header_of_the_largest_values() {
    let header = encode_msg_header(u64::MAX, u32::MAX);
    assert_eq!(header.len(), 16);
    assert_eq!(&header[..4], &[0xda, 0xf4, 0x00, 0x01]);
    assert_eq!(&header[4..], &[0xff; 12]);
    assert_eq!(decode_msg_header(&header), Ok((u64::MAX, u32::MAX as usize)));
}

#[test]
fn header_decodes_to_what_was_encoded() {
    let header = encode_msg_header(42, 2);
    assert_eq!(decode_msg_header(&header), Ok((42, 2)));
    let header = encode_msg_header(0, 0);
    assert_eq!(decode_msg_header(&header), Ok((0, 0)));
    let header = encode_msg_header(0x0102_0304_0506_0708, 0x0a0b_0c0d);
    assert_eq!(decode_msg_header(&header), Ok((0x0102_0304_0506_0708, 0x0a0b_0c0d)));
}

#[test]
fn header_decoding_reads_only_sixteen_bytes() {
    let mut bytes = encode_msg_header(7, 3);
    bytes.extend_from_slice(&[9, 9, 9, 9, 9]);
    assert_eq!(decode_msg_header(&bytes), Ok((7, 3)));
}

#[test]
fn short_header_is_refused() {
    assert_eq!(decode_msg_header(&[]), Err(DecodeError::ShortHeader));
    let header = encode_msg_header(42, 0);
    assert_eq!(decode_msg_header(&header[..15]), Err(DecodeError::ShortHeader));
    assert_eq!(decode_data(&header[..15]), Err(DecodeError::ShortHeader));
}

#[test]
fn wrong_magic_is_refused() {
    let mut header = encode_msg_header(42, 0);
    header[1] = 0xf5;
    assert_eq!(decode_msg_header(&header), Err(DecodeError::BadMagic));
    header[1] = 0xf4;
    header[0] = 0x00;
    assert_eq!(decode_data(&header), Err(DecodeError::BadMagic));
}

#[test]
fn wrong_version_is_refused() {
    let mut header = encode_msg_header(42, 0);
    header[3] = 2;
    assert_eq!(decode_msg_header(&header), Err(DecodeError::BadVersion));
    header[3] = 1;
    header[2] = 1;
    assert_eq!(decode_data(&header), Err(DecodeError::BadVersion));
}

#[test]
fn magic_is_checked_before_version() {
    let mut header = encode_msg_header(42, 0);
    header[0] = 0;
    header[3] = 9;
    assert_eq!(decode_msg_header(&header), Err(DecodeError::BadMagic));
}

#[test]
fn length_that_disagrees_is_refused() {
    let mut frame = frame_of(42, &[1, 2]);
    frame.push(3);
    assert_eq!(decode_data(&frame), Err(DecodeError::LengthMismatch));
    let frame = frame_of(42, &[1, 2]);
    assert_eq!(decode_data(&frame[..17]), Err(DecodeError::LengthMismatch));
    assert_eq!(decode_data(&frame[..16]), Err(DecodeError::LengthMismatch));
}

#[test]
fn frame_is_header_then_payload() {
    let frame = frame_of(42, &[0x01, 0x02]);
    assert_eq!(
        frame,
        vec![0xda, 0xf4, 0x00, 0x01, 0, 0, 0, 2, 0, 0, 0, 0, 0, 0, 0, 42, 0x01, 0x02]
    );
    assert_eq!(frame.len(), MSG_HEADER_LEN + 2);
}

#[test]
fn frame_of_an_empty_payload_is_the_header() {
    let frame = frame_of(9, &[]);
    assert_eq!(frame, encode_msg_header(9, 0));
    assert_eq!(decode_data(&frame), Ok((9, &[][..])));
}

#[test]
fn decoding_undoes_encoding() {
    let payloads: Vec<Vec<u8>> = vec![
        vec![],
        vec![0],
        vec![0x01, 0x02],
        vec![0xff; 300],
        (0..=255u8).collect(),
    ];
    let ids: Vec<u64> = vec![0, 1, 42, 0xdaf4, 1 << 32, u64::MAX];
    for payload in &payloads {
        for id in &ids {
            let frame = frame_of(*id, payload);
            assert_eq!(frame.len(), MSG_HEADER_LEN + payload.len());
            assert_eq!(decode_data(&frame), Ok((*id, &payload[..])));
        }
    }
}

#[test]
fn frames_follow_one_another_in_a_buffer() {
    let mut buf = ByteBuf::mut_with_capacity(64);
    assert_eq!(encode_data(&mut buf, 1, &[0xaa]), Ok(()));
    assert_eq!(encode_data(&mut buf, 2, &[0xbb, 0xcc]), Ok(()));
    let all = buf.flip().bytes().to_vec();
    assert_eq!(all.len(), 17 + 18);
    assert_eq!(decode_data(&all[..17]), Ok((1, &[0xaa][..])));
    assert_eq!(decode_data(&all[17..]), Ok((2, &[0xbb, 0xcc][..])));
}

#[test]
fn frame_without_room_is_not_written() {
    let mut buf = ByteBuf::mut_with_capacity(16);
    assert_eq!(MutBuf::remaining(&buf), 16);
    assert_eq!(encode_data(&mut buf, 42, &[1]), Err(EncodingFailure::NoRoom));
    assert_eq!(MutBuf::remaining(&buf), 16);
    assert_eq!(buf.bytes().len(), 0);
    assert_eq!(encode_data(&mut buf, 42, &[]), Ok(()));
    assert_eq!(MutBuf::remaining(&buf), 0);
    assert_eq!(encode_data(&mut buf, 43, &[]), Err(EncodingFailure::NoRoom));
    assert_eq!(buf.flip().bytes().to_vec(), encode_msg_header(42, 0));
}

#[test]
fn frame_into_a_buffer_without_memory_is_refused() {
    let mut buf = ByteBuf::mut_with_capacity(0);
    assert_eq!(encode_data(&mut buf, 42, &[]), Err(EncodingFailure::NoRoom));
    assert_eq!(encode_data(&mut buf, 42, &[1, 2, 3]), Err(EncodingFailure::NoRoom));
}

#[test]
fn payload_over_the_limit_is_refused() {
    let data: Vec<u8> = vec![0u8; MAX_PAYLOAD_LEN + 1];
    let mut buf = ByteBuf::mut_with_capacity(64);
    assert_eq!(encode_data(&mut buf, 42, &data), Err(EncodingFailure::PayloadTooLong));
    assert_eq!(MutBuf::remaining(&buf), 64);
    assert_eq!(buf.bytes().len(), 0);
}
