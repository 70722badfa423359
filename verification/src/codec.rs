//! The wire frame of one message: a fixed header of sixteen bytes, then the
//! payload.
//!
//! ```text
//! | magic (2) | version (2) | payload length (4) | message id (8) | payload |
//! ```
//!
//! Every header field is an unsigned integer, most significant byte first.

use vstd::prelude::*;
use vstd::slice::slice_subrange;

use bytes::MutByteBuf;

use crate::buf::capacity;
use crate::buf::room;
use crate::buf::write_slice;
use crate::buf::written;
use crate::buf::MAX_BUF_LEN;

verus! {

/// Length in bytes of the header that precedes every payload.
pub const MSG_HEADER_LEN: usize = 16;

/// The first header field of every frame.
pub const MSG_MAGIC: u16 = 0xdaf4;

/// The second header field: the one version of the layout there is.
pub const MSG_VERSION_V1: u16 = 1;

/// The longest payload a frame carries: with its header it still fits the
/// largest buffer.
pub const MAX_PAYLOAD_LEN: usize = MAX_BUF_LEN - MSG_HEADER_LEN;

/// Why a message was not framed. Nothing has been written when one is returned.
#[derive(Clone, Copy, Debug, PartialEq, Eq, Structural)]
pub enum EncodingFailure {
    /// The payload is longer than `MAX_PAYLOAD_LEN`.
    PayloadTooLong,
    /// The buffer has less room left than the frame needs.
    NoRoom,
}

/// Why bytes were not accepted as a frame.
#[derive(Clone, Copy, Debug, PartialEq, Eq, Structural)]
pub enum DecodeError {
    /// Fewer bytes than a header has.
    ShortHeader,
    /// The first field is not `MSG_MAGIC`.
    BadMagic,
    /// The second field is not `MSG_VERSION_V1`.
    BadVersion,
    /// The length field differs from the number of bytes after the header.
    LengthMismatch,
}

/// The `width` low-order base-256 digits of `x`, most significant first.
pub open spec fn be_digits(x: nat, width: nat) -> Seq<u8>
    decreases width,
{
    if width == 0 {
        Seq::empty()
    } else {
        be_digits(x / 256, (width - 1) as nat).push((x % 256) as u8)
    }
}

/// The number that `digits` writes in base 256, most significant first.
pub open spec fn be_value(digits: Seq<u8>) -> nat
    decreases digits.len(),
{
    if digits.len() == 0 {
        0
    } else {
        be_value(digits.drop_last()) * 256 + digits.last() as nat
    }
}

/// Whether `x` can be written in `width` base-256 digits.
pub open spec fn fits(x: nat, width: nat) -> bool
    decreases width,
{
    if width == 0 {
        x == 0
    } else {
        fits(x / 256, (width - 1) as nat)
    }
}

/// `be_digits` yields exactly `width` digits.
pub proof fn lemma_be_digits_len(x: nat, width: nat)
    ensures
        be_digits(x, width).len() == width,
    decreases width,
{
    if width > 0 {
        lemma_be_digits_len(x / 256, (width - 1) as nat);
    }
}

/// Reading back the digits of a number that fits gives the number.
pub proof fn lemma_be_value_of_digits(x: nat, width: nat)
    requires
        fits(x, width),
    ensures
        be_value(be_digits(x, width)) == x,
    decreases width,
{
    if width > 0 {
        let rest = be_digits(x / 256, (width - 1) as nat);
        lemma_be_value_of_digits(x / 256, (width - 1) as nat);
        assert(rest.push((x % 256) as u8).drop_last() =~= rest);
    }
}

/// A number that fits in `width` digits fits in one more.
pub proof fn lemma_fits_wider(x: nat, width: nat)
    requires
        fits(x, width),
    ensures
        fits(x, width + 1),
    decreases width,
{
    if width > 0 {
        lemma_fits_wider(x / 256, (width - 1) as nat);
    }
}

/// Every `u16` fits in two digits, every `u32` in four, every `u64` in eight.
pub proof fn lemma_fits_machine_widths(x: nat)
    ensures
        x <= u16::MAX ==> fits(x, 2),
        x <= u32::MAX ==> fits(x, 4),
        x <= u64::MAX ==> fits(x, 8),
{
    reveal_with_fuel(fits, 9);
}

/// A number that fits in seven digits leaves room for an eighth in a `u64`.
proof fn lemma_fits_seven(x: nat, width: nat)
    requires
        fits(x, width),
        width <= 7,
    ensures
        x * 256 + 255 <= u64::MAX,
    decreases 7 - width,
{
    if width < 7 {
        lemma_fits_wider(x, width);
        lemma_fits_seven(x, width + 1);
    } else {
        reveal_with_fuel(fits, 8);
    }
}

/// The header of a frame that carries `payload_len` bytes under `msg_id`.
pub open spec fn header_bytes(msg_id: u64, payload_len: nat) -> Seq<u8> {
    be_digits(MSG_MAGIC as nat, 2) + be_digits(MSG_VERSION_V1 as nat, 2) + be_digits(
        payload_len,
        4,
    ) + be_digits(msg_id as nat, 8)
}

/// The whole frame: the header, then the payload unchanged.
pub open spec fn frame_bytes(msg_id: u64, payload: Seq<u8>) -> Seq<u8> {
    header_bytes(msg_id, payload.len()) + payload
}

/// What the first sixteen bytes of `bytes` say as a header: the message id
/// and the payload length, or the first check that fails.
pub open spec fn decode_header(bytes: Seq<u8>) -> Result<(u64, nat), DecodeError> {
    if bytes.len() < MSG_HEADER_LEN {
        Err(DecodeError::ShortHeader)
    } else if be_value(bytes.subrange(0, 2)) != MSG_MAGIC {
        Err(DecodeError::BadMagic)
    } else if be_value(bytes.subrange(2, 4)) != MSG_VERSION_V1 {
        Err(DecodeError::BadVersion)
    } else {
        Ok((be_value(bytes.subrange(8, 16)) as u64, be_value(bytes.subrange(4, 8))))
    }
}

/// What `frame` says as one whole frame: the message id and the payload, or
/// the first check that fails.
pub open spec fn decode_frame(frame: Seq<u8>) -> Result<(u64, Seq<u8>), DecodeError> {
    match decode_header(frame) {
        Err(e) => Err(e),
        Ok((msg_id, len)) => if frame.len() - MSG_HEADER_LEN != len {
            Err(DecodeError::LengthMismatch)
        } else {
            Ok((msg_id, frame.subrange(MSG_HEADER_LEN as int, frame.len() as int)))
        },
    }
}

/// Appends the `width` low-order digits of `x` to `out`, most significant first.
fn push_be(out: &mut Vec<u8>, x: u64, width: usize)
    ensures
        final(out)@ == old(out)@ + be_digits(x as nat, width as nat),
    decreases width,
{
    if width > 0 {
        push_be(out, x / 256, width - 1);
        out.push((x % 256) as u8);
    }
}

/// Reads the number written in the `width` bytes of `src` that start at `at`.
fn read_be(src: &[u8], at: usize, width: usize) -> (x: u64)
    requires
        width <= 8,
        at + width <= src@.len(),
    ensures
        x == be_value(src@.subrange(at as int, at + width)),
        fits(x as nat, width as nat),
    decreases width,
{
    if width == 0 {
        0
    } else {
        let high: u64 = read_be(src, at, width - 1);
        assert(at + width <= src.len());
        let low: u8 = src[at + width - 1];
        proof {
            lemma_fits_seven(high as nat, (width - 1) as nat);
            let digits = src@.subrange(at as int, at + width);
            assert(digits.drop_last() =~= src@.subrange(at as int, at + width - 1));
        }
        high * 256 + low as u64
    }
}

/// Builds the header of a frame that carries `payload_len` bytes under
/// `msg_id`.
pub fn encode_msg_header(msg_id: u64, payload_len: u32) -> (header: Vec<u8>)
    ensures
        header@ == header_bytes(msg_id, payload_len as nat),
        header@.len() == MSG_HEADER_LEN,
{
    let mut header: Vec<u8> = Vec::with_capacity(MSG_HEADER_LEN);
    push_be(&mut header, MSG_MAGIC as u64, 2);
    push_be(&mut header, MSG_VERSION_V1 as u64, 2);
    push_be(&mut header, payload_len as u64, 4);
    push_be(&mut header, msg_id, 8);
    proof {
        lemma_be_digits_len(MSG_MAGIC as nat, 2);
        lemma_be_digits_len(MSG_VERSION_V1 as nat, 2);
        lemma_be_digits_len(payload_len as nat, 4);
        lemma_be_digits_len(msg_id as nat, 8);
    }
    header
}

/// Reads a header from the first sixteen bytes of `bytes`: the message id and
/// the payload length it announces.
pub fn decode_msg_header(bytes: &[u8]) -> (r: Result<(u64, usize), DecodeError>)
    ensures
        match r {
            Ok((msg_id, len)) => decode_header(bytes@) == Ok::<(u64, nat), DecodeError>(
                (msg_id, len as nat),
            ),
            Err(e) => decode_header(bytes@) == Err::<(u64, nat), DecodeError>(e),
        },
{
    if bytes.len() < MSG_HEADER_LEN {
        return Err(DecodeError::ShortHeader);
    }
    if read_be(bytes, 0, 2) != MSG_MAGIC as u64 {
        return Err(DecodeError::BadMagic);
    }
    if read_be(bytes, 2, 2) != MSG_VERSION_V1 as u64 {
        return Err(DecodeError::BadVersion);
    }
    let len: u64 = read_be(bytes, 4, 4);
    let msg_id: u64 = read_be(bytes, 8, 8);
    proof {
        reveal_with_fuel(fits, 5);
    }
    Ok((msg_id, len as usize))
}

/// Reads `frame` as one whole frame: the message id and the payload, which
/// is borrowed from `frame`.
pub fn decode_data(frame: &[u8]) -> (r: Result<(u64, &[u8]), DecodeError>)
    ensures
        match r {
            Ok((msg_id, payload)) => decode_frame(frame@) == Ok::<(u64, Seq<u8>), DecodeError>(
                (msg_id, payload@),
            ),
            Err(e) => decode_frame(frame@) == Err::<(u64, Seq<u8>), DecodeError>(e),
        },
{
    match decode_msg_header(frame) {
        Err(e) => Err(e),
        Ok((msg_id, len)) => {
            if frame.len() - MSG_HEADER_LEN != len {
                Err(DecodeError::LengthMismatch)
            } else {
                Ok((msg_id, slice_subrange(frame, MSG_HEADER_LEN, frame.len())))
            }
        },
    }
}

/// Appends the frame of `data` under `msg_id` to `buf`, or leaves `buf` as it
/// was: a frame is written whole or not at all.
pub fn encode_data(buf: &mut MutByteBuf, msg_id: u64, data: &[u8]) -> (r: Result<
    (),
    EncodingFailure,
>)
    ensures
        capacity(*final(buf)) == capacity(*old(buf)),
        match r {
            Ok(()) => {
                &&& data@.len() <= MAX_PAYLOAD_LEN
                &&& written(*old(buf)).len() + MSG_HEADER_LEN + data@.len() <= capacity(*old(buf))
                &&& written(*final(buf)) == written(*old(buf)) + frame_bytes(msg_id, data@)
            },
            Err(EncodingFailure::PayloadTooLong) => {
                &&& data@.len() > MAX_PAYLOAD_LEN
                &&& *final(buf) == *old(buf)
            },
            Err(EncodingFailure::NoRoom) => {
                &&& data@.len() <= MAX_PAYLOAD_LEN
                &&& written(*old(buf)).len() + MSG_HEADER_LEN + data@.len() > capacity(*old(buf))
                &&& *final(buf) == *old(buf)
            },
        },
{
    let len: usize = data.len();
    if len > MAX_PAYLOAD_LEN {
        return Err(EncodingFailure::PayloadTooLong);
    }
    if room(buf) < MSG_HEADER_LEN + len {
        return Err(EncodingFailure::NoRoom);
    }
    let header: Vec<u8> = encode_msg_header(msg_id, len as u32);
    write_slice(buf, header.as_slice());
    if len > 0 {
        write_slice(buf, data);
    }
    Ok(())
}

/// A frame is as long as its header and its payload together.
pub proof fn lemma_frame_len(msg_id: u64, payload: Seq<u8>)
    ensures
        header_bytes(msg_id, payload.len()).len() == MSG_HEADER_LEN,
        frame_bytes(msg_id, payload).len() == MSG_HEADER_LEN + payload.len(),
{
    lemma_be_digits_len(MSG_MAGIC as nat, 2);
    lemma_be_digits_len(MSG_VERSION_V1 as nat, 2);
    lemma_be_digits_len(payload.len(), 4);
    lemma_be_digits_len(msg_id as nat, 8);
}

/// Decoding undoes encoding: the frame of a message id and a payload whose
/// length the header can hold decodes to that id and that payload.
pub proof fn lemma_decode_inverts_encode(msg_id: u64, payload: Seq<u8>)
    requires
        payload.len() <= u32::MAX,
    ensures
        decode_frame(frame_bytes(msg_id, payload)) == Ok::<(u64, Seq<u8>), DecodeError>(
            (msg_id, payload),
        ),
{
    let magic = be_digits(MSG_MAGIC as nat, 2);
    let version = be_digits(MSG_VERSION_V1 as nat, 2);
    let len = be_digits(payload.len(), 4);
    let id = be_digits(msg_id as nat, 8);
    let frame = frame_bytes(msg_id, payload);
    lemma_frame_len(msg_id, payload);
    lemma_be_digits_len(MSG_MAGIC as nat, 2);
    lemma_be_digits_len(MSG_VERSION_V1 as nat, 2);
    lemma_be_digits_len(payload.len(), 4);
    lemma_be_digits_len(msg_id as nat, 8);
    assert(frame.subrange(0, 2) =~= magic);
    assert(frame.subrange(2, 4) =~= version);
    assert(frame.subrange(4, 8) =~= len);
    assert(frame.subrange(8, 16) =~= id);
    assert(frame.subrange(MSG_HEADER_LEN as int, frame.len() as int) =~= payload);
    lemma_fits_machine_widths(MSG_MAGIC as nat);
    lemma_fits_machine_widths(MSG_VERSION_V1 as nat);
    lemma_fits_machine_widths(payload.len());
    lemma_fits_machine_widths(msg_id as nat);
    lemma_be_value_of_digits(MSG_MAGIC as nat, 2);
    lemma_be_value_of_digits(MSG_VERSION_V1 as nat, 2);
    lemma_be_value_of_digits(payload.len(), 4);
    lemma_be_value_of_digits(msg_id as nat, 8);
}

} // verus!
