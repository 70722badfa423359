//! One message on its way to or from a connection: an id that pairs a reply
//! with its request, and a payload that is never changed once set.

use vstd::prelude::*;
use vstd::string::StringSliceAdditionalSpecFns;

use bytes::ByteBuf;

use crate::buf::as_slice;
use crate::buf::flip;
use crate::buf::from_slice;
use crate::buf::mut_with_capacity;
use crate::buf::readable;
use crate::buf::remaining;
use crate::buf::MAX_BUF_LEN;
use crate::codec::encode_data;
use crate::codec::decode_frame;
use crate::codec::frame_bytes;
use crate::codec::lemma_decode_inverts_encode;
use crate::codec::lemma_frame_len;
use crate::codec::DecodeError;
use crate::codec::EncodingFailure;
use crate::codec::MAX_PAYLOAD_LEN;
use crate::codec::MSG_HEADER_LEN;

verus! {

/// A message id with its payload. It has no `Debug`: formatting the buffer
/// of an empty payload is not safe.
pub struct ConnData {
    msg_id: u64,
    data: ByteBuf,
}

/// What a `ConnData` stands for.
pub struct ConnDataView {
    pub msg_id: u64,
    pub payload: Seq<u8>,
}

impl View for ConnData {
    type V = ConnDataView;

    closed spec fn view(&self) -> ConnDataView {
        ConnDataView { msg_id: self.msg_id, payload: readable(self.data) }
    }
}

impl ConnData {
    /// The message `msg_id` whose payload is the UTF-8 bytes of `data`, which
    /// are no more than the largest buffer takes.
    pub fn from_string(msg_id: u64, data: &str) -> (r: ConnData)
        requires
            data.len() <= MAX_BUF_LEN,
        ensures
            r@.msg_id == msg_id,
            r@.payload == data.spec_bytes(),
    {
        let bytes = data.as_bytes();
        // The length of a slice fits `usize`, so the bound on `data.len()`
        // is a bound on the number of bytes.
        assert(bytes@.len() == bytes.len());
        ConnData { msg_id, data: from_slice(bytes) }
    }

    /// The message id.
    pub fn msg_id(&self) -> (id: u64)
        ensures
            id == self@.msg_id,
    {
        self.msg_id
    }

    /// The length of the payload in bytes.
    pub fn len(&self) -> (n: usize)
        ensures
            n == self@.payload.len(),
    {
        remaining(&self.data)
    }

    /// The wire frame of this message, in a buffer that was reserved once,
    /// for the header and the payload together. A payload longer than
    /// `MAX_PAYLOAD_LEN` is refused, and that is the only failure.
    pub fn encode_to_buf(&self) -> (r: Result<ByteBuf, EncodingFailure>)
        ensures
            match r {
                Ok(buf) => {
                    &&& self@.payload.len() <= MAX_PAYLOAD_LEN
                    &&& readable(buf) == frame_bytes(self@.msg_id, self@.payload)
                    &&& readable(buf).len() == MSG_HEADER_LEN + self@.payload.len()
                    &&& decode_frame(readable(buf)) == Ok::<(u64, Seq<u8>), DecodeError>(
                        (self@.msg_id, self@.payload),
                    )
                },
                Err(e) => {
                    &&& self@.payload.len() > MAX_PAYLOAD_LEN
                    &&& e == EncodingFailure::PayloadTooLong
                },
            },
    {
        let len: usize = remaining(&self.data);
        if len > MAX_PAYLOAD_LEN {
            return Err(EncodingFailure::PayloadTooLong);
        }
        let mut buf = mut_with_capacity(MSG_HEADER_LEN + len);
        let framed = if len == 0 {
            let nothing: Vec<u8> = Vec::new();
            encode_data(&mut buf, self.msg_id, nothing.as_slice())
        } else {
            encode_data(&mut buf, self.msg_id, as_slice(&self.data))
        };
        match framed {
            Ok(()) => {
                proof {
                    lemma_frame_len(self.msg_id, readable(self.data));
                    lemma_decode_inverts_encode(self.msg_id, readable(self.data));
                }
                Ok(flip(buf))
            },
            // The payload is within the limit and the buffer has the room
            // that was asked for, so there is no failure to hand on.
            Err(e) => Err(e),
        }
    }
}

} // verus!
