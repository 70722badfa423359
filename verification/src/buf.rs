//! The boundary to the `bytes` crate: its two contiguous buffers, what they
//! hold, and the calls the library makes on them. Nothing here is proved; each
//! contract states what the crate's source shows.

use vstd::prelude::*;

use bytes::Buf;
use bytes::ByteBuf;
use bytes::MutBuf;
use bytes::MutByteBuf;

verus! {

/// `bytes::ByteBuf`: a buffer that is read from.
#[verifier::external_type_specification]
#[verifier::external_body]
pub struct ExByteBuf(ByteBuf);

/// `bytes::MutByteBuf`: a buffer that is written to.
#[verifier::external_type_specification]
#[verifier::external_body]
pub struct ExMutByteBuf(MutByteBuf);

/// The bytes a `ByteBuf` has left to read, in order.
pub uninterp spec fn readable(buf: ByteBuf) -> Seq<u8>;

/// The bytes written to a `MutByteBuf` so far, in order.
pub uninterp spec fn written(buf: MutByteBuf) -> Seq<u8>;

/// The number of bytes a `MutByteBuf` holds when it is full: what
/// `MutByteBuf::capacity` returns. It is fixed when the buffer is made, and
/// follows from the capacity asked for alone.
pub uninterp spec fn capacity(buf: MutByteBuf) -> nat;

/// The largest capacity a buffer is asked for. The crate counts in 32 bits
/// and rounds a request up to a power of two; this is the largest request
/// that can then be served on every target.
pub const MAX_BUF_LEN: usize = 0x4000_0000;

/// `ByteBuf::from_slice`: a buffer that reads back exactly the bytes of `src`.
#[verifier::external_body]
pub(crate) fn from_slice(src: &[u8]) -> (buf: ByteBuf)
    requires
        src@.len() <= MAX_BUF_LEN,
    ensures
        readable(buf) == src@,
{
    ByteBuf::from_slice(src)
}

/// `Buf::remaining` on a `ByteBuf`: how many bytes are left to read.
#[verifier::external_body]
pub(crate) fn remaining(buf: &ByteBuf) -> (n: usize)
    ensures
        n == readable(*buf).len(),
{
    Buf::remaining(buf)
}

/// `Buf::bytes` on a `ByteBuf`: the bytes left to read, borrowed. An empty
/// buffer may own no memory at all, and the call is not made on one.
#[verifier::external_body]
pub(crate) fn as_slice(buf: &ByteBuf) -> (s: &[u8])
    requires
        readable(*buf).len() > 0,
    ensures
        s@ == readable(*buf),
{
    Buf::bytes(buf)
}

/// `ByteBuf::mut_with_capacity`: an empty buffer with room for at least
/// `cap` bytes.
#[verifier::external_body]
pub(crate) fn mut_with_capacity(cap: usize) -> (buf: MutByteBuf)
    requires
        cap <= MAX_BUF_LEN,
    ensures
        written(buf) == Seq::<u8>::empty(),
        capacity(buf) >= cap,
{
    ByteBuf::mut_with_capacity(cap)
}

/// `MutBuf::remaining` on a `MutByteBuf`: the room that is left.
#[verifier::external_body]
pub(crate) fn room(buf: &MutByteBuf) -> (n: usize)
    ensures
        n + written(*buf).len() == capacity(*buf),
{
    MutBuf::remaining(buf)
}

/// `MutByteBuf::write_slice`, called only where all of `src` fits: `src` is
/// appended and its length returned.
#[verifier::external_body]
pub(crate) fn write_slice(buf: &mut MutByteBuf, src: &[u8]) -> (n: usize)
    requires
        0 < src@.len(),
        written(*old(buf)).len() + src@.len() <= capacity(*old(buf)),
    ensures
        n == src@.len(),
        written(*final(buf)) == written(*old(buf)) + src@,
        capacity(*final(buf)) == capacity(*old(buf)),
{
    buf.write_slice(src)
}

/// `MutByteBuf::flip`: the buffer that reads back, from the start, what was
/// written.
#[verifier::external_body]
pub(crate) fn flip(buf: MutByteBuf) -> (r: ByteBuf)
    ensures
        readable(r) == written(buf),
{
    buf.flip()
}

} // verus!
