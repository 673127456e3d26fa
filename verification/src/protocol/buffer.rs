//! The byte buffers of the `bytes` crate, as the codec uses them.

use vstd::prelude::*;
use bytes::Buf;
use bytes::Bytes;
use bytes::BytesMut;

verus! {

/// `bytes::BytesMut`: a byte buffer that can grow and be consumed from the
/// front. Nothing is known of a value but what `buffer_contents` names.
#[verifier::external_type_specification]
#[verifier::external_body]
pub struct ExBytesMut(BytesMut);

/// `bytes::Bytes`: a byte buffer that cannot change. Nothing is known of a
/// value but what `bytes_contents` names.
#[verifier::external_type_specification]
#[verifier::external_body]
pub struct ExBytes(Bytes);

/// The bytes that a `BytesMut` holds, first to last.
pub uninterp spec fn buffer_contents(buf: BytesMut) -> Seq<u8>;

/// The bytes that a `Bytes` holds, first to last.
pub uninterp spec fn bytes_contents(bytes: Bytes) -> Seq<u8>;

/// `BytesMut`'s `Deref` to `[u8]`: the bytes that the buffer holds.
#[verifier::external_body]
pub(crate) fn buffer_slice(buf: &BytesMut) -> (r: &[u8])
    ensures
        r@ == buffer_contents(*buf),
{
    &buf[..]
}

/// `Buf::advance` on a `BytesMut`: drops the first `n` bytes. The crate
/// panics where `n` is more than the buffer holds.
#[verifier::external_body]
pub(crate) fn buffer_advance(buf: &mut BytesMut, n: usize)
    requires
        n <= buffer_contents(*old(buf)).len(),
    ensures
        buffer_contents(*final(buf)) == buffer_contents(*old(buf)).skip(n as int),
{
    buf.advance(n)
}

/// `BytesMut::extend_from_slice`: appends `data` to the buffer.
#[verifier::external_body]
pub(crate) fn buffer_extend(buf: &mut BytesMut, data: &[u8])
    ensures
        buffer_contents(*final(buf)) == buffer_contents(*old(buf)) + data@,
{
    buf.extend_from_slice(data)
}

/// `Bytes::from(Vec<u8>)`: the same bytes as an immutable buffer.
#[verifier::external_body]
pub(crate) fn bytes_from_vec(data: Vec<u8>) -> (r: Bytes)
    ensures
        bytes_contents(r) == data@,
{
    Bytes::from(data)
}

} // verus!
