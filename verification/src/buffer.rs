use vstd::prelude::*;
use bytes::{Buf, BufMut, BytesMut};

verus! {

#[verifier::external_type_specification]
#[verifier::external_body]
pub struct ExBytesMut(bytes::BytesMut);

/// The bytes that a `BytesMut` holds, in order.
pub uninterp spec fn bytes_mut_contents(b: BytesMut) -> Seq<u8>;

/// Calls `BytesMut::as_ref`, which gives the slice of all the bytes the buffer holds.
#[verifier::external_body]
pub(crate) fn buffer_bytes(b: &BytesMut) -> (r: &[u8])
    ensures
        r@ == bytes_mut_contents(*b),
{
    b.as_ref()
}

/// Calls `<BytesMut as Buf>::advance`, which drops the first `cnt` bytes (and panics
/// where `cnt` exceeds the length, which `requires` rules out).
#[verifier::external_body]
pub(crate) fn buffer_advance(b: &mut BytesMut, cnt: usize)
    requires
        cnt <= bytes_mut_contents(*old(b)).len(),
    ensures
        bytes_mut_contents(*final(b)) == bytes_mut_contents(*old(b)).skip(cnt as int),
{
    b.advance(cnt)
}

/// Calls `<BytesMut as BufMut>::put_slice`, which appends the bytes of `src`.
#[verifier::external_body]
pub(crate) fn buffer_put_slice(b: &mut BytesMut, src: &[u8])
    ensures
        bytes_mut_contents(*final(b)) == bytes_mut_contents(*old(b)) + src@,
{
    b.put_slice(src)
}

} // verus!
