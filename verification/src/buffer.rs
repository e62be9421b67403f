//! Append-only byte buffers, backed by `bytes::BytesMut`.
//!
//! The buffer type is opaque to the verifier; [`buf_bytes`] names the bytes a
//! buffer holds, and each operation's contract states how it changes them.

use vstd::prelude::*;
use bytes::BufMut;
use bytes::BytesMut;

verus! {

#[verifier::external_type_specification]
#[verifier::external_body]
pub struct ExBytesMut(BytesMut);

/// The bytes held by a `bytes::BytesMut`, in order.
pub uninterp spec fn buf_bytes(b: BytesMut) -> Seq<u8>;

/// Relies on `BytesMut::new`: an empty buffer.
#[verifier::external_body]
pub(crate) fn buf_new() -> (r: BytesMut)
    ensures
        buf_bytes(r) == Seq::<u8>::empty(),
{
    BytesMut::new()
}

/// Relies on `BytesMut::len`: the number of bytes held.
#[verifier::external_body]
pub(crate) fn buf_len(b: &BytesMut) -> (r: usize)
    ensures
        r == buf_bytes(*b).len(),
{
    b.len()
}

/// Relies on `BufMut::put_u8` for `BytesMut`: appends one byte, growing the
/// buffer as needed.
#[verifier::external_body]
pub(crate) fn buf_put_u8(b: &mut BytesMut, v: u8)
    ensures
        buf_bytes(*final(b)) == buf_bytes(*old(b)).push(v),
{
    b.put_u8(v)
}

/// Relies on `BufMut::put_slice` for `BytesMut` (`extend_from_slice`):
/// appends the slice's bytes.
#[verifier::external_body]
pub(crate) fn buf_put_slice(b: &mut BytesMut, data: &[u8])
    ensures
        buf_bytes(*final(b)) == buf_bytes(*old(b)) + data@,
{
    b.put_slice(data)
}

/// Relies on `BytesMut::split` and `Extend<u8>` for `BytesMut`: moves the
/// bytes of `src` to the end of `dst`, leaving `src` empty.
#[verifier::external_body]
pub(crate) fn buf_append_split(dst: &mut BytesMut, src: &mut BytesMut)
    ensures
        buf_bytes(*final(dst)) == buf_bytes(*old(dst)) + buf_bytes(*old(src)),
        buf_bytes(*final(src)) == Seq::<u8>::empty(),
{
    dst.extend(src.split())
}

/// Relies on `Deref<Target = [u8]>` for `BytesMut` and `slice::to_vec`:
/// copies the buffer's bytes out.
#[verifier::external_body]
pub(crate) fn buf_to_vec(b: &BytesMut) -> (r: Vec<u8>)
    ensures
        r@ == buf_bytes(*b),
{
    b.as_ref().to_vec()
}

} // verus!
