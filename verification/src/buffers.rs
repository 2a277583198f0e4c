//! The byte buffers of the `bytes` crate: `BytesMut`, which grows, and
//! `Bytes`, which is shared.

use bytes::{Bytes, BytesMut};
use vstd::prelude::*;

verus! {

/// The shared byte buffer of the `bytes` crate.
#[verifier::external_type_specification]
#[verifier::external_body]
pub struct ExBytes(bytes::Bytes);

/// The growing byte buffer of the `bytes` crate.
#[verifier::external_type_specification]
#[verifier::external_body]
pub struct ExBytesMut(bytes::BytesMut);

/// The bytes that a shared buffer holds.
pub uninterp spec fn shared_bytes(b: bytes::Bytes) -> Seq<u8>;

/// The bytes that a growing buffer holds.
pub uninterp spec fn grown_bytes(b: bytes::BytesMut) -> Seq<u8>;

/// `BytesMut::with_capacity` makes an empty buffer. It would panic only on a
/// capacity beyond `isize::MAX`.
pub assume_specification[ BytesMut::with_capacity ](capacity: usize) -> (res: BytesMut)
    requires
        capacity <= isize::MAX,
    ensures
        grown_bytes(res) == Seq::<u8>::empty(),
;

/// `BytesMut::extend_from_slice` appends the bytes of the slice. Growing may
/// double the capacity, which must not pass `isize::MAX`.
pub assume_specification[ BytesMut::extend_from_slice ](buf: &mut BytesMut, extend: &[u8])
    requires
        2 * (grown_bytes(*old(buf)).len() + extend@.len()) <= isize::MAX,
    ensures
        grown_bytes(*final(buf)) == grown_bytes(*old(buf)) + extend@,
;

/// `BytesMut::freeze` turns the buffer into a shared one with the same bytes.
pub assume_specification[ BytesMut::freeze ](buf: BytesMut) -> (res: Bytes)
    ensures
        shared_bytes(res) == grown_bytes(buf),
;

/// `BytesMut` dereferences to the slice of the bytes that it holds.
#[verifier::external_body]
pub(crate) fn grown_slice(buf: &BytesMut) -> (res: &[u8])
    ensures
        res@ == grown_bytes(*buf),
{
    &buf[..]
}

/// `Bytes` dereferences to the slice of the bytes that it holds.
#[verifier::external_body]
pub(crate) fn shared_slice(buf: &Bytes) -> (res: &[u8])
    ensures
        res@ == shared_bytes(*buf),
{
    &buf[..]
}

/// `Bytes::from` on a vector takes over the bytes of the vector.
#[verifier::external_body]
pub(crate) fn shared_from_vec(bytes: Vec<u8>) -> (res: Bytes)
    ensures
        shared_bytes(res) == bytes@,
{
    Bytes::from(bytes)
}

/// `Bytes::clone` hands out another handle on the same bytes.
#[verifier::external_body]
pub(crate) fn shared_clone(buf: &Bytes) -> (res: Bytes)
    ensures
        shared_bytes(res) == shared_bytes(*buf),
{
    buf.clone()
}

} // verus!
