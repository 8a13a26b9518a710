//! Bytes on their way from one end of a session to the other, kept in
//! `bytes::BytesMut`.

use bytes::{Buf, BytesMut};
use vstd::prelude::*;

verus! {

/// How many bytes a buffer may come to hold. A `BytesMut` grows when the bytes
/// it holds, those it takes in and the unused space at its front don't fit, the
/// unused space being less than the former two. Doubled, which is what it grows
/// to, that still fits in what can be allocated at once.
pub const MAX_BUFFERED: usize = usize::MAX / 8;

/// The growable byte buffer of the `bytes` crate.
#[verifier::external_type_specification]
#[verifier::external_body]
pub struct ExBytesMut(BytesMut);

/// The bytes a buffer holds, the oldest first.
pub uninterp spec fn buffered(buffer: BytesMut) -> Seq<u8>;

/// Calls `BytesMut::with_capacity`, which makes an empty buffer.
#[verifier::external_body]
pub(crate) fn with_capacity(capacity: usize) -> (buffer: BytesMut)
    requires
        capacity <= MAX_BUFFERED,
    ensures
        buffered(buffer) == Seq::<u8>::empty(),
{
    BytesMut::with_capacity(capacity)
}

/// Calls `BytesMut::extend_from_slice`, which adds the bytes of a slice to
/// the end of the buffer.
#[verifier::external_body]
pub(crate) fn extend_from_slice(buffer: &mut BytesMut, data: &[u8])
    requires
        buffered(*old(buffer)).len() + data@.len() <= MAX_BUFFERED,
    ensures
        buffered(*final(buffer)) == buffered(*old(buffer)) + data@,
{
    buffer.extend_from_slice(data);
}

/// Calls `Buf::advance` on a `BytesMut`, which drops bytes from the front of
/// the buffer. It panics when the buffer holds fewer.
#[verifier::external_body]
pub(crate) fn advance(buffer: &mut BytesMut, count: usize)
    requires
        count <= buffered(*old(buffer)).len(),
    ensures
        buffered(*final(buffer)) == buffered(*old(buffer)).skip(count as int),
{
    buffer.advance(count);
}

/// Calls `BytesMut::is_empty`, which tells whether the buffer holds no bytes.
#[verifier::external_body]
pub(crate) fn is_empty(buffer: &BytesMut) -> (empty: bool)
    ensures
        empty == (buffered(*buffer).len() == 0),
{
    buffer.is_empty()
}

/// Calls `BytesMut::as_ref`, which gives access to the bytes of the buffer.
#[verifier::external_body]
pub(crate) fn as_slice(buffer: &BytesMut) -> (data: &[u8])
    ensures
        data@ == buffered(*buffer),
{
    buffer.as_ref()
}

} // verus!
