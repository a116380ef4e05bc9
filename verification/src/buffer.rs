//! The drain buffer of one direction of a flow: a `BytesMut` and what is
//! known of it.

use bytes::BufMut;
use bytes::BytesMut;
use vstd::prelude::*;

verus! {

/// Capacity of one direction's buffer: while a buffer holds this much or
/// more, nothing is read into it.
pub const BUF_LEN: usize = 10 * 4096;

/// `bytes::BytesMut`, a growable byte buffer, taken as it is: what it
/// holds is known through `contents` alone.
#[verifier::external_type_specification]
#[verifier::external_body]
pub struct ExBytesMut(BytesMut);

/// The bytes that a buffer holds, oldest first.
pub uninterp spec fn contents(buf: BytesMut) -> Seq<u8>;

/// `BytesMut::with_capacity`: the new buffer holds no bytes. The capacity
/// goes to `Vec::with_capacity`, which refuses more than `isize::MAX`.
pub assume_specification[ BytesMut::with_capacity ](capacity: usize) -> (buf: BytesMut)
    requires
        capacity <= isize::MAX,
    ensures
        contents(buf) == Seq::<u8>::empty(),
;

/// `BytesMut::len`: the number of bytes held.
pub assume_specification[ BytesMut::len ](buf: &BytesMut) -> (n: usize)
    ensures
        n == contents(*buf).len(),
;

/// `BytesMut::is_empty`: whether no byte is held.
pub assume_specification[ BytesMut::is_empty ](buf: &BytesMut) -> (e: bool)
    ensures
        e == (contents(*buf).len() == 0),
;

/// `BytesMut::clear`: every byte is dropped.
pub assume_specification[ BytesMut::clear ](buf: &mut BytesMut)
    ensures
        contents(*final(buf)) == Seq::<u8>::empty(),
;

/// `BytesMut::split_to`: the first `at` bytes leave the buffer and come
/// back as a buffer of their own; the rest stays, in order. The call
/// panics where `at` exceeds the length.
pub assume_specification[ BytesMut::split_to ](buf: &mut BytesMut, at: usize) -> (head: BytesMut)
    requires
        at <= contents(*old(buf)).len(),
    ensures
        contents(head) == contents(*old(buf)).take(at as int),
        contents(*final(buf)) == contents(*old(buf)).skip(at as int),
;

/// `BufMut::put_slice` on a `BytesMut`, which grows the buffer as needed
/// and appends `src` behind what is held. The new length has to stay
/// within what one allocation can hold.
#[verifier::external_body]
pub(crate) fn put_slice(buf: &mut BytesMut, src: &[u8])
    requires
        contents(*old(buf)).len() + src@.len() <= isize::MAX,
    ensures
        contents(*final(buf)) == contents(*old(buf)) + src@,
{
    buf.put_slice(src)
}

/// The held bytes as a slice, through `Deref` of `BytesMut`.
#[verifier::external_body]
pub(crate) fn as_slice(buf: &BytesMut) -> (s: &[u8])
    ensures
        s@ == contents(*buf),
{
    &buf[..]
}

} // verus!
