//! The byte buffers of the `bytes` crate, as the rest of the library sees them.
//!
//! A [`Bytes`] or [`BytesMut`] is opaque to the verifier. [`contents`] and
//! [`written`] name the bytes that one holds, and the contracts below say what
//! each operation does to them. Growing a buffer past what the allocator can
//! give aborts, as it does for a `Vec`.

use bytes::{Buf, BufMut, Bytes, BytesMut};
use vstd::prelude::*;

verus! {

#[verifier::external_type_specification]
#[verifier::external_body]
pub struct ExBytes(bytes::Bytes);

#[verifier::external_type_specification]
#[verifier::external_body]
pub struct ExBytesMut(bytes::BytesMut);

/// The bytes that a `Bytes` has left to read.
pub uninterp spec fn contents(b: Bytes) -> Seq<u8>;

/// The bytes written to a `BytesMut` so far.
pub uninterp spec fn written(b: BytesMut) -> Seq<u8>;

/// `Bytes::new` makes an empty buffer.
pub assume_specification[ Bytes::new ]() -> (b: Bytes)
    ensures
        contents(b) == Seq::<u8>::empty(),
;

/// `Bytes::len` is the number of bytes left.
pub assume_specification[ Bytes::len ](b: &Bytes) -> (n: usize)
    ensures
        n == contents(*b).len(),
;

/// `Bytes::is_empty` tells whether no byte is left.
pub assume_specification[ Bytes::is_empty ](b: &Bytes) -> (r: bool)
    ensures
        r == (contents(*b).len() == 0),
;

/// `Bytes::split_to` hands out the first `at` bytes and keeps the rest. It
/// panics past the end.
pub assume_specification[ Bytes::split_to ](b: &mut Bytes, at: usize) -> (head: Bytes)
    requires
        at <= contents(*old(b)).len(),
    ensures
        contents(head) == contents(*old(b)).take(at as int),
        contents(*final(b)) == contents(*old(b)).skip(at as int),
;

/// `Bytes::clone` shares the same bytes.
pub assume_specification[ <Bytes as Clone>::clone ](b: &Bytes) -> (r: Bytes)
    ensures
        contents(r) == contents(*b),
;

/// `BytesMut::new` makes an empty buffer.
pub assume_specification[ BytesMut::new ]() -> (b: BytesMut)
    ensures
        written(b) == Seq::<u8>::empty(),
;

/// `BytesMut::freeze` turns what was written into a `Bytes`.
pub assume_specification[ BytesMut::freeze ](b: BytesMut) -> (r: Bytes)
    ensures
        contents(r) == written(b),
;

/// `BytesMut::split_to` hands out the first `at` bytes written and keeps the
/// rest. It panics past the end.
pub assume_specification[ BytesMut::split_to ](b: &mut BytesMut, at: usize) -> (head: BytesMut)
    requires
        at <= written(*old(b)).len(),
    ensures
        written(head) == written(*old(b)).take(at as int),
        written(*final(b)) == written(*old(b)).skip(at as int),
;

/// `BytesMut::as_ref`: the bytes written, as a slice.
#[verifier::external_body]
pub(crate) fn written_slice(b: &BytesMut) -> (s: &[u8])
    ensures
        s@ == written(*b),
{
    b.as_ref()
}

/// `Bytes::as_ref`: the bytes left, as a slice.
#[verifier::external_body]
pub(crate) fn as_slice(b: &Bytes) -> (s: &[u8])
    ensures
        s@ == contents(*b),
{
    b.as_ref()
}

/// `Buf::get_u8` on a `Bytes` takes the first byte. It panics on an empty buffer.
#[verifier::external_body]
pub(crate) fn get_u8(b: &mut Bytes) -> (r: u8)
    requires
        contents(*old(b)).len() > 0,
    ensures
        r == contents(*old(b))[0],
        contents(*final(b)) == contents(*old(b)).skip(1),
{
    b.get_u8()
}

/// `BufMut::put_u8` on a `BytesMut` appends one byte.
#[verifier::external_body]
pub(crate) fn put_u8(b: &mut BytesMut, n: u8)
    ensures
        written(*final(b)) == written(*old(b)).push(n),
{
    b.put_u8(n)
}

/// `BufMut::put_slice` on a `BytesMut` appends the slice.
#[verifier::external_body]
pub(crate) fn put_slice(b: &mut BytesMut, src: &[u8])
    ensures
        written(*final(b)) == written(*old(b)) + src@,
{
    b.put_slice(src)
}

} // verus!
