//! The fields that frames and transport parameters are made of.
//!
//! A field is read off the front of the input. The only way to fail is for the
//! input to end too early, so a reading is `None` there and otherwise the field
//! and the input after it.

use bytes::{Bytes, BytesMut};
use vstd::prelude::*;

use super::varint::{
    VARINT_MAX, VarInt, encoding, lemma_parse_bounds, lemma_parse_prefix, lemma_round_trip, parse,
};
use crate::buffer::{contents, put_slice, written};
use crate::qmux::error::Error;

verus! {

/// One integer.
pub open spec fn one(s: Seq<u8>) -> Option<(u64, Seq<u8>)> {
    match parse(s) {
        Some((v, n)) => Some((v, s.skip(n as int))),
        None => None,
    }
}

/// Two integers.
pub open spec fn two(s: Seq<u8>) -> Option<(u64, u64, Seq<u8>)> {
    match one(s) {
        Some((a, s)) => match one(s) {
            Some((b, s)) => Some((a, b, s)),
            None => None,
        },
        None => None,
    }
}

/// Three integers.
pub open spec fn three(s: Seq<u8>) -> Option<(u64, u64, u64, Seq<u8>)> {
    match two(s) {
        Some((a, b, s)) => match one(s) {
            Some((c, s)) => Some((a, b, c, s)),
            None => None,
        },
        None => None,
    }
}

/// A length and as many bytes.
pub open spec fn prefixed(s: Seq<u8>) -> Option<(Seq<u8>, Seq<u8>)> {
    match one(s) {
        Some((len, s)) if len <= s.len() => Some((s.take(len as int), s.skip(len as int))),
        _ => None,
    }
}

/// The length of `b` and its bytes.
pub open spec fn prefixed_encoding(b: Seq<u8>) -> Seq<u8> {
    encoding(b.len() as u64) + b
}

/// An integer reads back as itself and leaves what follows.
pub proof fn lemma_one(v: u64, rest: Seq<u8>)
    requires
        v <= VARINT_MAX,
    ensures
        one(encoding(v) + rest) == Some((v, rest)),
{
    lemma_round_trip(v, rest);
    assert((encoding(v) + rest).skip(encoding(v).len() as int) =~= rest);
}

/// Bytes behind their length read back as themselves.
pub proof fn lemma_prefixed(b: Seq<u8>, rest: Seq<u8>)
    requires
        b.len() <= VARINT_MAX,
    ensures
        prefixed(prefixed_encoding(b) + rest) == Some((b, rest)),
{
    let len = b.len() as u64;
    assert(prefixed_encoding(b) + rest =~= encoding(len) + (b + rest));
    lemma_one(len, b + rest);
    assert((b + rest).take(len as int) =~= b);
    assert((b + rest).skip(len as int) =~= rest);
}

/// Reading consumes at least one byte and nothing but a prefix.
pub proof fn lemma_one_shrinks(s: Seq<u8>)
    ensures
        one(s) matches Some((v, rest)) ==> rest.len() < s.len() && v <= VARINT_MAX,
{
    lemma_parse_bounds(s);
}

/// An integer that is all there reads the same when more follows.
pub proof fn lemma_one_more(s: Seq<u8>, more: Seq<u8>)
    ensures
        one(s) matches Some((v, rest)) ==> one(s + more) == Some((v, rest + more)),
{
    if let Some((_, n)) = parse(s) {
        lemma_parse_bounds(s);
        lemma_parse_prefix(s, more);
        assert((s + more).skip(n as int) =~= s.skip(n as int) + more);
    }
}

/// Bytes behind their length that are all there read the same when more follows.
pub proof fn lemma_prefixed_more(s: Seq<u8>, more: Seq<u8>)
    ensures
        prefixed(s) matches Some((b, rest)) ==> prefixed(s + more) == Some((b, rest + more)),
{
    lemma_one_more(s, more);
    if let Some((len, rest)) = one(s) {
        if len <= rest.len() {
            assert((rest + more).take(len as int) =~= rest.take(len as int));
            assert((rest + more).skip(len as int) =~= rest.skip(len as int) + more);
        }
    }
}

/// Take one integer.
pub(crate) fn read_one(data: &mut Bytes) -> (r: Result<VarInt, Error>)
    ensures
        match one(contents(*old(data))) {
            Some((v, rest)) => {
                &&& r matches Ok(x)
                &&& x@ == v
                &&& v <= VARINT_MAX
                &&& contents(*final(data)) == rest
            },
            None => r matches Err(e) && e is Short,
        },
{
    match VarInt::decode(data) {
        Ok(v) => Ok(v),
        Err(e) => Err(Error::from(e)),
    }
}

/// Take two integers.
pub(crate) fn read_two(data: &mut Bytes) -> (r: Result<(VarInt, VarInt), Error>)
    ensures
        match two(contents(*old(data))) {
            Some((a, b, rest)) => {
                &&& r matches Ok((x, y))
                &&& x@ == a
                &&& y@ == b
                &&& contents(*final(data)) == rest
            },
            None => r matches Err(e) && e is Short,
        },
{
    let a = read_one(data)?;
    let b = read_one(data)?;
    Ok((a, b))
}

/// Take three integers.
pub(crate) fn read_three(data: &mut Bytes) -> (r: Result<(VarInt, VarInt, VarInt), Error>)
    ensures
        match three(contents(*old(data))) {
            Some((a, b, c, rest)) => {
                &&& r matches Ok((x, y, z))
                &&& x@ == a
                &&& y@ == b
                &&& z@ == c
                &&& contents(*final(data)) == rest
            },
            None => r matches Err(e) && e is Short,
        },
{
    let (a, b) = read_two(data)?;
    let c = read_one(data)?;
    Ok((a, b, c))
}

/// Take a length and as many bytes.
pub(crate) fn read_prefixed(data: &mut Bytes) -> (r: Result<Bytes, Error>)
    ensures
        match prefixed(contents(*old(data))) {
            Some((b, rest)) => {
                &&& r matches Ok(x)
                &&& contents(x) == b
                &&& contents(*final(data)) == rest
            },
            None => r matches Err(e) && e is Short,
        },
{
    let len: u64 = read_one(data)?.into_inner();
    if (data.len() as u64) < len {
        return Err(Error::Short);
    }
    Ok(data.split_to(len as usize))
}

/// Append an integer that may be out of range.
pub(crate) fn put_value(buf: &mut BytesMut, v: u64) -> (r: Result<(), Error>)
    ensures
        match r {
            Ok(_) => v <= VARINT_MAX && written(*final(buf)) == written(*old(buf)) + encoding(v),
            Err(e) => v > VARINT_MAX && e is FlowControlError,
        },
{
    match VarInt::from_u64(v) {
        Ok(x) => {
            x.encode(buf);
            Ok(())
        },
        Err(e) => Err(Error::from(e)),
    }
}

/// Append the length of `b` and its bytes.
pub(crate) fn put_prefixed(buf: &mut BytesMut, b: &[u8]) -> (r: Result<(), Error>)
    ensures
        match r {
            Ok(_) => b@.len() <= VARINT_MAX && written(*final(buf)) == written(*old(buf))
                + prefixed_encoding(b@),
            Err(e) => b@.len() > VARINT_MAX && e is FlowControlError,
        },
{
    put_value(buf, b.len() as u64)?;
    put_slice(buf, b);
    assert(written(*buf) =~= written(*old(buf)) + prefixed_encoding(b@));
    Ok(())
}

/// Law: bytes behind a length are read only where all of them are there, and what
/// stands in front of them is their number.
pub proof fn lemma_prefix_tells_length(len: u64, s: Seq<u8>)
    requires
        len <= VARINT_MAX,
    ensures
        len > s.len() ==> prefixed(encoding(len) + s) is None,
        len <= s.len() ==> prefixed(encoding(len) + s) == Some(
            (s.take(len as int), s.skip(len as int)),
        ),
        s.len() <= u64::MAX ==> prefixed_encoding(s) == encoding(s.len() as u64) + s,
{
    lemma_one(len, s);
}

} // verus!
