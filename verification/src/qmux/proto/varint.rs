//! Variable-length integers (RFC 9000, section 16).
//!
//! The top two bits of the first byte give the length of the encoding: 1, 2, 4
//! or 8 bytes. The remaining bits are the value, most significant byte first.

use bytes::{Bytes, BytesMut};
use vstd::prelude::*;

use crate::buffer::{as_slice, contents, put_u8, written};

verus! {

/// The largest value a variable-length integer can carry: 62 bits.
pub const VARINT_MAX: u64 = 0x3fff_ffff_ffff_ffff;

/// The number of bytes of an encoding, as its first byte tells it.
pub open spec fn encoded_len(first: u8) -> nat {
    if first < 0x40 {
        1
    } else if first < 0x80 {
        2
    } else if first < 0xc0 {
        4
    } else {
        8
    }
}

/// The number that `s` writes down, most significant byte first.
pub open spec fn big_endian(s: Seq<u8>) -> nat
    decreases s.len(),
{
    if s.len() == 0 {
        0
    } else {
        big_endian(s.drop_last()) * 256 + s.last() as nat
    }
}

/// The value at the front of `s` and the number of bytes it takes, or `None`
/// where `s` ends too early.
pub open spec fn parse(s: Seq<u8>) -> Option<(u64, nat)> {
    if s.len() == 0 || s.len() < encoded_len(s[0]) {
        None
    } else {
        let n = encoded_len(s[0]);
        Some((big_endian(s.take(n as int).update(0, s[0] % 64)) as u64, n))
    }
}

/// The number of bytes of the shortest encoding of `v`.
pub open spec fn size_of_varint(v: u64) -> nat {
    if v < 0x40 {
        1
    } else if v < 0x4000 {
        2
    } else if v < 0x4000_0000 {
        4
    } else {
        8
    }
}

/// The shortest encoding of `v`.
pub open spec fn encoding(v: u64) -> Seq<u8> {
    if v < 0x40 {
        seq![v as u8]
    } else if v < 0x4000 {
        seq![(0x40 + v / 0x100) as u8, (v % 0x100) as u8]
    } else if v < 0x4000_0000 {
        seq![
            (0x80 + v / 0x100_0000) as u8,
            (v / 0x1_0000 % 0x100) as u8,
            (v / 0x100 % 0x100) as u8,
            (v % 0x100) as u8,
        ]
    } else {
        seq![
            (0xc0 + v / 0x100_0000_0000_0000) as u8,
            (v / 0x1_0000_0000_0000 % 0x100) as u8,
            (v / 0x100_0000_0000 % 0x100) as u8,
            (v / 0x1_0000_0000 % 0x100) as u8,
            (v / 0x100_0000 % 0x100) as u8,
            (v / 0x1_0000 % 0x100) as u8,
            (v / 0x100 % 0x100) as u8,
            (v % 0x100) as u8,
        ]
    }
}

/// `big_endian` of the lengths in use, written out.
proof fn lemma_big_endian_unrolled(s: Seq<u8>)
    ensures
        s.len() == 1 ==> big_endian(s) == s[0],
        s.len() == 2 ==> big_endian(s) == s[0] * 0x100 + s[1],
        s.len() == 4 ==> big_endian(s) == s[0] * 0x100_0000 + s[1] * 0x1_0000 + s[2] * 0x100 + s[3],
        s.len() == 8 ==> big_endian(s) == s[0] * 0x100_0000_0000_0000 + s[1] * 0x1_0000_0000_0000
            + s[2] * 0x100_0000_0000 + s[3] * 0x1_0000_0000 + s[4] * 0x100_0000 + s[5] * 0x1_0000
            + s[6] * 0x100 + s[7],
{
    reveal_with_fuel(big_endian, 9);
}

/// A parsed value has at most 62 bits, and its bytes are there.
pub proof fn lemma_parse_bounds(s: Seq<u8>)
    ensures
        parse(s) matches Some((v, n)) ==> v <= VARINT_MAX && 1 <= n <= 8 && n <= s.len(),
{
    if let Some((v, n)) = parse(s) {
        let t = s.take(n as int).update(0, s[0] % 64);
        lemma_big_endian_unrolled(t);
        assert(t[0] < 64);
    }
}

/// Parsing looks at no byte past the encoding.
pub proof fn lemma_parse_prefix(s: Seq<u8>, rest: Seq<u8>)
    requires
        parse(s) is Some,
    ensures
        parse(s + rest) == parse(s),
{
    let n = encoded_len(s[0]) as int;
    assert((s + rest)[0] == s[0]);
    assert((s + rest).take(n) =~= s.take(n));
}

/// A number is put together again from its bytes.
proof fn lemma_bytes_of_value(v: u64)
    ensures
        v == v / 0x100 * 0x100 + v % 0x100,
        v == v / 0x100_0000 * 0x100_0000 + v / 0x1_0000 % 0x100 * 0x1_0000 + v / 0x100 % 0x100
            * 0x100 + v % 0x100,
        v == v / 0x100_0000_0000_0000 * 0x100_0000_0000_0000 + v / 0x1_0000_0000_0000 % 0x100
            * 0x1_0000_0000_0000 + v / 0x100_0000_0000 % 0x100 * 0x100_0000_0000 + v / 0x1_0000_0000
            % 0x100 * 0x1_0000_0000 + v / 0x100_0000 % 0x100 * 0x100_0000 + v / 0x1_0000 % 0x100
            * 0x1_0000 + v / 0x100 % 0x100 * 0x100 + v % 0x100,
{
    let q1 = v / 0x100;
    let q2 = q1 / 0x100;
    let q3 = q2 / 0x100;
    let q4 = q3 / 0x100;
    let q5 = q4 / 0x100;
    let q6 = q5 / 0x100;
    let q7 = q6 / 0x100;
    assert(v / 0x1_0000 == q2);
    assert(v / 0x100_0000 == q3);
    assert(v / 0x1_0000_0000 == q4);
    assert(v / 0x100_0000_0000 == q5);
    assert(v / 0x1_0000_0000_0000 == q6);
    assert(v / 0x100_0000_0000_0000 == q7);
    assert(v == q1 * 0x100 + v % 0x100);
    assert(q1 == q2 * 0x100 + q1 % 0x100);
    assert(q2 == q3 * 0x100 + q2 % 0x100);
    assert(q3 == q4 * 0x100 + q3 % 0x100);
    assert(q4 == q5 * 0x100 + q4 % 0x100);
    assert(q5 == q6 * 0x100 + q5 % 0x100);
    assert(q6 == q7 * 0x100 + q6 % 0x100);
}

/// Law: what `encoding` writes, `parse` reads back, whatever follows it.
pub proof fn lemma_round_trip(v: u64, rest: Seq<u8>)
    requires
        v <= VARINT_MAX,
    ensures
        parse(encoding(v) + rest) == Some((v, size_of_varint(v))),
        encoding(v).len() == size_of_varint(v),
{
    let e = encoding(v);
    let t = e.update(0, e[0] % 64);
    lemma_bytes_of_value(v);
    lemma_big_endian_unrolled(t);
    assert((e + rest)[0] == e[0]);
    assert((e + rest).take(e.len() as int) =~= e);
}

/// A value that does not fit in 62 bits.
#[derive(Debug, Clone, Copy, PartialEq, Eq, Structural)]
pub struct VarIntBoundsExceeded;

/// The input ended before the integer did.
#[derive(Debug, Clone, Copy, PartialEq, Eq, Structural)]
pub struct VarIntUnexpectedEnd;

/// An integer of at most 62 bits.
#[derive(Debug, Clone, Copy, PartialEq, Eq, Structural, PartialOrd, Ord, Hash)]
pub struct VarInt(u64);

impl View for VarInt {
    type V = u64;

    closed spec fn view(&self) -> u64 {
        self.0
    }
}

impl VarInt {
    #[verifier::type_invariant]
    spec fn fits(self) -> bool {
        self.0 <= VARINT_MAX
    }

    /// Any `u32` fits.
    pub fn from_u32(v: u32) -> (r: VarInt)
        ensures
            r@ == v,
    {
        VarInt(v as u64)
    }

    /// The integer, if it has at most 62 bits.
    pub fn from_u64(v: u64) -> (r: Result<VarInt, VarIntBoundsExceeded>)
        ensures
            r matches Ok(x) ==> v <= VARINT_MAX && x@ == v,
            r is Err ==> v > VARINT_MAX,
    {
        if v <= VARINT_MAX {
            Ok(VarInt(v))
        } else {
            Err(VarIntBoundsExceeded)
        }
    }

    /// The value.
    pub fn into_inner(self) -> (v: u64)
        ensures
            v == self@,
            v <= VARINT_MAX,
    {
        proof {
            use_type_invariant(&self);
        }
        self.0
    }

    /// Append the shortest encoding.
    pub fn encode(&self, buf: &mut BytesMut)
        ensures
            written(*final(buf)) == written(*old(buf)) + encoding(self@),
            self@ <= VARINT_MAX,
    {
        proof {
            use_type_invariant(self);
        }
        let v: u64 = self.0;
        if v < 0x40 {
            put_u8(buf, v as u8);
        } else if v < 0x4000 {
            put_u8(buf, (0x40 + v / 0x100) as u8);
            put_u8(buf, (v % 0x100) as u8);
        } else if v < 0x4000_0000 {
            put_u8(buf, (0x80 + v / 0x100_0000) as u8);
            put_u8(buf, (v / 0x1_0000 % 0x100) as u8);
            put_u8(buf, (v / 0x100 % 0x100) as u8);
            put_u8(buf, (v % 0x100) as u8);
        } else {
            put_u8(buf, (0xc0 + v / 0x100_0000_0000_0000) as u8);
            put_u8(buf, (v / 0x1_0000_0000_0000 % 0x100) as u8);
            put_u8(buf, (v / 0x100_0000_0000 % 0x100) as u8);
            put_u8(buf, (v / 0x1_0000_0000 % 0x100) as u8);
            put_u8(buf, (v / 0x100_0000 % 0x100) as u8);
            put_u8(buf, (v / 0x1_0000 % 0x100) as u8);
            put_u8(buf, (v / 0x100 % 0x100) as u8);
            put_u8(buf, (v % 0x100) as u8);
        }
        assert(written(*buf) =~= written(*old(buf)) + encoding(v));
    }

    /// Take an integer off the front of `buf`, which is left alone where it ends
    /// too early.
    pub fn decode(buf: &mut Bytes) -> (r: Result<VarInt, VarIntUnexpectedEnd>)
        ensures
            match parse(contents(*old(buf))) {
                Some((v, n)) => {
                    &&& r matches Ok(x)
                    &&& x@ == v
                    &&& v <= VARINT_MAX
                    &&& contents(*final(buf)) == contents(*old(buf)).skip(n as int)
                },
                None => r is Err && contents(*final(buf)) == contents(*old(buf)),
            },
    {
        proof {
            lemma_parse_bounds(contents(*buf));
        }
        let head: Option<(u64, usize)> = parse_slice(as_slice(buf));
        match head {
            Some((v, n)) => {
                let _ = buf.split_to(n);
                Ok(VarInt(v))
            },
            None => Err(VarIntUnexpectedEnd),
        }
    }
}

impl From<u32> for VarInt {
    fn from(v: u32) -> (r: VarInt)
        ensures
            r@ == v,
    {
        VarInt(v as u64)
    }
}

impl vstd::std_specs::convert::FromSpecImpl<u32> for VarInt {
    open spec fn obeys_from_spec() -> bool {
        true
    }

    closed spec fn from_spec(v: u32) -> VarInt {
        VarInt(v as u64)
    }
}

impl TryFrom<u64> for VarInt {
    type Error = VarIntBoundsExceeded;

    fn try_from(v: u64) -> (r: Result<VarInt, VarIntBoundsExceeded>)
        ensures
            r matches Ok(x) ==> v <= VARINT_MAX && x@ == v,
            r is Err ==> v > VARINT_MAX,
    {
        if v <= VARINT_MAX {
            Ok(VarInt(v))
        } else {
            Err(VarIntBoundsExceeded)
        }
    }
}

impl vstd::std_specs::convert::TryFromSpecImpl<u64> for VarInt {
    open spec fn obeys_try_from_spec() -> bool {
        true
    }

    closed spec fn try_from_spec(v: u64) -> Result<VarInt, VarIntBoundsExceeded> {
        if v <= VARINT_MAX {
            Ok(VarInt(v))
        } else {
            Err(VarIntBoundsExceeded)
        }
    }
}

impl TryFrom<usize> for VarInt {
    type Error = VarIntBoundsExceeded;

    fn try_from(v: usize) -> (r: Result<VarInt, VarIntBoundsExceeded>)
        ensures
            r matches Ok(x) ==> v <= VARINT_MAX && x@ == v,
            r is Err ==> v > VARINT_MAX,
    {
        let v: u64 = v as u64;
        if v <= VARINT_MAX {
            Ok(VarInt(v))
        } else {
            Err(VarIntBoundsExceeded)
        }
    }
}

impl vstd::std_specs::convert::TryFromSpecImpl<usize> for VarInt {
    open spec fn obeys_try_from_spec() -> bool {
        true
    }

    closed spec fn try_from_spec(v: usize) -> Result<VarInt, VarIntBoundsExceeded> {
        if v <= VARINT_MAX {
            Ok(VarInt(v as u64))
        } else {
            Err(VarIntBoundsExceeded)
        }
    }
}

/// The integer at the front of `s` and the number of bytes it takes.
pub fn parse_slice(s: &[u8]) -> (r: Option<(u64, usize)>)
    ensures
        match parse(s@) {
            Some((v, n)) => r == Some((v, n as usize)) && n <= 8 && n <= s@.len(),
            None => r is None,
        },
{
    if s.len() == 0 {
        return None;
    }
    let first: u8 = s[0];
    let top: u64 = (first % 64) as u64;
    proof {
        let n = encoded_len(first) as int;
        lemma_parse_bounds(s@);
        if n <= s@.len() {
            lemma_big_endian_unrolled(s@.take(n).update(0, first % 64));
        }
    }
    if first < 0x40 {
        Some((top, 1))
    } else if first < 0x80 {
        if s.len() < 2 {
            return None;
        }
        Some((top * 0x100 + s[1] as u64, 2))
    } else if first < 0xc0 {
        if s.len() < 4 {
            return None;
        }
        Some((top * 0x100_0000 + s[1] as u64 * 0x1_0000 + s[2] as u64 * 0x100 + s[3] as u64, 4))
    } else {
        if s.len() < 8 {
            return None;
        }
        let high: u64 = top * 0x100_0000_0000_0000 + s[1] as u64 * 0x1_0000_0000_0000 + s[2] as u64
            * 0x100_0000_0000 + s[3] as u64 * 0x1_0000_0000;
        let low: u64 = s[4] as u64 * 0x100_0000 + s[5] as u64 * 0x1_0000 + s[6] as u64 * 0x100
            + s[7] as u64;
        Some((high + low, 8))
    }
}

/// Law: the top two bits of the first byte tell how long an encoding is, and the other
/// bits are the digits of the value to the base 256. No shorter encoding exists.
pub proof fn lemma_encoding_bytes(v: u64)
    requires
        v <= VARINT_MAX,
    ensures
        ({
            let e = encoding(v);
            let top = (e[0] % 64) as int;
            &&& e.len() == size_of_varint(v)
            &&& v < 64 ==> e.len() == 1
            &&& 64 <= v < 16384 ==> e.len() == 2
            &&& 16384 <= v < 1073741824 ==> e.len() == 4
            &&& v >= 1073741824 ==> e.len() == 8
            &&& e.len() == 1 ==> e[0] / 64 == 0 && v == top
            &&& e.len() == 2 ==> e[0] / 64 == 1 && v == top * 0x100 + e[1]
            &&& e.len() == 4 ==> e[0] / 64 == 2 && v == top * 0x100_0000 + e[1] * 0x1_0000 + e[2]
                * 0x100 + e[3]
            &&& e.len() == 8 ==> e[0] / 64 == 3 && v == top * 0x100_0000_0000_0000 + e[1]
                * 0x1_0000_0000_0000 + e[2] * 0x100_0000_0000 + e[3] * 0x1_0000_0000 + e[4]
                * 0x100_0000 + e[5] * 0x1_0000 + e[6] * 0x100 + e[7]
        }),
{
    lemma_bytes_of_value(v);
}

/// Law: an integer is read off as many bytes as its first byte tells, and off no more.
/// Its digits to the base 256 are those bytes, without the two bits of the length.
pub proof fn lemma_parse_bytes(s: Seq<u8>)
    ensures
        ({
            let top = (s[0] % 64) as int;
            &&& s.len() == 0 ==> parse(s) is None
            &&& s.len() > 0 && s[0] / 64 == 0 ==> parse(s) == Some((top as u64, 1nat))
            &&& s.len() > 0 && s[0] / 64 == 1 ==> if s.len() < 2 {
                parse(s) is None
            } else {
                parse(s) matches Some((v, n)) && n == 2 && v == top * 0x100 + s[1]
            }
            &&& s.len() > 0 && s[0] / 64 == 2 ==> if s.len() < 4 {
                parse(s) is None
            } else {
                parse(s) matches Some((v, n)) && n == 4 && v == top * 0x100_0000 + s[1] * 0x1_0000
                    + s[2] * 0x100 + s[3]
            }
            &&& s.len() > 0 && s[0] / 64 == 3 ==> if s.len() < 8 {
                parse(s) is None
            } else {
                parse(s) matches Some((v, n)) && n == 8 && v == top * 0x100_0000_0000_0000 + s[1]
                    * 0x1_0000_0000_0000 + s[2] * 0x100_0000_0000 + s[3] * 0x1_0000_0000 + s[4]
                    * 0x100_0000 + s[5] * 0x1_0000 + s[6] * 0x100 + s[7]
            }
        }),
{
    if s.len() > 0 && s.len() >= encoded_len(s[0]) {
        lemma_big_endian_unrolled(s.take(encoded_len(s[0]) as int).update(0, s[0] % 64));
    }
}

} // verus!
