//! The streams that the peer opens: reading the header of each, and telling
//! those of the session from the others.

use vstd::prelude::*;

use super::header::{
    FRAME_WEBTRANSPORT, STREAM_UNI_QPACK_DECODER, STREAM_UNI_QPACK_ENCODER, STREAM_UNI_WEBTRANSPORT,
    UnknownSession, stream_header,
};
use crate::qmux::proto::varint::{
    VARINT_MAX, VarInt, encoded_len, encoding, lemma_parse_bounds, lemma_parse_prefix,
    lemma_round_trip, parse, parse_slice, size_of_varint,
};

verus! {

/// The bytes that the integer at the front lacks, where it is not all there:
/// with its first byte the rest is known.
pub open spec fn lacking(s: Seq<u8>) -> nat {
    if s.len() == 0 {
        1
    } else {
        (encoded_len(s[0]) - s.len()) as nat
    }
}

/// What the first bytes of a unidirectional stream say.
#[derive(Debug, Clone, Copy, PartialEq, Eq, Structural)]
pub enum UniStream {
    /// At least so many more bytes belong to the header.
    Short { more: usize },
    /// The header is complete: its type and its length.
    Header { kind: u64, len: usize },
    /// A stream of some other session.
    Unknown,
}

/// What the first bytes of a bidirectional stream say.
#[derive(Debug, Clone, Copy, PartialEq, Eq, Structural)]
pub enum BiStream {
    /// At least so many more bytes belong to the header.
    Short { more: usize },
    /// The stream belongs to the session, and its payload starts after so many
    /// bytes.
    Header { len: usize },
    /// No WebTransport stream: leave it alone.
    Ignored,
    /// A stream of some other session.
    Unknown,
}

/// What a unidirectional stream that starts with `s` is to session `id`.
pub open spec fn uni_stream(s: Seq<u8>, id: u64) -> UniStream {
    match parse(s) {
        None => UniStream::Short { more: lacking(s) as usize },
        Some((kind, n)) => if kind != STREAM_UNI_WEBTRANSPORT {
            UniStream::Header { kind, len: n as usize }
        } else {
            let rest = s.skip(n as int);
            match parse(rest) {
                None => UniStream::Short { more: lacking(rest) as usize },
                Some((actual, m)) => if actual == id {
                    UniStream::Header { kind, len: (n + m) as usize }
                } else {
                    UniStream::Unknown
                },
            }
        },
    }
}

/// What a bidirectional stream that starts with `s` is to session `id`.
pub open spec fn bi_stream(s: Seq<u8>, id: u64) -> BiStream {
    match parse(s) {
        None => BiStream::Short { more: lacking(s) as usize },
        Some((kind, n)) => if kind != FRAME_WEBTRANSPORT {
            BiStream::Ignored
        } else {
            let rest = s.skip(n as int);
            match parse(rest) {
                None => BiStream::Short { more: lacking(rest) as usize },
                Some((actual, m)) => if actual == id {
                    BiStream::Header { len: (n + m) as usize }
                } else {
                    BiStream::Unknown
                },
            }
        },
    }
}

/// The bytes that the integer at the front of `s` lacks.
fn missing(s: &[u8]) -> (r: usize)
    requires
        parse(s@) is None,
    ensures
        r == lacking(s@),
        1 <= r <= 8,
{
    if s.len() == 0 {
        return 1;
    }
    let first: u8 = s[0];
    let len: usize = if first < 0x40 {
        1
    } else if first < 0x80 {
        2
    } else if first < 0xc0 {
        4
    } else {
        8
    };
    len - s.len()
}

/// Read the header of a unidirectional stream, as far as it has arrived.
pub fn decode_uni(s: &[u8], session: VarInt) -> (r: UniStream)
    ensures
        r == uni_stream(s@, session@),
{
    match parse_slice(s) {
        None => UniStream::Short { more: missing(s) },
        Some((kind, n)) => {
            if kind != STREAM_UNI_WEBTRANSPORT {
                return UniStream::Header { kind, len: n };
            }
            let rest = vstd::slice::slice_subrange(s, n, s.len());
            assert(rest@ =~= s@.skip(n as int));
            match parse_slice(rest) {
                None => UniStream::Short { more: missing(rest) },
                Some((actual, m)) => {
                    if actual == session.into_inner() {
                        UniStream::Header { kind, len: n + m }
                    } else {
                        UniStream::Unknown
                    }
                },
            }
        },
    }
}

/// Read the header of a bidirectional stream, as far as it has arrived.
pub fn decode_bi(s: &[u8], session: VarInt) -> (r: BiStream)
    ensures
        r == bi_stream(s@, session@),
{
    match parse_slice(s) {
        None => BiStream::Short { more: missing(s) },
        Some((kind, n)) => {
            if kind != FRAME_WEBTRANSPORT {
                return BiStream::Ignored;
            }
            let rest = vstd::slice::slice_subrange(s, n, s.len());
            assert(rest@ =~= s@.skip(n as int));
            match parse_slice(rest) {
                None => BiStream::Short { more: missing(rest) },
                Some((actual, m)) => {
                    if actual == session.into_inner() {
                        BiStream::Header { len: n + m }
                    } else {
                        BiStream::Unknown
                    }
                },
            }
        },
    }
}

/// What becomes of a unidirectional stream whose header was read.
pub open spec fn uni_route(kind: u64) -> UniRoute {
    if kind == STREAM_UNI_WEBTRANSPORT {
        UniRoute::Deliver
    } else if kind == STREAM_UNI_QPACK_DECODER {
        UniRoute::KeepDecoder
    } else if kind == STREAM_UNI_QPACK_ENCODER {
        UniRoute::KeepEncoder
    } else {
        UniRoute::Ignore
    }
}

/// What becomes of a unidirectional stream.
#[derive(Debug, Clone, Copy, PartialEq, Eq, Structural)]
pub enum UniRoute {
    /// Hand it to the application.
    Deliver,
    /// Keep the stream of the QPACK decoder open.
    KeepDecoder,
    /// Keep the stream of the QPACK encoder open.
    KeepEncoder,
    /// Not known: drop it.
    Ignore,
}

/// The accepting side of a session. `R` is a stream to receive from.
///
/// A peer may open the QPACK streams although nothing is sent on them. They are
/// held here, so that they stay open as long as the session.
#[derive(Debug)]
pub struct SessionAccept<R> {
    pub qpack_encoder: Option<R>,
    pub qpack_decoder: Option<R>,
}

impl<R> SessionAccept<R> {
    /// No stream was accepted yet.
    pub fn new() -> (r: SessionAccept<R>)
        ensures
            r.qpack_encoder is None,
            r.qpack_decoder is None,
    {
        SessionAccept { qpack_encoder: None, qpack_decoder: None }
    }

    /// Take a stream whose header was read: the stream, if the application is to
    /// have it. A stream whose header could not be read was probably reset early
    /// and is skipped.
    pub fn accept_uni(&mut self, stream: Result<(u64, R), UnknownSession>) -> (r: Option<R>)
        ensures
            match stream {
                Ok((kind, recv)) => match uni_route(kind) {
                    UniRoute::Deliver => r == Some(recv) && *final(self) == *old(self),
                    UniRoute::KeepDecoder => r is None && *final(self) == (SessionAccept {
                        qpack_encoder: old(self).qpack_encoder,
                        qpack_decoder: Some(recv),
                    }),
                    UniRoute::KeepEncoder => r is None && *final(self) == (SessionAccept {
                        qpack_encoder: Some(recv),
                        qpack_decoder: old(self).qpack_decoder,
                    }),
                    UniRoute::Ignore => r is None && *final(self) == *old(self),
                },
                Err(_) => r is None && *final(self) == *old(self),
            },
    {
        match stream {
            Ok((kind, recv)) => {
                if kind == STREAM_UNI_WEBTRANSPORT {
                    Some(recv)
                } else if kind == STREAM_UNI_QPACK_DECODER {
                    self.qpack_decoder = Some(recv);
                    None
                } else if kind == STREAM_UNI_QPACK_ENCODER {
                    self.qpack_encoder = Some(recv);
                    None
                } else {
                    None
                }
            },
            Err(_) => None,
        }
    }

    /// Take a bidirectional stream whose header was read: the stream, if the
    /// application is to have it.
    pub fn accept_bi<S>(&self, stream: Result<Option<(S, R)>, UnknownSession>) -> (r: Option<(S, R)>)
        ensures
            match stream {
                Ok(found) => r == found,
                Err(_) => r is None,
            },
    {
        match stream {
            Ok(found) => found,
            Err(_) => None,
        }
    }
}

/// The header that a session writes on its streams is read by the session on
/// the other side, and nothing of the payload with it.
pub proof fn lemma_header_round_trip(id: u64, payload: Seq<u8>)
    requires
        id <= VARINT_MAX,
    ensures
        ({
            let header = stream_header(STREAM_UNI_WEBTRANSPORT, Some(id));
            uni_stream(header + payload, id) == (UniStream::Header {
                kind: STREAM_UNI_WEBTRANSPORT,
                len: header.len() as usize,
            })
        }),
        ({
            let header = stream_header(FRAME_WEBTRANSPORT, Some(id));
            bi_stream(header + payload, id) == (BiStream::Header { len: header.len() as usize })
        }),
{
    lemma_kind_round_trip(STREAM_UNI_WEBTRANSPORT, id, payload);
    lemma_kind_round_trip(FRAME_WEBTRANSPORT, id, payload);
}

/// The two integers of a header read back, one after the other.
proof fn lemma_kind_round_trip(kind: u64, id: u64, payload: Seq<u8>)
    requires
        kind <= VARINT_MAX,
        id <= VARINT_MAX,
    ensures
        ({
            let s = stream_header(kind, Some(id)) + payload;
            &&& parse(s) == Some((kind, size_of_varint(kind)))
            &&& parse(s.skip(size_of_varint(kind) as int)) == Some((id, size_of_varint(id)))
        }),
        stream_header(kind, Some(id)).len() == size_of_varint(kind) + size_of_varint(id),
{
    let s = stream_header(kind, Some(id)) + payload;
    lemma_round_trip(kind, encoding(id) + payload);
    lemma_round_trip(id, payload);
    assert(s =~= encoding(kind) + (encoding(id) + payload));
    assert(s.skip(size_of_varint(kind) as int) =~= encoding(id) + payload);
}

/// A stream of one session is refused by another.
pub proof fn lemma_stream_of_another(a: u64, b: u64, payload: Seq<u8>)
    requires
        a <= VARINT_MAX,
        a != b,
    ensures
        uni_stream(stream_header(STREAM_UNI_WEBTRANSPORT, Some(a)) + payload, b)
            == UniStream::Unknown,
        bi_stream(stream_header(FRAME_WEBTRANSPORT, Some(a)) + payload, b) == BiStream::Unknown,
{
    lemma_kind_round_trip(STREAM_UNI_WEBTRANSPORT, a, payload);
    lemma_kind_round_trip(FRAME_WEBTRANSPORT, a, payload);
}

/// What was decided of a stream does not change as more of it arrives.
pub proof fn lemma_header_stable(s: Seq<u8>, more: Seq<u8>, id: u64)
    ensures
        !(uni_stream(s, id) is Short) ==> uni_stream(s + more, id) == uni_stream(s, id),
        !(bi_stream(s, id) is Short) ==> bi_stream(s + more, id) == bi_stream(s, id),
{
    if let Some((kind, n)) = parse(s) {
        lemma_parse_bounds(s);
        lemma_parse_prefix(s, more);
        let rest = s.skip(n as int);
        assert((s + more).skip(n as int) =~= rest + more);
        if parse(rest) is Some {
            lemma_parse_prefix(rest, more);
        }
    }
}

/// A stream is told by the integer that it starts with. A unidirectional one of the
/// session starts with 0x54 and a bidirectional one with 0x41, and the session follows.
pub proof fn lemma_stream_told(kind: u64, id: u64, actual: u64, payload: Seq<u8>)
    requires
        kind <= VARINT_MAX,
        actual <= VARINT_MAX,
    ensures
        ({
            let s = encoding(kind) + (encoding(actual) + payload);
            let len = encoding(kind).len() + encoding(actual).len();
            &&& kind != 0x54 ==> uni_stream(s, id) == (UniStream::Header {
                kind,
                len: encoding(kind).len() as usize,
            })
            &&& kind == 0x54 && actual == id ==> uni_stream(s, id) == (UniStream::Header {
                kind,
                len: len as usize,
            })
            &&& kind == 0x54 && actual != id ==> uni_stream(s, id) is Unknown
            &&& kind != 0x41 ==> bi_stream(s, id) is Ignored
            &&& kind == 0x41 && actual == id ==> bi_stream(s, id) == (BiStream::Header {
                len: len as usize,
            })
            &&& kind == 0x41 && actual != id ==> bi_stream(s, id) is Unknown
        }),
{
    let s = encoding(kind) + (encoding(actual) + payload);
    lemma_round_trip(kind, encoding(actual) + payload);
    lemma_round_trip(actual, payload);
    assert(s.skip(encoding(kind).len() as int) =~= encoding(actual) + payload);
}

/// Of an integer that is not all there, one byte is lacking where nothing is, and
/// otherwise as many as its first byte tells.
pub proof fn lemma_lacking(v: u64, n: int)
    requires
        v <= VARINT_MAX,
        0 <= n < encoding(v).len(),
    ensures
        n == 0 ==> lacking(encoding(v).take(n)) == 1,
        n > 0 ==> lacking(encoding(v).take(n)) == encoding(v).len() - n,
        parse(encoding(v).take(n)) is None,
{
    let part = encoding(v).take(n);
    if n > 0 {
        assert(part[0] == encoding(v)[0]);
        lemma_round_trip(v, Seq::empty());
        assert(encoding(v) + Seq::empty() =~= encoding(v));
    }
}

/// A header that is not all there is waited for, and no byte of the payload with it.
pub proof fn lemma_header_waits(id: u64, n: int)
    requires
        id <= VARINT_MAX,
        0 <= n < 2 + encoding(id).len(),
    ensures
        ({
            let uni = encoding(0x54) + encoding(id);
            let bi = encoding(0x41) + encoding(id);
            &&& uni_stream(uni.take(n), id) matches UniStream::Short { more } && 0 < more && n
                + more <= uni.len()
            &&& bi_stream(bi.take(n), id) matches BiStream::Short { more } && 0 < more && n + more
                <= bi.len()
        }),
{
    lemma_part_of_header(0x54, id, n);
    lemma_part_of_header(0x41, id, n);
}

proof fn lemma_part_of_header(kind: u64, id: u64, n: int)
    requires
        0x40 <= kind < 0x4000,
        id <= VARINT_MAX,
        0 <= n < 2 + encoding(id).len(),
    ensures
        ({
            let s = (encoding(kind) + encoding(id)).take(n);
            &&& (encoding(kind) + encoding(id)).len() == 2 + encoding(id).len()
            &&& n < 2 ==> parse(s) is None && 0 < lacking(s) && n + lacking(s) <= 2
            &&& n >= 2 ==> parse(s) == Some((kind, 2nat)) && parse(s.skip(2)) is None && 0
                < lacking(s.skip(2)) && n + lacking(s.skip(2)) <= 2 + encoding(id).len()
        }),
{
    let all = encoding(kind) + encoding(id);
    let s = all.take(n);
    if n < 2 {
        assert(s =~= encoding(kind).take(n));
        lemma_lacking(kind, n);
    } else {
        assert(s =~= encoding(kind) + encoding(id).take(n - 2));
        lemma_round_trip(kind, encoding(id).take(n - 2));
        assert(s.skip(2) =~= encoding(id).take(n - 2));
        lemma_lacking(id, n - 2);
    }
}

/// What becomes of a unidirectional stream: the application has those of the session,
/// those of QPACK are kept, and others are dropped.
pub proof fn lemma_route(kind: u64)
    ensures
        kind == 0x54 ==> uni_route(kind) is Deliver,
        kind == 0x03 ==> uni_route(kind) is KeepDecoder,
        kind == 0x02 ==> uni_route(kind) is KeepEncoder,
        kind != 0x54 && kind != 0x03 && kind != 0x02 ==> uni_route(kind) is Ignore,
{
}

} // verus!
