//! The bytes that a session puts in front of its streams and datagrams.
//!
//! Over HTTP/3 a stream or datagram names its session, by the identifier of the
//! CONNECT stream. A raw session has the connection to itself and names nothing.

use bytes::{Bytes, BytesMut};
use vstd::prelude::*;

use super::code::{error_to_http3, http3_code};
use crate::buffer::{as_slice, contents, put_slice, written};
use crate::qmux::proto::varint::{
    VARINT_MAX, VarInt, encoding, lemma_round_trip, parse, size_of_varint,
};

verus! {

/// The type of a unidirectional stream that belongs to a WebTransport session.
pub const STREAM_UNI_WEBTRANSPORT: u64 = 0x54;

/// The type of the unidirectional stream of the QPACK encoder.
pub const STREAM_UNI_QPACK_ENCODER: u64 = 0x02;

/// The type of the unidirectional stream of the QPACK decoder.
pub const STREAM_UNI_QPACK_DECODER: u64 = 0x03;

/// The frame type that starts a bidirectional stream of a WebTransport session.
pub const FRAME_WEBTRANSPORT: u64 = 0x41;

/// A stream or datagram that does not name this session.
#[derive(Debug, Clone, Copy, PartialEq, Eq, Structural)]
pub struct UnknownSession;

/// A type, then the session.
pub open spec fn stream_header(kind: u64, session: Option<u64>) -> Seq<u8> {
    match session {
        Some(id) => encoding(kind) + encoding(id),
        None => Seq::empty(),
    }
}

/// What stands in front of a datagram.
pub open spec fn datagram_header(session: Option<u64>) -> Seq<u8> {
    match session {
        Some(id) => encoding(id),
        None => Seq::empty(),
    }
}

/// The payload of a datagram, if it belongs to the session.
pub open spec fn datagram_payload(session: Option<u64>, datagram: Seq<u8>) -> Option<Seq<u8>> {
    match session {
        Some(id) => match parse(datagram) {
            Some((actual, n)) if actual == id => Some(datagram.skip(n as int)),
            _ => None,
        },
        None => Some(datagram),
    }
}

/// The headers of one session.
#[derive(Debug)]
pub struct SessionHeaders {
    session_id: Option<VarInt>,
    header_uni: Bytes,
    header_bi: Bytes,
    header_datagram: Bytes,
}

/// `kind` and `id`, encoded one after the other.
fn encode_header(kind: u32, id: VarInt) -> (r: Bytes)
    ensures
        contents(r) == encoding(kind as u64) + encoding(id@),
{
    let mut buf = BytesMut::new();
    VarInt::from_u32(kind).encode(&mut buf);
    assert(written(buf) =~= encoding(kind as u64));
    id.encode(&mut buf);
    buf.freeze()
}

impl SessionHeaders {
    /// The CONNECT stream of the session; none where the connection is raw.
    pub closed spec fn session(&self) -> Option<u64> {
        match self.session_id {
            Some(id) => Some(id@),
            None => None,
        }
    }

    #[verifier::type_invariant]
    closed spec fn wf(&self) -> bool {
        &&& self.session() matches Some(id) ==> id <= VARINT_MAX
        &&& contents(self.header_uni) == stream_header(STREAM_UNI_WEBTRANSPORT, self.session())
        &&& contents(self.header_bi) == stream_header(FRAME_WEBTRANSPORT, self.session())
        &&& contents(self.header_datagram) == datagram_header(self.session())
    }

    /// The headers of the session whose CONNECT stream is `session_id`.
    pub fn new(session_id: VarInt) -> (r: SessionHeaders)
        ensures
            r.session() == Some(session_id@),
    {
        let mut buf = BytesMut::new();
        session_id.encode(&mut buf);
        assert(written(buf) =~= encoding(session_id@));
        SessionHeaders {
            session_id: Some(session_id),
            header_uni: encode_header(0x54, session_id),
            header_bi: encode_header(0x41, session_id),
            header_datagram: buf.freeze(),
        }
    }

    /// No headers at all: the session has the connection to itself.
    pub fn raw() -> (r: SessionHeaders)
        ensures
            r.session() is None,
    {
        SessionHeaders {
            session_id: None,
            header_uni: Bytes::new(),
            header_bi: Bytes::new(),
            header_datagram: Bytes::new(),
        }
    }

    /// The identifier of the CONNECT stream, over HTTP/3.
    pub fn session_id(&self) -> (r: Option<VarInt>)
        ensures
            match self.session() {
                Some(id) => r matches Some(v) && v@ == id && id <= VARINT_MAX,
                None => r is None,
            },
    {
        proof {
            use_type_invariant(self);
        }
        self.session_id
    }

    /// What to write first on a unidirectional stream that we open.
    pub fn header_uni(&self) -> (r: Bytes)
        ensures
            contents(r) == stream_header(STREAM_UNI_WEBTRANSPORT, self.session()),
    {
        proof {
            use_type_invariant(self);
        }
        self.header_uni.clone()
    }

    /// What to write first on a bidirectional stream that we open.
    pub fn header_bi(&self) -> (r: Bytes)
        ensures
            contents(r) == stream_header(FRAME_WEBTRANSPORT, self.session()),
    {
        proof {
            use_type_invariant(self);
        }
        self.header_bi.clone()
    }

    /// The datagram that carries `data` for this session.
    pub fn send_datagram(&self, data: Bytes) -> (r: Bytes)
        ensures
            contents(r) == datagram_header(self.session()) + contents(data),
    {
        proof {
            use_type_invariant(self);
        }
        if self.session_id.is_none() {
            assert(datagram_header(self.session()) + contents(data) =~= contents(data));
            return data;
        }
        let mut buf = BytesMut::new();
        put_slice(&mut buf, as_slice(&self.header_datagram));
        assert(written(buf) =~= datagram_header(self.session()));
        put_slice(&mut buf, as_slice(&data));
        buf.freeze()
    }

    /// The payload of a datagram of this session.
    pub fn read_datagram(&self, datagram: Bytes) -> (r: Result<Bytes, UnknownSession>)
        ensures
            match datagram_payload(self.session(), contents(datagram)) {
                Some(payload) => r matches Ok(b) && contents(b) == payload,
                None => r is Err,
            },
    {
        let mut datagram = datagram;
        match self.session_id {
            None => Ok(datagram),
            Some(expected) => match VarInt::decode(&mut datagram) {
                Ok(actual) => {
                    if actual.into_inner() == expected.into_inner() {
                        Ok(datagram)
                    } else {
                        Err(UnknownSession)
                    }
                },
                Err(_) => Err(UnknownSession),
            },
        }
    }

    /// The largest payload of a datagram, given the largest datagram of the
    /// connection.
    pub fn max_datagram_size(&self, mtu: usize) -> (r: usize)
        ensures
            r == (if mtu >= datagram_header(self.session()).len() {
                mtu - datagram_header(self.session()).len()
            } else {
                0
            }),
    {
        proof {
            use_type_invariant(self);
        }
        mtu.saturating_sub(self.header_datagram.len())
    }

    /// The code to close the connection with: over HTTP/3 the code is moved into
    /// the range of WebTransport errors.
    pub fn close_code(&self, code: u32) -> (r: VarInt)
        ensures
            r@ == (if self.session() is Some {
                http3_code(code)
            } else {
                code as u64
            }),
    {
        if self.session_id.is_some() {
            match VarInt::from_u64(error_to_http3(code)) {
                Ok(v) => v,
                Err(_) => VarInt::from_u32(code),
            }
        } else {
            VarInt::from_u32(code)
        }
    }
}

/// What is sent as a datagram of a session is read back by the same session.
pub proof fn lemma_datagram_round_trip(session: Option<u64>, payload: Seq<u8>)
    requires
        session matches Some(id) ==> id <= VARINT_MAX,
    ensures
        datagram_payload(session, datagram_header(session) + payload) == Some(payload),
{
    let sent = datagram_header(session) + payload;
    match session {
        Some(id) => {
            lemma_round_trip(id, payload);
            assert(sent.skip(size_of_varint(id) as int) =~= payload);
        },
        None => {
            assert(sent =~= payload);
        },
    }
}

/// A datagram of one session is refused by another.
pub proof fn lemma_datagram_of_another(a: u64, b: u64, payload: Seq<u8>)
    requires
        a <= VARINT_MAX,
        a != b,
    ensures
        datagram_payload(Some(b), datagram_header(Some(a)) + payload) is None,
{
    lemma_round_trip(a, payload);
}

/// What stands in front of a stream and of a datagram: over HTTP/3 the type and the
/// session, or the session alone, and nothing where the connection is raw.
pub proof fn lemma_headers(kind: u64, id: u64)
    ensures
        stream_header(kind, Some(id)) == encoding(kind) + encoding(id),
        datagram_header(Some(id)) == encoding(id),
        stream_header(kind, None).len() == 0,
        datagram_header(None).len() == 0,
        STREAM_UNI_WEBTRANSPORT == 0x54,
        FRAME_WEBTRANSPORT == 0x41,
{
}

/// A datagram that is too short to name a session is refused, and one on a raw
/// connection is taken as it is.
pub proof fn lemma_datagram_alone(id: u64, datagram: Seq<u8>)
    ensures
        datagram_payload(None, datagram) == Some(datagram),
        datagram_payload(Some(id), Seq::empty()) is None,
{
}

} // verus!
