//! A session, apart from the connection under it.
//!
//! Over a raw connection streams and datagrams carry the application's bytes
//! alone. Over HTTP/3 each names the session, and error codes are moved into the
//! range of WebTransport.

use bytes::Bytes;
use vstd::prelude::*;
use vstd::utf8::{decode_utf8, valid_utf8};

use crate::buffer::contents;
use crate::http3::code::http3_code;
use crate::http3::header::{
    FRAME_WEBTRANSPORT, STREAM_UNI_WEBTRANSPORT, SessionHeaders, UnknownSession, datagram_header,
    datagram_payload, stream_header,
};
use crate::qmux::proto::varint::VarInt;
use crate::text::from_utf8;

verus! {

/// The priority of a stream while its header is written: before everything else,
/// so that no data of the application is queued in front of it.
pub const HEADER_PRIORITY: i32 = 0x7fff_ffff;

/// The priority of a stream after that.
pub const DEFAULT_PRIORITY: i32 = 0;

/// What the handshake of a session over HTTP/3 agreed on. `Q` is the request and
/// `P` the response.
#[derive(Debug)]
pub struct Handshake<Q, P> {
    pub request: Q,
    pub response: P,
    /// The application protocol that the response names.
    pub protocol: Option<String>,
}

/// A session. `Q` is a CONNECT request and `P` its response.
#[derive(Debug)]
pub struct Session<Q, P> {
    headers: SessionHeaders,
    handshake: Option<Handshake<Q, P>>,
}

/// Why an operation failed. `C` is an error of the connection and `W` one of a
/// write.
#[derive(Debug)]
pub enum SessionError<C, W> {
    /// The connection failed.
    Connection(C),
    /// The header of a stream could not be written.
    Write(W),
    /// A datagram or stream of another session.
    UnknownSession,
}

/// The result of a write on the connection.
#[derive(Debug)]
pub enum WriteOutcome<C, W> {
    /// All was written.
    Done,
    /// The connection was lost.
    ConnectionLost(C),
    /// The write failed otherwise.
    Failed(W),
}

impl<Q, P> Session<Q, P> {
    /// The CONNECT stream, over HTTP/3.
    pub closed spec fn session(&self) -> Option<u64> {
        self.headers.session()
    }

    /// What the handshake agreed on, over HTTP/3.
    pub closed spec fn agreed(&self) -> Option<Handshake<Q, P>> {
        self.handshake
    }

    /// A session that has the connection to itself.
    pub fn raw() -> (r: Session<Q, P>)
        ensures
            r.session() is None,
            r.agreed() is None,
    {
        Session { headers: SessionHeaders::raw(), handshake: None }
    }

    /// A session over HTTP/3, whose CONNECT stream is `session_id`.
    pub fn new_h3(session_id: VarInt, handshake: Handshake<Q, P>) -> (r: Session<Q, P>)
        ensures
            r.session() == Some(session_id@),
            r.agreed() == Some(handshake),
    {
        Session { headers: SessionHeaders::new(session_id), handshake: Some(handshake) }
    }

    /// The request that the client sent, over HTTP/3.
    pub fn request(&self) -> (r: Option<&Q>)
        ensures
            match self.agreed() {
                Some(h) => r == Some(&h.request),
                None => r is None,
            },
    {
        match &self.handshake {
            Some(h) => Some(&h.request),
            None => None,
        }
    }

    /// The response that the server sent, over HTTP/3.
    pub fn response(&self) -> (r: Option<&P>)
        ensures
            match self.agreed() {
                Some(h) => r == Some(&h.response),
                None => r is None,
            },
    {
        match &self.handshake {
            Some(h) => Some(&h.response),
            None => None,
        }
    }

    /// What to write first on a unidirectional stream that we open.
    pub fn open_uni(&self) -> (r: Bytes)
        ensures
            contents(r) == stream_header(STREAM_UNI_WEBTRANSPORT, self.session()),
    {
        self.headers.header_uni()
    }

    /// What to write first on a bidirectional stream that we open.
    pub fn open_bi(&self) -> (r: Bytes)
        ensures
            contents(r) == stream_header(FRAME_WEBTRANSPORT, self.session()),
    {
        self.headers.header_bi()
    }

    /// The payload of a datagram that arrived.
    pub fn read_datagram<C, W>(&self, datagram: Result<Bytes, C>) -> (r: Result<
        Bytes,
        SessionError<C, W>,
    >)
        ensures
            match datagram {
                Ok(d) => match datagram_payload(self.session(), contents(d)) {
                    Some(payload) => r matches Ok(b) && contents(b) == payload,
                    None => r == Err::<Bytes, SessionError<C, W>>(SessionError::UnknownSession),
                },
                Err(e) => r == Err::<Bytes, SessionError<C, W>>(SessionError::Connection(e)),
            },
    {
        match datagram {
            Ok(d) => match self.headers.read_datagram(d) {
                Ok(payload) => Ok(payload),
                Err(UnknownSession) => Err(SessionError::UnknownSession),
            },
            Err(e) => Err(SessionError::Connection(e)),
        }
    }

    /// The datagram to send for `data`.
    pub fn send_datagram(&self, data: Bytes) -> (r: Bytes)
        ensures
            contents(r) == datagram_header(self.session()) + contents(data),
    {
        self.headers.send_datagram(data)
    }

    /// The largest payload of a datagram, given the largest datagram of the
    /// connection.
    pub fn max_datagram_size(&self, mtu: usize) -> (r: usize)
        ensures
            r == (if mtu >= datagram_header(self.session()).len() {
                mtu - datagram_header(self.session()).len()
            } else {
                0
            }),
    {
        self.headers.max_datagram_size(mtu)
    }

    /// The code to close the connection with.
    pub fn close(&self, code: u32) -> (r: VarInt)
        ensures
            r@ == (if self.session() is Some {
                http3_code(code)
            } else {
                code as u64
            }),
    {
        self.headers.close_code(code)
    }

    /// The CONNECT stream ended with a code: the code to close the connection
    /// with, unless it was closed before.
    pub fn on_connect_closed(&self, code: u32, already_closed: bool) -> (r: Option<VarInt>)
        ensures
            already_closed ==> r is None,
            !already_closed ==> (r matches Some(v) && v@ == (if self.session() is Some {
                http3_code(code)
            } else {
                code as u64
            })),
    {
        if already_closed {
            None
        } else {
            Some(self.close(code))
        }
    }

    /// The application protocol: the one that the response names, or on a raw
    /// connection its ALPN, where that is text.
    pub fn protocol<'a>(&'a self, alpn: &'a [u8]) -> (r: Option<&'a str>)
        ensures
            match self.agreed() {
                Some(h) => match h.protocol {
                    Some(name) => r matches Some(s) && s@ == name@,
                    None => r is None,
                },
                None => match r {
                    Some(s) => valid_utf8(alpn@) && s@ == decode_utf8(alpn@),
                    None => !valid_utf8(alpn@),
                },
            },
    {
        match &self.handshake {
            Some(h) => match &h.protocol {
                Some(name) => Some(name.as_str()),
                None => None,
            },
            None => from_utf8(alpn),
        }
    }
}

/// What became of the header of a stream.
pub fn header_written<C, W>(outcome: WriteOutcome<C, W>) -> (r: Result<(), SessionError<C, W>>)
    ensures
        match outcome {
            WriteOutcome::Done => r == Ok::<(), SessionError<C, W>>(()),
            WriteOutcome::ConnectionLost(e) => r == Err::<(), SessionError<C, W>>(
                SessionError::Connection(e),
            ),
            WriteOutcome::Failed(e) => r == Err::<(), SessionError<C, W>>(SessionError::Write(e)),
        },
{
    match outcome {
        WriteOutcome::Done => Ok(()),
        WriteOutcome::ConnectionLost(e) => Err(SessionError::Connection(e)),
        WriteOutcome::Failed(e) => Err(SessionError::Write(e)),
    }
}

} // verus!
