//! Errors that can occur during QMux session and stream operations.

use vstd::prelude::*;

use super::proto::varint::{VarInt, VarIntBoundsExceeded, VarIntUnexpectedEnd};
use crate::text::{decimal, decimal_text, hex, hex_text, quoted, quoted_text};

verus! {

/// Errors that can occur during QMux session and stream operations.
#[derive(Debug)]
#[non_exhaustive]
pub enum Error {
    /// A frame type that this side does not know, or that its version lacks.
    InvalidFrameType(u64),
    /// A stream identifier that the peer may not use this way.
    InvalidStreamId,
    /// The stream was finished.
    StreamClosed,
    /// The connection was closed with a code and a reason.
    ConnectionClosed { code: VarInt, reason: String },
    /// The sending side gave the stream up.
    StreamReset(VarInt),
    /// The receiving side gave the stream up.
    StreamStop(VarInt),
    /// A frame or record larger than the limit on it.
    FrameTooLarge,
    /// The peer overran a window, or a limit went backwards.
    FlowControlError,
    /// The peer opened more streams than it may.
    StreamLimitExceeded,
    /// A transport parameter came twice.
    DuplicateParam(u64),
    /// The input ended inside a frame.
    Short,
    /// The session is closed.
    Closed,
    /// The peer was silent for too long.
    IdleTimeout,
    /// The peer never sent its transport parameters.
    HandshakeTimeout,
    /// A name that cannot be an application protocol.
    InvalidProtocol(String),
    /// The peer sent the `application_protocols` transport parameter, but this
    /// session is not negotiating in-band: it already negotiated by ALPN, or did
    /// not opt in.
    UnexpectedProtocols,
    /// A server name that TLS cannot carry.
    InvalidServerName,
    /// The server rejected the handshake with a non-success HTTP status.
    ///
    /// Kept apart from I/O errors so callers can tell terminal failures (such as
    /// a 401) from transient ones worth retrying.
    Http(u16),
    /// An I/O error of the transport, by its message.
    Io(String),
    /// A WebSocket error, by its message.
    WebSocket(String),
    /// A datagram where the receiver does not accept any.
    DatagramsUnsupported,
}

/// An [`Error`] with its text as characters.
pub enum ErrorView {
    InvalidFrameType(u64),
    InvalidStreamId,
    StreamClosed,
    ConnectionClosed { code: u64, reason: Seq<char> },
    StreamReset(u64),
    StreamStop(u64),
    FrameTooLarge,
    FlowControlError,
    StreamLimitExceeded,
    DuplicateParam(u64),
    Short,
    Closed,
    IdleTimeout,
    HandshakeTimeout,
    InvalidProtocol(Seq<char>),
    UnexpectedProtocols,
    InvalidServerName,
    Http(u16),
    Io(Seq<char>),
    WebSocket(Seq<char>),
    DatagramsUnsupported,
}

impl View for Error {
    type V = ErrorView;

    open spec fn view(&self) -> ErrorView {
        match self {
            Error::InvalidFrameType(t) => ErrorView::InvalidFrameType(*t),
            Error::InvalidStreamId => ErrorView::InvalidStreamId,
            Error::StreamClosed => ErrorView::StreamClosed,
            Error::ConnectionClosed { code, reason } => ErrorView::ConnectionClosed {
                code: code@,
                reason: reason@,
            },
            Error::StreamReset(code) => ErrorView::StreamReset(code@),
            Error::StreamStop(code) => ErrorView::StreamStop(code@),
            Error::FrameTooLarge => ErrorView::FrameTooLarge,
            Error::FlowControlError => ErrorView::FlowControlError,
            Error::StreamLimitExceeded => ErrorView::StreamLimitExceeded,
            Error::DuplicateParam(id) => ErrorView::DuplicateParam(*id),
            Error::Short => ErrorView::Short,
            Error::Closed => ErrorView::Closed,
            Error::IdleTimeout => ErrorView::IdleTimeout,
            Error::HandshakeTimeout => ErrorView::HandshakeTimeout,
            Error::InvalidProtocol(s) => ErrorView::InvalidProtocol(s@),
            Error::UnexpectedProtocols => ErrorView::UnexpectedProtocols,
            Error::InvalidServerName => ErrorView::InvalidServerName,
            Error::Http(status) => ErrorView::Http(*status),
            Error::Io(s) => ErrorView::Io(s@),
            Error::WebSocket(s) => ErrorView::WebSocket(s@),
            Error::DatagramsUnsupported => ErrorView::DatagramsUnsupported,
        }
    }
}

impl Clone for Error {
    fn clone(&self) -> (r: Error)
        ensures
            r == *self,
    {
        match self {
            Error::InvalidFrameType(t) => Error::InvalidFrameType(*t),
            Error::InvalidStreamId => Error::InvalidStreamId,
            Error::StreamClosed => Error::StreamClosed,
            Error::ConnectionClosed { code, reason } => Error::ConnectionClosed {
                code: *code,
                reason: reason.clone(),
            },
            Error::StreamReset(code) => Error::StreamReset(*code),
            Error::StreamStop(code) => Error::StreamStop(*code),
            Error::FrameTooLarge => Error::FrameTooLarge,
            Error::FlowControlError => Error::FlowControlError,
            Error::StreamLimitExceeded => Error::StreamLimitExceeded,
            Error::DuplicateParam(id) => Error::DuplicateParam(*id),
            Error::Short => Error::Short,
            Error::Closed => Error::Closed,
            Error::IdleTimeout => Error::IdleTimeout,
            Error::HandshakeTimeout => Error::HandshakeTimeout,
            Error::InvalidProtocol(s) => Error::InvalidProtocol(s.clone()),
            Error::UnexpectedProtocols => Error::UnexpectedProtocols,
            Error::InvalidServerName => Error::InvalidServerName,
            Error::Http(status) => Error::Http(*status),
            Error::Io(s) => Error::Io(s.clone()),
            Error::WebSocket(s) => Error::WebSocket(s.clone()),
            Error::DatagramsUnsupported => Error::DatagramsUnsupported,
        }
    }
}

impl From<VarIntUnexpectedEnd> for Error {
    fn from(_e: VarIntUnexpectedEnd) -> (r: Error)
        ensures
            r is Short,
    {
        Error::Short
    }
}

impl vstd::std_specs::convert::FromSpecImpl<VarIntUnexpectedEnd> for Error {
    open spec fn obeys_from_spec() -> bool {
        true
    }

    open spec fn from_spec(v: VarIntUnexpectedEnd) -> Error {
        Error::Short
    }
}

impl From<VarIntBoundsExceeded> for Error {
    fn from(_e: VarIntBoundsExceeded) -> (r: Error)
        ensures
            r is FlowControlError,
    {
        Error::FlowControlError
    }
}

impl vstd::std_specs::convert::FromSpecImpl<VarIntBoundsExceeded> for Error {
    open spec fn obeys_from_spec() -> bool {
        true
    }

    open spec fn from_spec(v: VarIntBoundsExceeded) -> Error {
        Error::FlowControlError
    }
}

/// The message of an error.
pub open spec fn message_of(e: ErrorView) -> Seq<char> {
    match e {
        ErrorView::InvalidFrameType(t) => "invalid frame type: "@ + decimal_text(t as nat),
        ErrorView::InvalidStreamId => "invalid stream id"@,
        ErrorView::StreamClosed => "stream closed"@,
        ErrorView::ConnectionClosed { code, reason } => "connection closed: "@ + decimal_text(
            code as nat,
        ) + ": "@ + reason,
        ErrorView::StreamReset(code) => "stream reset: "@ + decimal_text(code as nat),
        ErrorView::StreamStop(code) => "stream stop: "@ + decimal_text(code as nat),
        ErrorView::FrameTooLarge => "frame too large"@,
        ErrorView::FlowControlError => "flow control error"@,
        ErrorView::StreamLimitExceeded => "stream limit exceeded"@,
        ErrorView::DuplicateParam(id) => if id < 16 {
            "duplicate transport parameter: 0x0"@ + hex_text(id as nat)
        } else {
            "duplicate transport parameter: 0x"@ + hex_text(id as nat)
        },
        ErrorView::Short => "short frame"@,
        ErrorView::Closed => "connection closed"@,
        ErrorView::IdleTimeout => "idle timeout"@,
        ErrorView::HandshakeTimeout => {
            "handshake timeout: peer never sent transport parameters"@
        },
        ErrorView::InvalidProtocol(name) => "invalid protocol token: "@ + quoted_text(name),
        ErrorView::UnexpectedProtocols => {
            "unexpected application_protocols parameter (in-band negotiation not enabled)"@
        },
        ErrorView::InvalidServerName => "invalid server name"@,
        ErrorView::Http(status) => "http error status: "@ + decimal_text(status as nat),
        ErrorView::Io(text) => text,
        ErrorView::WebSocket(text) => text,
        ErrorView::DatagramsUnsupported => "datagrams not supported"@,
    }
}

impl Error {
    /// What to tell a person.
    pub fn message(&self) -> (r: String)
        ensures
            r@ == message_of(self@),
    {
        match self {
            Error::InvalidFrameType(t) => {
                "invalid frame type: ".to_string().concat(decimal(*t).as_str())
            },
            Error::InvalidStreamId => "invalid stream id".to_string(),
            Error::StreamClosed => "stream closed".to_string(),
            Error::ConnectionClosed { code, reason } => {
                "connection closed: ".to_string().concat(
                    decimal(code.into_inner()).as_str(),
                ).concat(": ").concat(reason.as_str())
            },
            Error::StreamReset(code) => {
                "stream reset: ".to_string().concat(decimal(code.into_inner()).as_str())
            },
            Error::StreamStop(code) => {
                "stream stop: ".to_string().concat(decimal(code.into_inner()).as_str())
            },
            Error::FrameTooLarge => "frame too large".to_string(),
            Error::FlowControlError => "flow control error".to_string(),
            Error::StreamLimitExceeded => "stream limit exceeded".to_string(),
            Error::DuplicateParam(id) => {
                let prefix = if *id < 16 {
                    "duplicate transport parameter: 0x0"
                } else {
                    "duplicate transport parameter: 0x"
                };
                prefix.to_string().concat(hex(*id).as_str())
            },
            Error::Short => "short frame".to_string(),
            Error::Closed => "connection closed".to_string(),
            Error::IdleTimeout => "idle timeout".to_string(),
            Error::HandshakeTimeout => {
                "handshake timeout: peer never sent transport parameters".to_string()
            },
            Error::InvalidProtocol(name) => {
                "invalid protocol token: ".to_string().concat(quoted(name.as_str()).as_str())
            },
            Error::UnexpectedProtocols => {
                "unexpected application_protocols parameter (in-band negotiation not enabled)".to_string()
            },
            Error::InvalidServerName => "invalid server name".to_string(),
            Error::Http(status) => {
                "http error status: ".to_string().concat(decimal(*status as u64).as_str())
            },
            Error::Io(text) => text.clone(),
            Error::WebSocket(text) => text.clone(),
            Error::DatagramsUnsupported => "datagrams not supported".to_string(),
        }
    }

    /// The code and reason with which the session was closed, where the code is
    /// one that an application can give.
    pub fn session_error(&self) -> (r: Option<(u32, String)>)
        ensures
            match self@ {
                ErrorView::ConnectionClosed { code, reason } if code <= u32::MAX => {
                    &&& r matches Some((c, text))
                    &&& c == code
                    &&& text@ == reason
                },
                _ => r is None,
            },
    {
        match self {
            Error::ConnectionClosed { code, reason } => {
                let code: u64 = code.into_inner();
                if code <= u32::MAX as u64 {
                    Some((code as u32, reason.clone()))
                } else {
                    None
                }
            },
            _ => None,
        }
    }

    /// The code with which a stream was reset or stopped, where it is one that an
    /// application can give.
    pub fn stream_error(&self) -> (r: Option<u32>)
        ensures
            match self@ {
                ErrorView::StreamReset(code) if code <= u32::MAX => r == Some(code as u32),
                ErrorView::StreamStop(code) if code <= u32::MAX => r == Some(code as u32),
                _ => r is None,
            },
    {
        let code: u64 = match self {
            Error::StreamReset(code) => code.into_inner(),
            Error::StreamStop(code) => code.into_inner(),
            _ => return None,
        };
        if code <= u32::MAX as u64 {
            Some(code as u32)
        } else {
            None
        }
    }
}

/// A WebSocket failure, as far as the mapping to [`Error`] looks at it.
pub enum WebSocketFailure {
    /// The upgrade response had a status other than 101.
    Http { status: u16 },
    /// Anything else, by its message.
    Other { message: String },
}

impl From<WebSocketFailure> for Error {
    fn from(err: WebSocketFailure) -> (r: Error) {
        // A non-101 upgrade response carries the HTTP status; a variant of its own
        // lets callers act on terminal rejections (such as missing credentials).
        match err {
            WebSocketFailure::Http { status } => Error::Http(status),
            WebSocketFailure::Other { message } => Error::WebSocket(message),
        }
    }
}

impl vstd::std_specs::convert::FromSpecImpl<WebSocketFailure> for Error {
    open spec fn obeys_from_spec() -> bool {
        true
    }

    open spec fn from_spec(v: WebSocketFailure) -> Error {
        match v {
            WebSocketFailure::Http { status } => Error::Http(status),
            WebSocketFailure::Other { message } => Error::WebSocket(message),
        }
    }
}

/// Law: an error over plain values is the same error, with the same number or text.
pub proof fn lemma_error_shown(e: Error)
    ensures
        match e {
            Error::InvalidFrameType(t) => e@ == ErrorView::InvalidFrameType(t),
            Error::InvalidStreamId => e@ is InvalidStreamId,
            Error::StreamClosed => e@ is StreamClosed,
            Error::ConnectionClosed { code, reason } => e@ == (ErrorView::ConnectionClosed {
                code: code@,
                reason: reason@,
            }),
            Error::StreamReset(code) => e@ == ErrorView::StreamReset(code@),
            Error::StreamStop(code) => e@ == ErrorView::StreamStop(code@),
            Error::FrameTooLarge => e@ is FrameTooLarge,
            Error::FlowControlError => e@ is FlowControlError,
            Error::StreamLimitExceeded => e@ is StreamLimitExceeded,
            Error::DuplicateParam(id) => e@ == ErrorView::DuplicateParam(id),
            Error::Short => e@ is Short,
            Error::Closed => e@ is Closed,
            Error::IdleTimeout => e@ is IdleTimeout,
            Error::HandshakeTimeout => e@ is HandshakeTimeout,
            Error::InvalidProtocol(s) => e@ == ErrorView::InvalidProtocol(s@),
            Error::UnexpectedProtocols => e@ is UnexpectedProtocols,
            Error::InvalidServerName => e@ is InvalidServerName,
            Error::Http(status) => e@ == ErrorView::Http(status),
            Error::Io(s) => e@ == ErrorView::Io(s@),
            Error::WebSocket(s) => e@ == ErrorView::WebSocket(s@),
            Error::DatagramsUnsupported => e@ is DatagramsUnsupported,
        },
{
}

} // verus!
