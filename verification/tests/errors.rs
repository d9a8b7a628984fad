//! What errors report of themselves, and what others become.

use web_transport::ffi::WebTransportError;
use web_transport::ffi::client::close_code;
use web_transport::qmux::Error;
use web_transport::qmux::error::WebSocketFailure;
use web_transport::qmux::proto::VarInt;
use web_transport::qmux::proto::varint::{VarIntBoundsExceeded, VarIntUnexpectedEnd};
use web_transport::quiche::client::{ClientError, ClientVerify};
use web_transport::quiche::error::ConnectionError;
use web_transport::text::{decimal, hex};

#[test]
fn preserves_http_status() {
    let err: Error = WebSocketFailure::Http { status: 401 }.into();
    assert!(matches!(err, Error::Http(401)));
}

#[test]
fn non_http_preserves_source() {
    let err: Error = WebSocketFailure::Other {
        message: "Connection closed normally".to_string(),
    }
    .into();
    assert!(matches!(err, Error::WebSocket(m) if m == "Connection closed normally"));
}

#[test]
fn session_error_is_the_close_of_the_peer() {
    let closed = Error::ConnectionClosed {
        code: VarInt::from_u32(7),
        reason: "bye".to_string(),
    };
    assert_eq!(closed.session_error(), Some((7, "bye".to_string())));
    let large = Error::ConnectionClosed {
        code: VarInt::from_u64(1 << 32).unwrap(),
        reason: String::new(),
    };
    assert_eq!(large.session_error(), None);
    assert_eq!(Error::Closed.session_error(), None);
}

#[test]
fn stream_error_is_a_reset_or_a_stop() {
    assert_eq!(Error::StreamReset(VarInt::from_u32(3)).stream_error(), Some(3));
    assert_eq!(Error::StreamStop(VarInt::from_u32(4)).stream_error(), Some(4));
    let large = VarInt::from_u64(1 << 40).unwrap();
    assert_eq!(Error::StreamReset(large).stream_error(), None);
    assert_eq!(Error::StreamClosed.stream_error(), None);
}

#[test]
fn integer_errors_become_errors() {
    assert!(matches!(Error::from(VarIntUnexpectedEnd), Error::Short));
    assert!(matches!(Error::from(VarIntBoundsExceeded), Error::FlowControlError));
}

#[test]
fn a_clone_keeps_the_text() {
    let copy = Error::InvalidProtocol("x y".to_string()).clone();
    assert!(matches!(copy, Error::InvalidProtocol(p) if p == "x y"));
}

#[test]
fn every_error_has_a_message() {
    let text = |s: &str| s.to_string();
    let large = VarInt::from_u64(1 << 40).unwrap();
    let cases = [
        (Error::InvalidFrameType(63), "invalid frame type: 63"),
        (Error::InvalidStreamId, "invalid stream id"),
        (Error::StreamClosed, "stream closed"),
        (
            Error::ConnectionClosed {
                code: VarInt::from_u32(7),
                reason: text("bye"),
            },
            "connection closed: 7: bye",
        ),
        (Error::StreamReset(VarInt::from_u32(0)), "stream reset: 0"),
        (Error::StreamStop(large), "stream stop: 1099511627776"),
        (Error::FrameTooLarge, "frame too large"),
        (Error::FlowControlError, "flow control error"),
        (Error::StreamLimitExceeded, "stream limit exceeded"),
        (Error::DuplicateParam(4), "duplicate transport parameter: 0x04"),
        (Error::DuplicateParam(0x20), "duplicate transport parameter: 0x20"),
        (Error::DuplicateParam(0x571c), "duplicate transport parameter: 0x571c"),
        (Error::Short, "short frame"),
        (Error::Closed, "connection closed"),
        (Error::IdleTimeout, "idle timeout"),
        (
            Error::HandshakeTimeout,
            "handshake timeout: peer never sent transport parameters",
        ),
        (
            Error::InvalidProtocol(text("a \"b\"\n")),
            "invalid protocol token: \"a \\\"b\\\"\\n\"",
        ),
        (
            Error::UnexpectedProtocols,
            "unexpected application_protocols parameter (in-band negotiation not enabled)",
        ),
        (Error::InvalidServerName, "invalid server name"),
        (Error::Http(401), "http error status: 401"),
        (Error::Io(text("gone")), "gone"),
        (Error::WebSocket(text("gone")), "gone"),
        (Error::DatagramsUnsupported, "datagrams not supported"),
    ];
    for (err, expected) in cases {
        assert_eq!(err.message(), expected);
    }
}

#[test]
fn a_code_out_of_range_is_an_invalid_argument() {
    let err = close_code(1 << 62).unwrap_err();
    assert_eq!(err.message(), "invalid argument: code must be < 2^62");
}

#[test]
fn errors_of_other_languages_have_messages() {
    let text = |s: &str| s.to_string();
    let cases = [
        (WebTransportError::Connect(text("no route")), "connect: no route"),
        (
            WebTransportError::SessionRejected {
                status_code: 404,
                detail: text("not found"),
            },
            "session rejected: HTTP 404: not found",
        ),
        (
            WebTransportError::SessionClosedByPeer {
                closed_by: text("session"),
                code: Some(7),
                reason: text("bye"),
            },
            "session closed by peer (session): bye",
        ),
        (WebTransportError::SessionClosedLocally, "session closed locally"),
        (WebTransportError::SessionTimeout, "session timed out"),
        (WebTransportError::Protocol(text("odd")), "protocol: odd"),
        (
            WebTransportError::StreamClosedByPeer {
                kind: text("reset"),
                code: 12,
            },
            "stream reset by peer with code 12",
        ),
        (WebTransportError::StreamClosedLocally, "stream closed locally"),
        (
            WebTransportError::StreamTooLong { limit: 1000 },
            "stream data exceeded 1000 byte limit",
        ),
        (
            WebTransportError::StreamIncompleteRead {
                expected: 10,
                got: 3,
                partial: vec![1, 2, 3],
            },
            "expected 10 bytes, got 3 before EOF",
        ),
        (WebTransportError::DatagramTooLarge, "datagram too large"),
        (
            WebTransportError::DatagramNotSupported { reason: text("peer") },
            "datagrams not supported: peer",
        ),
        (WebTransportError::InvalidArgument(text("x")), "invalid argument: x"),
        (WebTransportError::Io(text("gone")), "io: gone"),
        (WebTransportError::Cancelled, "cancelled"),
    ];
    for (err, expected) in cases {
        assert_eq!(err.message(), expected);
    }
}

#[test]
fn connection_errors_have_messages() {
    let text = |s: &str| s.to_string();
    assert_eq!(ConnectionError::Quiche(text("Done")).message(), "quiche error: Done");
    assert_eq!(
        ConnectionError::Remote(5, text("bye")).message(),
        "remote CONNECTION_CLOSE: code=5 reason=bye"
    );
    assert_eq!(
        ConnectionError::Local(0, text("")).message(),
        "local CONNECTION_CLOSE: code=0 reason="
    );
    assert_eq!(ConnectionError::Dropped.message(), "connection dropped");
    assert_eq!(ConnectionError::Unknown(text("odd")).message(), "unknown error: odd");

    assert_eq!(ClientError::Io(text("gone")).message(), "io error: gone");
    assert_eq!(
        ClientError::Connection(ConnectionError::Dropped).message(),
        "connection error: connection dropped"
    );
    assert_eq!(ClientError::Settings(text("odd")).message(), "settings error: odd");
    assert_eq!(ClientError::Connect(text("odd")).message(), "connect error: odd");
    assert_eq!(
        ClientError::InvalidUrl(text("data:x")).message(),
        "invalid URL: data:x"
    );
}

#[test]
fn numbers_are_written_out() {
    for n in [0, 7, 10, 4096, u64::MAX] {
        assert_eq!(decimal(n), n.to_string());
        assert_eq!(hex(n), format!("{n:x}"));
    }
}

#[test]
fn a_pinned_hash_is_accepted() {
    let pinned = ClientVerify::Hashes(vec![[1; 32], [2; 32]]);
    assert_eq!(pinned.accepts_hash(&[2; 32]), Some(true));
    assert_eq!(pinned.accepts_hash(&[3; 32]), Some(false));
    assert_eq!(ClientVerify::Hashes(Vec::new()).accepts_hash(&[0; 32]), Some(false));
    assert_eq!(ClientVerify::Default.accepts_hash(&[1; 32]), None);
    assert_eq!(ClientVerify::Roots(Vec::new()).accepts_hash(&[1; 32]), None);
}
