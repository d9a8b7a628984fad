//! The errors that callers in other languages see, and how every other error
//! becomes one.

use vstd::prelude::*;

use crate::http3::code::{application_code, error_from_http3};
use crate::noq::stream::{ReadError, WriteError};
use crate::text::{decimal, decimal_text, from_utf8_lossy, read_text};

verus! {

/// The error of every operation.
#[derive(Debug)]
pub enum WebTransportError {
    /// The connection could not be made.
    Connect(String),
    /// The server answered with another status than success.
    SessionRejected { status_code: u16, detail: String },
    /// The peer closed the session.
    SessionClosedByPeer { closed_by: String, code: Option<u64>, reason: String },
    /// We closed the session.
    SessionClosedLocally,
    /// The session timed out.
    SessionTimeout,
    /// Somebody broke the protocol.
    Protocol(String),
    /// The peer reset or stopped the stream.
    StreamClosedByPeer { kind: String, code: u32 },
    /// We closed the stream.
    StreamClosedLocally,
    /// The stream held more than the limit.
    StreamTooLong { limit: u64 },
    /// The stream ended too early.
    StreamIncompleteRead { expected: u64, got: u64, partial: Vec<u8> },
    /// The datagram does not fit into a packet.
    DatagramTooLarge,
    /// Datagrams are not available.
    DatagramNotSupported { reason: String },
    /// An argument that cannot be used.
    InvalidArgument(String),
    /// The operating system, or a task, failed.
    Io(String),
    /// The operation was cancelled.
    Cancelled,
}

/// A [`WebTransportError`] with its text as characters.
pub enum ErrorView {
    Connect(Seq<char>),
    SessionRejected { status_code: u16, detail: Seq<char> },
    SessionClosedByPeer { closed_by: Seq<char>, code: Option<u64>, reason: Seq<char> },
    SessionClosedLocally,
    SessionTimeout,
    Protocol(Seq<char>),
    StreamClosedByPeer { kind: Seq<char>, code: u32 },
    StreamClosedLocally,
    StreamTooLong { limit: u64 },
    StreamIncompleteRead { expected: u64, got: u64, partial: Seq<u8> },
    DatagramTooLarge,
    DatagramNotSupported { reason: Seq<char> },
    InvalidArgument(Seq<char>),
    Io(Seq<char>),
    Cancelled,
}

impl View for WebTransportError {
    type V = ErrorView;

    open spec fn view(&self) -> ErrorView {
        match self {
            WebTransportError::Connect(s) => ErrorView::Connect(s@),
            WebTransportError::SessionRejected { status_code, detail } => {
                ErrorView::SessionRejected { status_code: *status_code, detail: detail@ }
            },
            WebTransportError::SessionClosedByPeer { closed_by, code, reason } => {
                ErrorView::SessionClosedByPeer {
                    closed_by: closed_by@,
                    code: *code,
                    reason: reason@,
                }
            },
            WebTransportError::SessionClosedLocally => ErrorView::SessionClosedLocally,
            WebTransportError::SessionTimeout => ErrorView::SessionTimeout,
            WebTransportError::Protocol(s) => ErrorView::Protocol(s@),
            WebTransportError::StreamClosedByPeer { kind, code } => ErrorView::StreamClosedByPeer {
                kind: kind@,
                code: *code,
            },
            WebTransportError::StreamClosedLocally => ErrorView::StreamClosedLocally,
            WebTransportError::StreamTooLong { limit } => ErrorView::StreamTooLong {
                limit: *limit,
            },
            WebTransportError::StreamIncompleteRead { expected, got, partial } => {
                ErrorView::StreamIncompleteRead {
                    expected: *expected,
                    got: *got,
                    partial: partial@,
                }
            },
            WebTransportError::DatagramTooLarge => ErrorView::DatagramTooLarge,
            WebTransportError::DatagramNotSupported { reason } => ErrorView::DatagramNotSupported {
                reason: reason@,
            },
            WebTransportError::InvalidArgument(s) => ErrorView::InvalidArgument(s@),
            WebTransportError::Io(s) => ErrorView::Io(s@),
            WebTransportError::Cancelled => ErrorView::Cancelled,
        }
    }
}

/// The message of an error.
pub open spec fn message_of(e: ErrorView) -> Seq<char> {
    match e {
        ErrorView::Connect(text) => "connect: "@ + text,
        ErrorView::SessionRejected { status_code, detail } => "session rejected: HTTP "@
            + decimal_text(status_code as nat) + ": "@ + detail,
        ErrorView::SessionClosedByPeer { closed_by, reason, .. } => "session closed by peer ("@
            + closed_by + "): "@ + reason,
        ErrorView::SessionClosedLocally => "session closed locally"@,
        ErrorView::SessionTimeout => "session timed out"@,
        ErrorView::Protocol(text) => "protocol: "@ + text,
        ErrorView::StreamClosedByPeer { kind, code } => "stream "@ + kind + " by peer with code "@
            + decimal_text(code as nat),
        ErrorView::StreamClosedLocally => "stream closed locally"@,
        ErrorView::StreamTooLong { limit } => "stream data exceeded "@ + decimal_text(limit as nat)
            + " byte limit"@,
        ErrorView::StreamIncompleteRead { expected, got, .. } => "expected "@ + decimal_text(
            expected as nat,
        ) + " bytes, got "@ + decimal_text(got as nat) + " before EOF"@,
        ErrorView::DatagramTooLarge => "datagram too large"@,
        ErrorView::DatagramNotSupported { reason } => "datagrams not supported: "@ + reason,
        ErrorView::InvalidArgument(text) => "invalid argument: "@ + text,
        ErrorView::Io(text) => "io: "@ + text,
        ErrorView::Cancelled => "cancelled"@,
    }
}

impl WebTransportError {
    /// What to tell a person.
    pub fn message(&self) -> (r: String)
        ensures
            r@ == message_of(self@),
    {
        match self {
            WebTransportError::Connect(text) => "connect: ".to_string().concat(text.as_str()),
            WebTransportError::SessionRejected { status_code, detail } => {
                "session rejected: HTTP ".to_string().concat(
                    decimal(*status_code as u64).as_str(),
                ).concat(": ").concat(detail.as_str())
            },
            WebTransportError::SessionClosedByPeer { closed_by, code: _, reason } => {
                "session closed by peer (".to_string().concat(closed_by.as_str()).concat(
                    "): ",
                ).concat(reason.as_str())
            },
            WebTransportError::SessionClosedLocally => "session closed locally".to_string(),
            WebTransportError::SessionTimeout => "session timed out".to_string(),
            WebTransportError::Protocol(text) => "protocol: ".to_string().concat(text.as_str()),
            WebTransportError::StreamClosedByPeer { kind, code } => {
                "stream ".to_string().concat(kind.as_str()).concat(" by peer with code ").concat(
                    decimal(*code as u64).as_str(),
                )
            },
            WebTransportError::StreamClosedLocally => "stream closed locally".to_string(),
            WebTransportError::StreamTooLong { limit } => {
                "stream data exceeded ".to_string().concat(decimal(*limit).as_str()).concat(
                    " byte limit",
                )
            },
            WebTransportError::StreamIncompleteRead { expected, got, partial: _ } => {
                "expected ".to_string().concat(decimal(*expected).as_str()).concat(
                    " bytes, got ",
                ).concat(decimal(*got).as_str()).concat(" before EOF")
            },
            WebTransportError::DatagramTooLarge => "datagram too large".to_string(),
            WebTransportError::DatagramNotSupported { reason } => {
                "datagrams not supported: ".to_string().concat(reason.as_str())
            },
            WebTransportError::InvalidArgument(text) => {
                "invalid argument: ".to_string().concat(text.as_str())
            },
            WebTransportError::Io(text) => "io: ".to_string().concat(text.as_str()),
            WebTransportError::Cancelled => "cancelled".to_string(),
        }
    }

    /// An argument that cannot be used.
    pub fn invalid(msg: &str) -> (r: WebTransportError)
        ensures
            r@ == ErrorView::InvalidArgument(msg@),
    {
        WebTransportError::InvalidArgument(msg.to_string())
    }

    /// An argument that cannot be used, with what was found wrong with it.
    pub fn invalid_with(label: &str, cause: &str) -> (r: WebTransportError)
        ensures
            r@ == ErrorView::InvalidArgument(label@ + cause@),
    {
        WebTransportError::InvalidArgument(label.to_string().concat(cause))
    }

    /// A breach of the protocol.
    pub fn protocol(msg: &str) -> (r: WebTransportError)
        ensures
            r@ == ErrorView::Protocol(msg@),
    {
        WebTransportError::Protocol(msg.to_string())
    }

    /// A failure of the operating system or of a task, with its cause.
    pub fn io_with(label: &str, cause: &str) -> (r: WebTransportError)
        ensures
            r@ == ErrorView::Io(label@ + cause@),
    {
        WebTransportError::Io(label.to_string().concat(cause))
    }
}

/// Why a connection ended.
#[derive(Debug)]
pub enum ConnectionError {
    /// The peer uses no version of QUIC that we do.
    VersionMismatch,
    /// The peer broke the rules of the transport, by the message of the error.
    TransportError(String),
    /// The transport of the peer closed the connection.
    ConnectionClosed { error_code: u64, reason: Vec<u8> },
    /// The application of the peer closed the connection.
    ApplicationClosed { error_code: u64, reason: Vec<u8> },
    /// The peer does not know the connection.
    Reset,
    /// The peer was silent for too long.
    TimedOut,
    /// We closed the connection.
    LocallyClosed,
    /// No connection IDs are left.
    CidsExhausted,
}

/// Why a datagram was not sent.
#[derive(Debug)]
pub enum SendDatagramError {
    /// The peer takes no datagrams.
    UnsupportedByPeer,
    /// We switched datagrams off.
    Disabled,
    /// The datagram does not fit into a packet.
    TooLarge,
    /// The connection ended.
    ConnectionLost(ConnectionError),
}

/// Why a session failed above the connection.
#[derive(Debug)]
pub enum SessionFault {
    /// The peer closed the session with a code and a reason.
    Closed(u32, String),
    /// Another failure, by its message.
    Other(String),
}

/// Why a session failed.
#[derive(Debug)]
pub enum SessionError {
    ConnectionError(ConnectionError),
    WebTransportError(SessionFault),
    SendDatagramError(SendDatagramError),
}

/// Why reading to the end failed.
#[derive(Debug)]
pub enum ReadToEndError {
    /// The stream holds more than the limit.
    TooLong,
    /// A read failed.
    ReadError(ReadError<SessionError>),
}

/// Why reading an exact number of bytes failed.
#[derive(Debug)]
pub enum ReadExactError {
    /// The stream ended after so many bytes.
    FinishedEarly(usize),
    /// A read failed.
    ReadError(ReadError<SessionError>),
}

/// Why a client could not connect. Each error comes with its message.
#[derive(Debug)]
pub enum ClientError {
    /// The server answered with another status than success.
    WrongStatus { status: u16, message: String },
    /// Another failure.
    Other { message: String },
}

/// Why a server could not accept.
#[derive(Debug)]
pub enum ServerError {
    /// The connection ended.
    Connection(ConnectionError),
    /// Another failure, by its message.
    Other(String),
}

/// What a connection error becomes.
pub open spec fn connection_error(err: ConnectionError) -> ErrorView {
    match err {
        ConnectionError::TimedOut => ErrorView::SessionTimeout,
        ConnectionError::LocallyClosed => ErrorView::SessionClosedLocally,
        ConnectionError::ApplicationClosed { error_code, reason } => {
            ErrorView::SessionClosedByPeer {
                closed_by: "application"@,
                code: match application_code(error_code) {
                    Some(c) => Some(c as u64),
                    None => None,
                },
                reason: read_text(reason@),
            }
        },
        ConnectionError::ConnectionClosed { error_code, reason } => {
            ErrorView::SessionClosedByPeer {
                closed_by: "transport"@,
                code: Some(error_code),
                reason: read_text(reason@),
            }
        },
        ConnectionError::Reset => ErrorView::SessionClosedByPeer {
            closed_by: "connection-reset"@,
            code: None,
            reason: Seq::empty(),
        },
        ConnectionError::TransportError(message) => ErrorView::Protocol(message@),
        ConnectionError::VersionMismatch => ErrorView::Protocol("QUIC version mismatch"@),
        ConnectionError::CidsExhausted => ErrorView::Protocol("connection IDs exhausted"@),
    }
}

/// What an error of a datagram becomes.
pub open spec fn send_datagram_error(err: SendDatagramError) -> ErrorView {
    match err {
        SendDatagramError::UnsupportedByPeer => ErrorView::DatagramNotSupported {
            reason: "unsupported_by_peer"@,
        },
        SendDatagramError::Disabled => ErrorView::DatagramNotSupported {
            reason: "disabled_locally"@,
        },
        SendDatagramError::TooLarge => ErrorView::DatagramTooLarge,
        SendDatagramError::ConnectionLost(e) => connection_error(e),
    }
}

/// What a session error becomes.
pub open spec fn session_error(err: SessionError) -> ErrorView {
    match err {
        SessionError::ConnectionError(e) => connection_error(e),
        SessionError::WebTransportError(SessionFault::Closed(code, reason)) => {
            ErrorView::SessionClosedByPeer {
                closed_by: "session"@,
                code: Some(code as u64),
                reason: reason@,
            }
        },
        SessionError::WebTransportError(SessionFault::Other(message)) => ErrorView::Protocol(
            message@,
        ),
        SessionError::SendDatagramError(e) => send_datagram_error(e),
    }
}

/// What an error of a write becomes.
pub open spec fn write_error(err: WriteError<SessionError>) -> ErrorView {
    match err {
        WriteError::Stopped(code) => ErrorView::StreamClosedByPeer { kind: "stop"@, code },
        WriteError::InvalidStopped(_) => ErrorView::Protocol(
            "peer sent STOP_SENDING with invalid error code"@,
        ),
        WriteError::SessionError(e) => session_error(e),
        WriteError::ClosedStream => ErrorView::StreamClosedLocally,
    }
}

/// What an error of a read becomes.
pub open spec fn read_error(err: ReadError<SessionError>) -> ErrorView {
    match err {
        ReadError::Reset(code) => ErrorView::StreamClosedByPeer { kind: "reset"@, code },
        ReadError::InvalidReset(_) => ErrorView::Protocol(
            "peer sent RESET_STREAM with invalid error code"@,
        ),
        ReadError::SessionError(e) => session_error(e),
        ReadError::ClosedStream => ErrorView::StreamClosedLocally,
        ReadError::IllegalOrderedRead => ErrorView::Protocol(
            "illegal ordered read on unordered stream"@,
        ),
    }
}

/// What an error of reading to the end becomes.
pub open spec fn read_to_end_error(err: ReadToEndError, limit: usize) -> ErrorView {
    match err {
        ReadToEndError::TooLong => ErrorView::StreamTooLong { limit: limit as u64 },
        ReadToEndError::ReadError(e) => read_error(e),
    }
}

/// What an error of reading an exact number of bytes becomes. `buf` is what was
/// read into.
pub open spec fn read_exact_error(
    err: ReadExactError,
    expected: usize,
    buf: Seq<u8>,
) -> ErrorView {
    match err {
        ReadExactError::FinishedEarly(n) => ErrorView::StreamIncompleteRead {
            expected: expected as u64,
            got: n as u64,
            partial: buf.take(n as int),
        },
        ReadExactError::ReadError(e) => read_error(e),
    }
}

/// The reason of a close, as text.
fn close_reason_string(bytes: &[u8]) -> (r: String)
    ensures
        r@ == read_text(bytes@),
{
    from_utf8_lossy(bytes)
}

/// Map an error of a connection.
pub fn map_connection_error(err: ConnectionError) -> (r: WebTransportError)
    ensures
        r@ == connection_error(err),
{
    match err {
        ConnectionError::TimedOut => WebTransportError::SessionTimeout,
        ConnectionError::LocallyClosed => WebTransportError::SessionClosedLocally,
        ConnectionError::ApplicationClosed { error_code, reason } => {
            let code: Option<u64> = match error_from_http3(error_code) {
                Some(c) => Some(c as u64),
                None => None,
            };
            WebTransportError::SessionClosedByPeer {
                closed_by: "application".to_string(),
                code,
                reason: close_reason_string(reason.as_slice()),
            }
        },
        ConnectionError::ConnectionClosed { error_code, reason } => {
            WebTransportError::SessionClosedByPeer {
                closed_by: "transport".to_string(),
                code: Some(error_code),
                reason: close_reason_string(reason.as_slice()),
            }
        },
        ConnectionError::Reset => {
            proof {
                reveal_strlit("");
                assert(""@ =~= Seq::<char>::empty());
            }
            WebTransportError::SessionClosedByPeer {
                closed_by: "connection-reset".to_string(),
                code: None,
                reason: "".to_string(),
            }
        },
        ConnectionError::TransportError(message) => WebTransportError::Protocol(message),
        ConnectionError::VersionMismatch => WebTransportError::protocol("QUIC version mismatch"),
        ConnectionError::CidsExhausted => WebTransportError::protocol("connection IDs exhausted"),
    }
}

/// Map an error of a session.
pub fn map_session_error(err: SessionError) -> (r: WebTransportError)
    ensures
        r@ == session_error(err),
{
    match err {
        SessionError::ConnectionError(e) => map_connection_error(e),
        SessionError::WebTransportError(SessionFault::Closed(code, reason)) => {
            WebTransportError::SessionClosedByPeer {
                closed_by: "session".to_string(),
                code: Some(code as u64),
                reason,
            }
        },
        SessionError::WebTransportError(SessionFault::Other(message)) => {
            WebTransportError::Protocol(message)
        },
        SessionError::SendDatagramError(e) => map_send_datagram_error(e),
    }
}

/// Map an error of a write.
pub fn map_write_error(err: WriteError<SessionError>) -> (r: WebTransportError)
    ensures
        r@ == write_error(err),
{
    match err {
        WriteError::Stopped(code) => WebTransportError::StreamClosedByPeer {
            kind: "stop".to_string(),
            code,
        },
        WriteError::InvalidStopped(_) => WebTransportError::protocol(
            "peer sent STOP_SENDING with invalid error code",
        ),
        WriteError::SessionError(e) => map_session_error(e),
        WriteError::ClosedStream => WebTransportError::StreamClosedLocally,
    }
}

/// Map an error of a read.
pub fn map_read_error(err: ReadError<SessionError>) -> (r: WebTransportError)
    ensures
        r@ == read_error(err),
{
    match err {
        ReadError::Reset(code) => WebTransportError::StreamClosedByPeer {
            kind: "reset".to_string(),
            code,
        },
        ReadError::InvalidReset(_) => WebTransportError::protocol(
            "peer sent RESET_STREAM with invalid error code",
        ),
        ReadError::SessionError(e) => map_session_error(e),
        ReadError::ClosedStream => WebTransportError::StreamClosedLocally,
        ReadError::IllegalOrderedRead => WebTransportError::protocol(
            "illegal ordered read on unordered stream",
        ),
    }
}

/// Map an error of reading to the end.
pub fn map_read_to_end_error(err: ReadToEndError, limit: usize) -> (r: WebTransportError)
    ensures
        r@ == read_to_end_error(err, limit),
{
    match err {
        ReadToEndError::TooLong => WebTransportError::StreamTooLong { limit: limit as u64 },
        ReadToEndError::ReadError(e) => map_read_error(e),
    }
}

/// Map an error of reading an exact number of bytes into `buf`.
pub fn map_read_exact_error(err: ReadExactError, expected: usize, buf: &[u8]) -> (r:
    WebTransportError)
    requires
        err matches ReadExactError::FinishedEarly(n) ==> n <= buf@.len(),
    ensures
        r@ == read_exact_error(err, expected, buf@),
{
    match err {
        ReadExactError::FinishedEarly(n) => {
            let partial = vstd::slice::slice_to_vec(vstd::slice::slice_subrange(buf, 0, n));
            assert(partial@ =~= buf@.take(n as int));
            WebTransportError::StreamIncompleteRead {
                expected: expected as u64,
                got: n as u64,
                partial,
            }
        },
        ReadExactError::ReadError(e) => map_read_error(e),
    }
}

/// Map an error of a datagram.
pub fn map_send_datagram_error(err: SendDatagramError) -> (r: WebTransportError)
    ensures
        r@ == send_datagram_error(err),
{
    match err {
        SendDatagramError::UnsupportedByPeer => WebTransportError::DatagramNotSupported {
            reason: "unsupported_by_peer".to_string(),
        },
        SendDatagramError::Disabled => WebTransportError::DatagramNotSupported {
            reason: "disabled_locally".to_string(),
        },
        SendDatagramError::TooLarge => WebTransportError::DatagramTooLarge,
        SendDatagramError::ConnectionLost(e) => map_connection_error(e),
    }
}

/// Map an error of a client: a refusal keeps its HTTP status.
pub fn map_client_error(err: ClientError) -> (r: WebTransportError)
    ensures
        r@ == (match err {
            ClientError::WrongStatus { status, message } => ErrorView::SessionRejected {
                status_code: status,
                detail: message@,
            },
            ClientError::Other { message } => ErrorView::Connect(message@),
        }),
{
    match err {
        ClientError::WrongStatus { status, message } => WebTransportError::SessionRejected {
            status_code: status,
            detail: message,
        },
        ClientError::Other { message } => WebTransportError::Connect(message),
    }
}

/// What an error of a server becomes.
pub open spec fn server_error(err: ServerError) -> ErrorView {
    match err {
        ServerError::Connection(e) => connection_error(e),
        ServerError::Other(message) => ErrorView::Protocol(message@),
    }
}

/// Map an error of a server.
pub fn map_server_error(err: ServerError) -> (r: WebTransportError)
    ensures
        r@ == server_error(err),
{
    match err {
        ServerError::Connection(e) => map_connection_error(e),
        ServerError::Other(message) => WebTransportError::Protocol(message),
    }
}

/// How a task ended that ran on behalf of a caller.
#[derive(Debug)]
pub enum TaskOutcome<T> {
    /// It ran to its end.
    Done(Result<T, WebTransportError>),
    /// It was cancelled.
    Cancelled,
    /// It failed, by the message of the failure.
    Failed(String),
}

/// The result of an operation that the caller can cancel.
pub fn abortable<T>(outcome: TaskOutcome<T>) -> (r: Result<T, WebTransportError>)
    ensures
        match outcome {
            TaskOutcome::Done(result) => r == result,
            TaskOutcome::Cancelled => r matches Err(e) && e@ == ErrorView::Cancelled,
            TaskOutcome::Failed(cause) => r matches Err(e) && e@ == ErrorView::Io(
                "task: "@ + cause@,
            ),
        },
{
    match outcome {
        TaskOutcome::Done(result) => result,
        TaskOutcome::Cancelled => Err(WebTransportError::Cancelled),
        TaskOutcome::Failed(cause) => Err(WebTransportError::io_with("task: ", cause.as_str())),
    }
}

/// The result of a task that was waited for, under the label of the operation.
pub fn joined<T>(label: &str, outcome: Result<Result<T, WebTransportError>, String>) -> (r: Result<
    T,
    WebTransportError,
>)
    ensures
        match outcome {
            Ok(result) => r == result,
            Err(cause) => r matches Err(e) && e@ == ErrorView::Io(label@ + cause@),
        },
{
    match outcome {
        Ok(result) => result,
        Err(cause) => Err(WebTransportError::io_with(label, cause.as_str())),
    }
}

/// Whatever loses the connection is reported the same, on a session, in a stream
/// and for a datagram.
pub proof fn lemma_connection_error_shows_through(err: ConnectionError)
    ensures
        session_error(SessionError::ConnectionError(err)) == connection_error(err),
        session_error(
            SessionError::SendDatagramError(SendDatagramError::ConnectionLost(err)),
        ) == connection_error(err),
        read_error(ReadError::SessionError(SessionError::ConnectionError(err)))
            == connection_error(err),
        write_error(WriteError::SessionError(SessionError::ConnectionError(err)))
            == connection_error(err),
        server_error(ServerError::Connection(err)) == connection_error(err),
{
}

/// A session that the application of the peer closes with a code is reported
/// with that code.
pub proof fn lemma_close_code_reported(code: u32, reason: Vec<u8>)
    ensures
        connection_error(
            ConnectionError::ApplicationClosed {
                error_code: crate::http3::code::http3_code(code),
                reason,
            },
        ) == (ErrorView::SessionClosedByPeer {
            closed_by: "application"@,
            code: Some(code as u64),
            reason: read_text(reason@),
        }),
{
    crate::http3::code::lemma_code_round_trip(code);
}

/// Who ended a session is told apart: the application of the peer, its transport, the
/// session itself, a peer that lost the connection, and our own side.
pub proof fn lemma_end_of_session(error_code: u64, code: u32, reason: Vec<u8>, text: String)
    ensures
        connection_error(ConnectionError::ApplicationClosed { error_code, reason }) matches
            ErrorView::SessionClosedByPeer { closed_by, code: c, reason: r } && closed_by
            == "application"@ && r == read_text(reason@) && c == match application_code(
            error_code,
        ) {
            Some(a) => Some(a as u64),
            None => None::<u64>,
        },
        connection_error(ConnectionError::ConnectionClosed { error_code, reason }) == (
        ErrorView::SessionClosedByPeer {
            closed_by: "transport"@,
            code: Some(error_code),
            reason: read_text(reason@),
        }),
        session_error(SessionError::WebTransportError(SessionFault::Closed(code, text))) == (
        ErrorView::SessionClosedByPeer {
            closed_by: "session"@,
            code: Some(code as u64),
            reason: text@,
        }),
        connection_error(ConnectionError::Reset) matches ErrorView::SessionClosedByPeer {
            closed_by,
            code: c,
            reason: r,
        } && closed_by == "connection-reset"@ && c is None && r.len() == 0,
        connection_error(ConnectionError::LocallyClosed) is SessionClosedLocally,
        connection_error(ConnectionError::TimedOut) is SessionTimeout,
{
}

/// What breaks the protocol is reported as such, with what the error says.
pub proof fn lemma_broken_protocol(text: String, code: u64)
    ensures
        connection_error(ConnectionError::TransportError(text)) == ErrorView::Protocol(text@),
        connection_error(ConnectionError::VersionMismatch) is Protocol,
        connection_error(ConnectionError::CidsExhausted) is Protocol,
        connection_error(ConnectionError::VersionMismatch) == ErrorView::Protocol(
            "QUIC version mismatch"@,
        ),
        connection_error(ConnectionError::CidsExhausted) == ErrorView::Protocol(
            "connection IDs exhausted"@,
        ),
        session_error(SessionError::WebTransportError(SessionFault::Other(text)))
            == ErrorView::Protocol(text@),
        server_error(ServerError::Other(text)) == ErrorView::Protocol(text@),
        write_error(WriteError::InvalidStopped(code)) == ErrorView::Protocol(
            "peer sent STOP_SENDING with invalid error code"@,
        ),
        read_error(ReadError::InvalidReset(code)) == ErrorView::Protocol(
            "peer sent RESET_STREAM with invalid error code"@,
        ),
        read_error(ReadError::IllegalOrderedRead) == ErrorView::Protocol(
            "illegal ordered read on unordered stream"@,
        ),
{
}

/// A stream that the peer ended is reported with its code, and one that we ended as
/// ours.
pub proof fn lemma_end_of_stream(code: u32)
    ensures
        write_error(WriteError::Stopped(code)) == (ErrorView::StreamClosedByPeer {
            kind: "stop"@,
            code,
        }),
        read_error(ReadError::Reset(code)) == (ErrorView::StreamClosedByPeer {
            kind: "reset"@,
            code,
        }),
        write_error(WriteError::ClosedStream) is StreamClosedLocally,
        read_error(ReadError::ClosedStream) is StreamClosedLocally,
{
}

/// A read that cannot be completed is reported with its limit, or with what was there.
pub proof fn lemma_incomplete_read(limit: usize, n: usize, buf: Seq<u8>)
    requires
        n <= buf.len(),
    ensures
        read_to_end_error(ReadToEndError::TooLong, limit) == (ErrorView::StreamTooLong {
            limit: limit as u64,
        }),
        read_exact_error(ReadExactError::FinishedEarly(n), limit, buf) matches
            ErrorView::StreamIncompleteRead { expected, got, partial } && expected == limit && got
            == n && partial.len() == n && forall|i: int|
            0 <= i < n ==> #[trigger] partial[i] == buf[i],
{
}

/// A failed read shows through, however much was asked for.
pub proof fn lemma_read_error_shows_through(
    err: ReadError<SessionError>,
    limit: usize,
    buf: Seq<u8>,
)
    ensures
        read_to_end_error(ReadToEndError::ReadError(err), limit) == read_error(err),
        read_exact_error(ReadExactError::ReadError(err), limit, buf) == read_error(err),
{
}

/// Why a datagram was not sent.
pub proof fn lemma_unsent_datagram()
    ensures
        send_datagram_error(SendDatagramError::TooLarge) is DatagramTooLarge,
        send_datagram_error(SendDatagramError::UnsupportedByPeer) == (
        ErrorView::DatagramNotSupported { reason: "unsupported_by_peer"@ }),
        send_datagram_error(SendDatagramError::Disabled) == (ErrorView::DatagramNotSupported {
            reason: "disabled_locally"@,
        }),
{
}

} // verus!
