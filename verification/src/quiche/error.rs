//! The errors of connections and streams.

use vstd::prelude::*;

use crate::text::{decimal, decimal_text};

verus! {

/// Why a connection ended.
#[derive(Debug)]
pub enum ConnectionError {
    /// An error of the QUIC implementation, by its message.
    Quiche(String),
    /// The peer closed the connection, with a code and a reason.
    Remote(u64, String),
    /// We closed the connection, with a code and a reason.
    Local(u64, String),
    /// All handles were dropped without an explicit close.
    Dropped,
    /// An error that nothing more is known of.
    Unknown(String),
}

impl Clone for ConnectionError {
    fn clone(&self) -> (r: ConnectionError)
        ensures
            r == *self,
    {
        match self {
            ConnectionError::Quiche(s) => ConnectionError::Quiche(s.clone()),
            ConnectionError::Remote(code, s) => ConnectionError::Remote(*code, s.clone()),
            ConnectionError::Local(code, s) => ConnectionError::Local(*code, s.clone()),
            ConnectionError::Dropped => ConnectionError::Dropped,
            ConnectionError::Unknown(s) => ConnectionError::Unknown(s.clone()),
        }
    }
}

impl ConnectionError {
    /// The message of the error.
    pub open spec fn message_text(self) -> Seq<char> {
        match self {
            ConnectionError::Quiche(text) => "quiche error: "@ + text@,
            ConnectionError::Remote(code, reason) => "remote CONNECTION_CLOSE: code="@
                + decimal_text(code as nat) + " reason="@ + reason@,
            ConnectionError::Local(code, reason) => "local CONNECTION_CLOSE: code="@
                + decimal_text(code as nat) + " reason="@ + reason@,
            ConnectionError::Dropped => "connection dropped"@,
            ConnectionError::Unknown(text) => "unknown error: "@ + text@,
        }
    }

    /// What to tell a person.
    pub fn message(&self) -> (r: String)
        ensures
            r@ == self.message_text(),
    {
        match self {
            ConnectionError::Quiche(text) => "quiche error: ".to_string().concat(text.as_str()),
            ConnectionError::Remote(code, reason) => {
                "remote CONNECTION_CLOSE: code=".to_string().concat(
                    decimal(*code).as_str(),
                ).concat(" reason=").concat(reason.as_str())
            },
            ConnectionError::Local(code, reason) => {
                "local CONNECTION_CLOSE: code=".to_string().concat(decimal(*code).as_str()).concat(
                    " reason=",
                ).concat(reason.as_str())
            },
            ConnectionError::Dropped => "connection dropped".to_string(),
            ConnectionError::Unknown(text) => "unknown error: ".to_string().concat(text.as_str()),
        }
    }
}

/// Why a stream can no longer be used.
#[derive(Debug)]
pub enum StreamError {
    /// The connection ended.
    Connection(ConnectionError),
    /// The stream was reset with a code.
    Reset(u64),
    /// The stream was stopped with a code.
    Stop(u64),
    /// The stream was finished.
    Closed,
}

impl From<ConnectionError> for StreamError {
    fn from(e: ConnectionError) -> (r: StreamError)
        ensures
            r == StreamError::Connection(e),
    {
        StreamError::Connection(e)
    }
}

impl vstd::std_specs::convert::FromSpecImpl<ConnectionError> for StreamError {
    open spec fn obeys_from_spec() -> bool {
        true
    }

    open spec fn from_spec(e: ConnectionError) -> StreamError {
        StreamError::Connection(e)
    }
}

} // verus!
