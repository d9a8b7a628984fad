//! WebTransport over quiche: the state of each stream, and what to ask of the
//! connection when it makes progress.
//!
//! A QUIC connection is driven by one task. The states here decide what that
//! task asks of the connection on behalf of a stream, one call at a time, and
//! take the reply to each call.

pub mod client;
pub mod connection;
pub mod error;
pub mod queue;
pub mod recv;
pub mod send;

pub use client::{ClientBuilder, ClientError, ClientVerify};
pub use connection::{Capsule, ConnectionClosed, ConnectionStats};
pub use error::{ConnectionError, StreamError};
pub use recv::RecvState;
pub use send::SendState;
