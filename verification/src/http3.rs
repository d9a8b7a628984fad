//! WebTransport over HTTP/3: how application error codes share the code space of
//! HTTP/3, and the bytes in front of each stream and datagram of a session.

pub mod accept;
pub mod code;
pub mod header;

pub use accept::{BiStream, SessionAccept, UniRoute, UniStream};
pub use code::{error_from_http3, error_to_http3};
pub use header::SessionHeaders;
