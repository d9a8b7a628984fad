//! QMux (draft-ietf-quic-qmux) over reliable transports: QUIC-style multiplexed
//! streams over TCP, TLS and WebSocket, with the legacy `webtransport` wire
//! format alongside.

pub mod alpn;
pub mod config;
pub mod credit;
pub mod error;
pub mod header;
pub mod negotiate;
pub mod proto;
pub mod protocol;
pub mod sched;
pub mod session;
pub mod stream;
pub mod tcp;
pub mod tls;
pub mod transport;
pub mod uds;
pub mod ws;

pub use config::{Config, Protocol};
pub use error::Error;
pub use proto::version::Version;
pub use stream::{StreamDir, StreamId};
