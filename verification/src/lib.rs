//! WebTransport over several transports: the multiplexing protocol, its wire
//! formats and the state machines behind sessions and streams.
//!
//! Nothing here performs I/O. Functions take what arrived and answer with what
//! to send, so that every decision has a contract.

pub mod buffer;
pub mod certificate;
pub mod ffi;
pub mod http3;
pub mod iroh;
pub mod node;
pub mod noq;
pub mod qmux;
pub mod quiche;
pub mod status;
pub mod text;
pub mod time;
pub mod url;
