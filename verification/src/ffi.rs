//! The interface to other languages: one error type for everything, and handles
//! whose operations can be interrupted.

pub mod client;
pub mod error;
pub mod recv_stream;
pub mod send_stream;
pub mod server;
pub mod session;

pub use client::{Client, ClientConfig, CongestionControl};
pub use error::WebTransportError;
pub use recv_stream::RecvStream;
pub use send_stream::SendStream;
pub use server::{Server, ServerConfig, SessionRequest};
pub use session::{RemoteAddress, Session};
