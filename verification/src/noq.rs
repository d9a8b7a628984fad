//! WebTransport over noq: what its streams report, and where a client connects.

pub mod client;
pub mod stream;

pub use client::{ClientError, CongestionControl};
pub use stream::{ReadError, WriteError};
