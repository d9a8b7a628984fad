//! WebTransport over iroh: a session that is either raw or layered over HTTP/3.

pub mod session;

pub use session::Session;
