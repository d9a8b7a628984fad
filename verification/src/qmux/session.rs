//! The state of a session and how frames change it.

pub mod effects;
pub mod idle;
pub mod laws;
pub mod link;
pub mod model;
pub mod outbound;
pub mod recv;
pub mod recv_open;
pub mod send;
pub mod start;
pub mod state;

pub use idle::IdleTimer;
pub use outbound::{
    InboundDatagrams, Next, Outbound, WriteTask, WriterState, close, send_datagram, transmit,
    write_step,
};
pub use recv::{ReadStep, RecvStream, read_reported};
pub use recv_open::RecvOpen;
pub use send::{Piece, SendStream, WriteStep};
pub use start::{Handshake, build_stream_session, decode_message, finish_handshake};
pub use state::{Event, SessionState, negotiated_idle_timeout_ms};
