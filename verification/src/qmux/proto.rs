//! Wire format types for QMux frame encoding and decoding.

use vstd::prelude::*;

pub mod frame;
pub mod layout;
pub mod params;
pub mod varint;
pub mod version;
pub mod wire;

pub use frame::{
    ConnectionClose, Datagram, Frame, Ping, ResetStream, StopSending, Stream,
};
pub use params::{DEFAULT_MAX_RECORD_SIZE, TransportParams, varint_size};
pub use varint::VarInt;
pub use version::Version;

verus! {

/// Maximum size of a single QMux frame on the wire (type + fields + payload).
/// For draft-01, this is superseded by `max_record_size`.
pub const MAX_FRAME_SIZE: usize = 16384;

/// Maximum payload size for a STREAM frame, accounting for frame overhead:
/// frame type, stream id and length take up to 8 bytes each.
pub const MAX_FRAME_PAYLOAD: usize = MAX_FRAME_SIZE - 24;

} // verus!
