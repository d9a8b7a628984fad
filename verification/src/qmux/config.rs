//! Configuration of a session.

use std::time::Duration;

use vstd::prelude::*;

use super::proto::params::{
    DEFAULT_MAX_RECORD_SIZE, ParamsView, TransportParams, copy_names, texts,
};
use super::proto::version::Version;
use crate::time::nanoseconds;

verus! {

/// How the application-level protocol is determined for a session.
#[derive(Debug)]
pub enum Protocol {
    /// No application protocol.
    NoProtocol,
    /// Advertise these protocols and negotiate one in-band, via the QMux
    /// `application_protocols` transport parameter (preference order).
    ///
    /// For transports without ALPN (TCP, Unix sockets). Both peers must opt in:
    /// receiving the parameter while *not* in this mode is a protocol error.
    Negotiate(Vec<String>),
    /// Already negotiated out of band (TLS / WebSocket ALPN). Reported as-is; the
    /// `application_protocols` parameter is never sent, and receiving it is a
    /// protocol error.
    Negotiated(String),
}

/// A [`Protocol`] with the names as characters.
pub enum ProtocolView {
    NoProtocol,
    Negotiate(Seq<Seq<char>>),
    Negotiated(Seq<char>),
}

impl View for Protocol {
    type V = ProtocolView;

    open spec fn view(&self) -> ProtocolView {
        match self {
            Protocol::NoProtocol => ProtocolView::NoProtocol,
            Protocol::Negotiate(list) => ProtocolView::Negotiate(texts(list@)),
            Protocol::Negotiated(name) => ProtocolView::Negotiated(name@),
        }
    }
}

impl Default for Protocol {
    fn default() -> (r: Protocol)
        ensures
            r is NoProtocol,
    {
        Protocol::NoProtocol
    }
}

impl Clone for Protocol {
    fn clone(&self) -> (r: Protocol)
        ensures
            r@ == self@,
    {
        match self {
            Protocol::NoProtocol => Protocol::NoProtocol,
            Protocol::Negotiate(list) => Protocol::Negotiate(copy_names(list)),
            Protocol::Negotiated(name) => Protocol::Negotiated(name.clone()),
        }
    }
}

/// Configuration for a QMux session.
#[derive(Debug)]
pub struct Config {
    /// Wire format version.
    pub version: Version,
    /// How the application protocol is determined. See [`Protocol`].
    pub protocol: Protocol,
    /// The resource asked for, on transports that have no URL.
    pub path: Option<String>,
    /// Max concurrent bidirectional streams the peer can open.
    pub max_streams_bidi: u64,
    /// Max concurrent unidirectional streams the peer can open.
    pub max_streams_uni: u64,
    /// Connection-level receive window in bytes.
    pub max_data: u64,
    /// Per-stream receive window for bidi streams we initiate.
    pub max_stream_data_bidi_local: u64,
    /// Per-stream receive window for bidi streams the peer initiates.
    pub max_stream_data_bidi_remote: u64,
    /// Per-stream receive window for uni streams.
    pub max_stream_data_uni: u64,
    /// Idle timeout in milliseconds (0 = disabled). Only used in QMux01.
    pub max_idle_timeout: u64,
    /// Maximum QMux Record size in bytes (draft-01). Default: 16382.
    pub max_record_size: u64,
    /// The largest DATAGRAM frame we accept (0 = none). Only used in QMux01.
    pub max_datagram_frame_size: u64,
    /// How long establishment waits for the peer's transport parameters. Zero
    /// waits indefinitely.
    pub handshake_timeout: Duration,
}

impl Config {
    /// Whether everything but the version and the protocol is the default.
    pub open spec fn has_default_limits(self) -> bool {
        &&& self.path is None
        &&& self.max_streams_bidi == 100
        &&& self.max_streams_uni == 100
        &&& self.max_data == 1_048_576
        &&& self.max_stream_data_bidi_local == 262_144
        &&& self.max_stream_data_bidi_remote == 262_144
        &&& self.max_stream_data_uni == 262_144
        &&& self.max_idle_timeout == 30_000
        &&& self.max_record_size == DEFAULT_MAX_RECORD_SIZE
        &&& self.max_datagram_frame_size == 65_535
        &&& nanoseconds(self.handshake_timeout) == 10_000_000_000
    }

    /// The transport parameters that a session advertises.
    pub open spec fn params(self) -> ParamsView {
        ParamsView {
            max_idle_timeout: self.max_idle_timeout,
            initial_max_data: self.max_data,
            initial_max_stream_data_bidi_local: self.max_stream_data_bidi_local,
            initial_max_stream_data_bidi_remote: self.max_stream_data_bidi_remote,
            initial_max_stream_data_uni: self.max_stream_data_uni,
            initial_max_streams_bidi: self.max_streams_bidi,
            initial_max_streams_uni: self.max_streams_uni,
            max_datagram_frame_size: self.max_datagram_frame_size,
            max_record_size: self.max_record_size,
            protocols: match self.protocol@ {
                ProtocolView::Negotiate(list) => list,
                _ => Seq::empty(),
            },
        }
    }

    /// Create a config with default flow control values and no application
    /// protocol. Set [`Config::protocol`] to negotiate one.
    pub fn new(version: Version) -> (r: Config)
        ensures
            r.version == version,
            r.protocol is NoProtocol,
            r.has_default_limits(),
    {
        Config {
            version,
            protocol: Protocol::NoProtocol,
            path: None,
            max_streams_bidi: 100,
            max_streams_uni: 100,
            max_data: 1_048_576,  // 1 MB
            max_stream_data_bidi_local: 262_144,  // 256 KB
            max_stream_data_bidi_remote: 262_144,  // 256 KB
            max_stream_data_uni: 262_144,  // 256 KB
            max_idle_timeout: 30_000,  // 30 seconds
            max_record_size: DEFAULT_MAX_RECORD_SIZE,
            max_datagram_frame_size: 65_535,
            handshake_timeout: Duration::from_secs(10),
        }
    }

    /// Create a config whose protocol was already negotiated out of band
    /// (TLS / WebSocket ALPN). `protocol` is the chosen name, or `None`.
    pub fn negotiated(version: Version, protocol: Option<String>) -> (r: Config)
        ensures
            r.version == version,
            r.protocol == match protocol {
                Some(name) => Protocol::Negotiated(name),
                None => Protocol::NoProtocol,
            },
            r.has_default_limits(),
    {
        let mut config = Config::new(version);
        config.protocol = match protocol {
            Some(name) => Protocol::Negotiated(name),
            None => Protocol::NoProtocol,
        };
        config
    }

    /// Convert to wire-format transport parameters.
    pub fn to_transport_params(&self) -> (r: TransportParams)
        ensures
            r@ == self.params(),
    {
        // Only advertise protocols when negotiating in-band; TLS/WS already
        // chose one via ALPN and must not send this parameter.
        let protocols = match &self.protocol {
            Protocol::Negotiate(list) => copy_names(list),
            Protocol::NoProtocol | Protocol::Negotiated(_) => {
                let none: Vec<String> = Vec::new();
                assert(texts(none@) =~= Seq::empty());
                none
            },
        };
        TransportParams {
            max_idle_timeout: self.max_idle_timeout,
            initial_max_data: self.max_data,
            initial_max_stream_data_bidi_local: self.max_stream_data_bidi_local,
            initial_max_stream_data_bidi_remote: self.max_stream_data_bidi_remote,
            initial_max_stream_data_uni: self.max_stream_data_uni,
            initial_max_streams_bidi: self.max_streams_bidi,
            initial_max_streams_uni: self.max_streams_uni,
            max_datagram_frame_size: self.max_datagram_frame_size,
            max_record_size: self.max_record_size,
            protocols,
        }
    }
}

impl Default for Config {
    fn default() -> (r: Config)
        ensures
            r.version is QMux01,
            r.protocol is NoProtocol,
            r.has_default_limits(),
    {
        Config::new(Version::QMux01)
    }
}

impl Clone for Config {
    fn clone(&self) -> (r: Config)
        ensures
            r.version == self.version,
            r.protocol@ == self.protocol@,
            r.path == self.path,
            r.params() == self.params(),
            r.handshake_timeout == self.handshake_timeout,
    {
        Config {
            version: self.version,
            protocol: self.protocol.clone(),
            path: match &self.path {
                Some(path) => Some(path.clone()),
                None => None,
            },
            max_streams_bidi: self.max_streams_bidi,
            max_streams_uni: self.max_streams_uni,
            max_data: self.max_data,
            max_stream_data_bidi_local: self.max_stream_data_bidi_local,
            max_stream_data_bidi_remote: self.max_stream_data_bidi_remote,
            max_stream_data_uni: self.max_stream_data_uni,
            max_idle_timeout: self.max_idle_timeout,
            max_record_size: self.max_record_size,
            max_datagram_frame_size: self.max_datagram_frame_size,
            handshake_timeout: self.handshake_timeout,
        }
    }
}

/// Law: a session advertises what it was configured with, each limit under its own
/// name, and protocols only where they are negotiated in-band.
pub proof fn lemma_advertised_params(c: Config)
    ensures
        c.params().max_idle_timeout == c.max_idle_timeout,
        c.params().initial_max_data == c.max_data,
        c.params().initial_max_stream_data_bidi_local == c.max_stream_data_bidi_local,
        c.params().initial_max_stream_data_bidi_remote == c.max_stream_data_bidi_remote,
        c.params().initial_max_stream_data_uni == c.max_stream_data_uni,
        c.params().initial_max_streams_bidi == c.max_streams_bidi,
        c.params().initial_max_streams_uni == c.max_streams_uni,
        c.params().max_datagram_frame_size == c.max_datagram_frame_size,
        c.params().max_record_size == c.max_record_size,
        c.protocol matches Protocol::Negotiate(list) ==> c.params().protocols == texts(list@),
        !(c.protocol is Negotiate) ==> c.params().protocols.len() == 0,
{
}

/// Law: the defaults: a hundred streams of each kind, a window of a mebibyte and of a
/// quarter of one for each stream, half a minute of silence, and ten seconds to start.
pub proof fn lemma_default_limits(c: Config)
    requires
        c.has_default_limits(),
    ensures
        c.path is None,
        c.max_streams_bidi == 100 && c.max_streams_uni == 100,
        c.max_data == 1024 * 1024,
        c.max_stream_data_bidi_local == 256 * 1024,
        c.max_stream_data_bidi_remote == 256 * 1024,
        c.max_stream_data_uni == 256 * 1024,
        c.max_idle_timeout == 30 * 1000,
        c.max_record_size == 16382,
        c.max_datagram_frame_size == 65535,
        nanoseconds(c.handshake_timeout) == 10 * 1_000_000_000,
{
}

} // verus!
