//! The wire format versions.

use vstd::prelude::*;

verus! {

/// The wire format version used for frame encoding and decoding.
#[derive(Debug, Clone, Copy, PartialEq, Eq, Structural)]
pub enum Version {
    /// Legacy "webtransport" wire format (WebSocket only): the frame type is one
    /// byte, there is no flow control, and few frames exist.
    WebTransport,
    /// QMux draft-00 wire format (any transport): variable-length frame types,
    /// QUIC v1 frame encoding, transport parameters.
    QMux00,
    /// QMux draft-01 wire format (any transport): adds records, pings, padding,
    /// datagrams, `max_idle_timeout` and `max_record_size`.
    QMux01,
}

impl Version {
    /// Whether the version uses QMux framing (draft-00 or later).
    pub open spec fn qmux(self) -> bool {
        self is QMux00 || self is QMux01
    }

    /// The bare ALPN identifier.
    pub open spec fn name(self) -> Seq<char> {
        match self {
            Version::WebTransport => "webtransport"@,
            Version::QMux00 => "qmux-00"@,
            Version::QMux01 => "qmux-01"@,
        }
    }

    /// The bare identifier and a dot.
    pub open spec fn dotted(self) -> Seq<char> {
        self.name().push('.')
    }

    /// Returns true if the version uses QMux framing (draft-00 or later).
    pub fn is_qmux(self) -> (r: bool)
        ensures
            r == self.qmux(),
    {
        matches!(self, Version::QMux00 | Version::QMux01)
    }

    /// The bare ALPN identifier for this version (e.g. `"qmux-01"`).
    pub fn alpn(self) -> (r: &'static str)
        ensures
            r@ == self.name(),
    {
        match self {
            Version::WebTransport => "webtransport",
            Version::QMux00 => "qmux-00",
            Version::QMux01 => "qmux-01",
        }
    }

    /// The ALPN/subprotocol prefix for this version (e.g. `"qmux-01."`).
    pub fn prefix(self) -> (r: &'static str)
        ensures
            r@ == self.dotted(),
    {
        proof {
            reveal_strlit("webtransport");
            reveal_strlit("webtransport.");
            reveal_strlit("qmux-00");
            reveal_strlit("qmux-00.");
            reveal_strlit("qmux-01");
            reveal_strlit("qmux-01.");
            assert("webtransport."@ =~= "webtransport"@.push('.'));
            assert("qmux-00."@ =~= "qmux-00"@.push('.'));
            assert("qmux-01."@ =~= "qmux-01"@.push('.'));
        }
        match self {
            Version::WebTransport => "webtransport.",
            Version::QMux00 => "qmux-00.",
            Version::QMux01 => "qmux-01.",
        }
    }

    /// All supported versions, in preference order (newest first).
    pub fn all() -> (r: [Version; 3])
        ensures
            r@ == seq![Version::QMux01, Version::QMux00, Version::WebTransport],
    {
        [Version::QMux01, Version::QMux00, Version::WebTransport]
    }
}

} // verus!
