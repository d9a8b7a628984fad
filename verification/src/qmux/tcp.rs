//! Plain TCP transport.

use vstd::prelude::*;

use super::config::Protocol;
use super::proto::version::Version;

verus! {

/// Builder for a QMux session over plain TCP.
///
/// TCP has no ALPN, so the wire-format `version` is given explicitly and any
/// application protocol is negotiated in-band via [`Config::protocols`].
///
/// For flow-control tuning beyond version and protocols, build a
/// [`crate::qmux::Config`] yourself.
#[derive(Debug)]
pub struct Config {
    inner: super::config::Config,
}

impl Config {
    /// The session config that was built.
    pub closed spec fn built(self) -> super::config::Config {
        self.inner
    }

    /// Start building a TCP session speaking QMux `version`.
    pub fn new(version: Version) -> (r: Config)
        ensures
            r.built().version == version,
            r.built().protocol is NoProtocol,
            r.built().has_default_limits(),
    {
        Config { inner: super::config::Config::new(version) }
    }

    /// Advertise these application protocols for in-band negotiation, in
    /// preference order. Omit to run without an application protocol.
    pub fn protocols(self, protocols: Vec<String>) -> (r: Config)
        ensures
            r.built() == (super::config::Config {
                protocol: Protocol::Negotiate(protocols),
                ..self.built()
            }),
    {
        let mut inner = self.inner;
        inner.protocol = Protocol::Negotiate(protocols);
        Config { inner }
    }

    /// The session config.
    pub fn build(self) -> (r: super::config::Config)
        ensures
            r == self.built(),
    {
        self.inner
    }
}

} // verus!
