//! Unix domain socket transport.

use std::time::Duration;

use vstd::prelude::*;

use super::config::Protocol;
use super::proto::version::Version;

verus! {

/// Builder for a QMux session over a Unix domain socket.
///
/// Like [`crate::qmux::tcp::Config`], but over a Unix socket: ideal within a host,
/// where the TLS/ALPN handshake of a network transport would be pure overhead. The
/// application protocol (if any) is negotiated in-band via [`Config::protocols`].
#[derive(Debug)]
pub struct Config {
    inner: super::config::Config,
}

impl Config {
    /// The session config that was built.
    pub closed spec fn built(self) -> super::config::Config {
        self.inner
    }

    /// Start building a Unix-socket session speaking QMux `version`.
    pub fn new(version: Version) -> (r: Config)
        ensures
            r.built().version == version,
            r.built().protocol is NoProtocol,
            r.built().has_default_limits(),
    {
        Config { inner: super::config::Config::new(version) }
    }

    /// Advertise these application protocols for in-band negotiation, in
    /// preference order. Omit to run without an application protocol.
    pub fn protocols(self, protocols: Vec<String>) -> (r: Config)
        ensures
            r.built() == (super::config::Config {
                protocol: Protocol::Negotiate(protocols),
                ..self.built()
            }),
    {
        let mut inner = self.inner;
        inner.protocol = Protocol::Negotiate(protocols);
        Config { inner }
    }

    /// Hold the `path` of a requested resource.
    ///
    /// A Unix socket has no URL, so a client that needs to address a specific
    /// resource names its path here. Omit to ask for none. The path is only held:
    /// no frame or parameter carries it to the peer.
    pub fn path(self, path: String) -> (r: Config)
        ensures
            r.built() == (super::config::Config { path: Some(path), ..self.built() }),
    {
        let mut inner = self.inner;
        inner.path = Some(path);
        Config { inner }
    }

    /// Override how long establishment waits for the peer's transport parameters
    /// before failing. Defaults to 10s; a zero duration waits indefinitely.
    pub fn handshake_timeout(self, timeout: Duration) -> (r: Config)
        ensures
            r.built() == (super::config::Config { handshake_timeout: timeout, ..self.built() }),
    {
        let mut inner = self.inner;
        inner.handshake_timeout = timeout;
        Config { inner }
    }

    /// The session config.
    pub fn build(self) -> (r: super::config::Config)
        ensures
            r == self.built(),
    {
        self.inner
    }
}

} // verus!
