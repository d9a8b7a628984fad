//! What a server is configured with, and the requests that it answers.

use vstd::prelude::*;

use super::client::{CongestionControl, argument};
use super::error::{ErrorView, WebTransportError};
use super::session::RemoteAddress;
use crate::certificate::{Identity, PrivateKey, key_form, key_from_der};
use crate::noq::client::Algorithm;
use crate::status::status_code;

verus! {

/// The configuration of a server. `D` is a number of seconds.
#[derive(Debug)]
pub struct ServerConfig<D> {
    /// The certificates in DER, leaf first.
    pub certificate_chain: Vec<Vec<u8>>,
    /// The private key in DER.
    pub private_key: Vec<u8>,
    /// The address to listen on.
    pub bind: String,
    /// The congestion control.
    pub congestion_control: CongestionControl,
    /// The silence after which a connection is given up.
    pub max_idle_timeout_secs: Option<D>,
    /// The silence after which a connection is kept alive.
    pub keep_alive_interval_secs: Option<D>,
}

/// The identity that a server presents, of its certificates and its private key
/// in DER.
pub fn server_identity(certificate_chain: Vec<Vec<u8>>, private_key: Vec<u8>) -> (r: Result<
    Identity,
    WebTransportError,
>)
    ensures
        match key_form(private_key@) {
            Ok(form) => r == Ok::<Identity, WebTransportError>(
                Identity {
                    chain: certificate_chain,
                    key: PrivateKey { form, der: private_key },
                },
            ),
            Err(cause) => r matches Err(e) && e@ == ErrorView::InvalidArgument(
                "invalid private key: "@ + cause,
            ),
        },
{
    match key_from_der(private_key) {
        Ok(key) => Ok(Identity { chain: certificate_chain, key }),
        Err(message) => Err(WebTransportError::InvalidArgument(message)),
    }
}

/// A server. `A` is an address to listen on and `D` a number of seconds.
#[derive(Debug)]
pub struct Server<A, D> {
    pub addr: A,
    pub identity: Identity,
    pub congestion: Option<Algorithm>,
    pub max_idle_timeout_secs: Option<D>,
    pub keep_alive_interval_secs: Option<D>,
}

impl<A, D> Server<A, D> {
    /// A server with this configuration. `addr` is what its `bind` was read as;
    /// an error in that goes before one in the private key.
    pub fn new(config: ServerConfig<D>, addr: Result<A, String>) -> (r: Result<
        Server<A, D>,
        WebTransportError,
    >)
        ensures
            match (addr, key_form(config.private_key@)) {
                (Ok(a), Ok(form)) => {
                    &&& r matches Ok(server)
                    &&& server.addr == a
                    &&& server.identity == (Identity {
                        chain: config.certificate_chain,
                        key: PrivateKey { form, der: config.private_key },
                    })
                    &&& server.congestion == (match config.congestion_control {
                        CongestionControl::LowLatency => Some(Algorithm::Bbr),
                        CongestionControl::Throughput => Some(Algorithm::Cubic),
                        CongestionControl::Default => None,
                    })
                    &&& server.max_idle_timeout_secs == config.max_idle_timeout_secs
                    &&& server.keep_alive_interval_secs == config.keep_alive_interval_secs
                },
                (Ok(_), Err(cause)) => r matches Err(e) && e@ == ErrorView::InvalidArgument(
                    "invalid private key: "@ + cause,
                ),
                (Err(cause), _) => r matches Err(e) && e@ == ErrorView::InvalidArgument(
                    "invalid bind address: "@ + cause@,
                ),
            },
    {
        let addr = argument("invalid bind address: ", addr)?;
        let identity = server_identity(config.certificate_chain, config.private_key)?;
        Ok(
            Server {
                addr,
                identity,
                congestion: config.congestion_control.algorithm(),
                max_idle_timeout_secs: config.max_idle_timeout_secs,
                keep_alive_interval_secs: config.keep_alive_interval_secs,
            },
        )
    }
}

/// A request for a session, which can be answered once. `Q` is the request.
#[derive(Debug)]
pub struct SessionRequest<Q> {
    pub inner: Option<Q>,
    pub url: String,
    pub remote_address: RemoteAddress,
}

impl<Q> SessionRequest<Q> {
    /// A request that was not answered.
    pub fn new(request: Q, url: String, remote_address: RemoteAddress) -> (r: SessionRequest<Q>)
        ensures
            r == (SessionRequest { inner: Some(request), url, remote_address }),
    {
        SessionRequest { inner: Some(request), url, remote_address }
    }

    /// The URL that the client asks for.
    pub fn url(&self) -> (r: String)
        ensures
            r@ == self.url@,
    {
        self.url.clone()
    }

    /// The address of the client.
    pub fn remote_address(&self) -> (r: RemoteAddress)
        ensures
            r.host@ == self.remote_address.host@,
            r.port == self.remote_address.port,
    {
        self.remote_address.copy()
    }

    /// Accept the request: it is handed out to be answered.
    pub fn accept(&mut self) -> (r: Result<Q, WebTransportError>)
        ensures
            *final(self) == (SessionRequest { inner: None, ..*old(self) }),
            match old(self).inner {
                Some(q) => r == Ok::<Q, WebTransportError>(q),
                None => r matches Err(e) && e@ == ErrorView::Protocol(
                    "request already accepted or rejected"@,
                ),
            },
    {
        match self.inner.take() {
            Some(q) => Ok(q),
            None => Err(WebTransportError::protocol("request already accepted or rejected")),
        }
    }

    /// Reject the request: it is handed out with the status to answer. A number
    /// that is no status uses the request up all the same.
    pub fn reject(&mut self, code: u16) -> (r: Result<(Q, u16), WebTransportError>)
        ensures
            *final(self) == (SessionRequest { inner: None, ..*old(self) }),
            match old(self).inner {
                Some(q) => if 100 <= code <= 999 {
                    r == Ok::<(Q, u16), WebTransportError>((q, code))
                } else {
                    r matches Err(e) && e@ == ErrorView::InvalidArgument(
                        "invalid status code: "@ + "invalid status code"@,
                    )
                },
                None => r matches Err(e) && e@ == ErrorView::Protocol(
                    "request already accepted or rejected"@,
                ),
            },
    {
        match self.inner.take() {
            Some(q) => match status_code(code) {
                Ok(status) => Ok((q, status)),
                Err(message) => Err(WebTransportError::InvalidArgument(message)),
            },
            None => Err(WebTransportError::protocol("request already accepted or rejected")),
        }
    }
}

} // verus!
