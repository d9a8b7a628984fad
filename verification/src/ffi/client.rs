//! What a client is configured with, and where it connects.

use vstd::prelude::*;

use super::error::{ErrorView, WebTransportError};
use crate::noq::client::Algorithm;
use crate::qmux::proto::varint::{VARINT_MAX, VarInt};
use crate::url::{ParsedUrl, parsed};

pub use crate::noq::client::CongestionControl;

verus! {

/// The configuration of a client. `D` is a number of seconds.
#[derive(Debug)]
pub struct ClientConfig<D> {
    /// The SHA-256 hashes of the certificates to accept. Not together with
    /// `no_cert_verification`.
    pub server_certificate_hashes: Option<Vec<Vec<u8>>>,
    /// Accept any certificate.
    pub no_cert_verification: bool,
    /// The congestion control.
    pub congestion_control: CongestionControl,
    /// The silence after which the connection is given up.
    pub max_idle_timeout_secs: Option<D>,
    /// The silence after which the connection is kept alive.
    pub keep_alive_interval_secs: Option<D>,
}

impl Default for ClientConfig<u64> {
    /// The roots of the system, the usual congestion control, and 30 seconds of
    /// silence.
    fn default() -> (r: ClientConfig<u64>)
        ensures
            r.server_certificate_hashes is None,
            !r.no_cert_verification,
            r.congestion_control == CongestionControl::Default,
            r.max_idle_timeout_secs == Some(30u64),
            r.keep_alive_interval_secs is None,
    {
        ClientConfig {
            server_certificate_hashes: None,
            no_cert_verification: false,
            congestion_control: CongestionControl::Default,
            max_idle_timeout_secs: Some(30),
            keep_alive_interval_secs: None,
        }
    }
}

/// How a client verifies the certificate of its server.
#[derive(Debug)]
pub enum Verification {
    /// Not at all.
    Disabled,
    /// By its SHA-256 hash, which must be one of these.
    Hashes(Vec<Vec<u8>>),
    /// Against the roots of the system.
    SystemRoots,
}

/// A client. `D` is a number of seconds.
#[derive(Debug)]
pub struct Client<D> {
    pub verification: Verification,
    pub congestion: Option<Algorithm>,
    pub max_idle_timeout_secs: Option<D>,
    pub keep_alive_interval_secs: Option<D>,
}

/// The addresses that the endpoint of a client tries to bind, in this order.
pub fn bind_addresses() -> (r: [&'static str; 2])
    ensures
        r@[0]@ == "[::]:0"@,
        r@[1]@ == "0.0.0.0:0"@,
{
    ["[::]:0", "0.0.0.0:0"]
}

impl<D> Client<D> {
    /// A client with this configuration.
    pub fn new(config: ClientConfig<D>) -> (r: Result<Client<D>, WebTransportError>)
        ensures
            match r {
                Ok(client) => {
                    &&& !(config.no_cert_verification && config.server_certificate_hashes is Some)
                    &&& client.verification == (if config.no_cert_verification {
                        Verification::Disabled
                    } else {
                        match config.server_certificate_hashes {
                            Some(hashes) => Verification::Hashes(hashes),
                            None => Verification::SystemRoots,
                        }
                    })
                    &&& client.congestion == (match config.congestion_control {
                        CongestionControl::LowLatency => Some(Algorithm::Bbr),
                        CongestionControl::Throughput => Some(Algorithm::Cubic),
                        CongestionControl::Default => None,
                    })
                    &&& client.max_idle_timeout_secs == config.max_idle_timeout_secs
                    &&& client.keep_alive_interval_secs == config.keep_alive_interval_secs
                },
                Err(e) => {
                    &&& config.no_cert_verification && config.server_certificate_hashes is Some
                    &&& e@ == ErrorView::InvalidArgument(
                        "no_cert_verification and server_certificate_hashes are mutually exclusive"@,
                    )
                },
            },
    {
        if config.no_cert_verification && config.server_certificate_hashes.is_some() {
            return Err(
                WebTransportError::invalid(
                    "no_cert_verification and server_certificate_hashes are mutually exclusive",
                ),
            );
        }
        let verification = if config.no_cert_verification {
            Verification::Disabled
        } else {
            match config.server_certificate_hashes {
                Some(hashes) => Verification::Hashes(hashes),
                None => Verification::SystemRoots,
            }
        };
        Ok(
            Client {
                verification,
                congestion: config.congestion_control.algorithm(),
                max_idle_timeout_secs: config.max_idle_timeout_secs,
                keep_alive_interval_secs: config.keep_alive_interval_secs,
            },
        )
    }

    /// The URL to connect to.
    pub fn connect(&self, url: &str) -> (r: Result<ParsedUrl, WebTransportError>)
        ensures
            match parsed(url@) {
                Ok(view) => r matches Ok(u) && u@ == view,
                Err(cause) => r matches Err(e) && e@ == ErrorView::InvalidArgument(
                    "invalid URL: "@ + cause,
                ),
            },
    {
        url_from(ParsedUrl::parse(url))
    }
}

/// The URL to connect to, or why the text was none.
pub fn url_from(url: Result<ParsedUrl, String>) -> (r: Result<ParsedUrl, WebTransportError>)
    ensures
        match url {
            Ok(u) => r == Ok::<ParsedUrl, WebTransportError>(u),
            Err(cause) => r matches Err(e) && e@ == ErrorView::InvalidArgument(
                "invalid URL: "@ + cause@,
            ),
        },
{
    match url {
        Ok(u) => Ok(u),
        Err(cause) => Err(WebTransportError::invalid_with("invalid URL: ", cause.as_str())),
    }
}

/// The code to close all connections of an endpoint with.
pub fn close_code(code: u64) -> (r: Result<VarInt, WebTransportError>)
    ensures
        match r {
            Ok(v) => code <= VARINT_MAX && v@ == code,
            Err(e) => code > VARINT_MAX && e@ == ErrorView::InvalidArgument("code must be < 2^62"@),
        },
{
    match VarInt::from_u64(code) {
        Ok(v) => Ok(v),
        Err(_) => Err(WebTransportError::invalid("code must be < 2^62")),
    }
}

/// A number of seconds as a duration `T`, where it can be one: `converted` says
/// what became of it. `name` is the argument that it came in.
pub fn seconds_argument<T>(name: &str, converted: Option<Option<T>>) -> (r: Result<
    Option<T>,
    WebTransportError,
>)
    ensures
        match converted {
            None => r == Ok::<Option<T>, WebTransportError>(None),
            Some(Some(d)) => r == Ok::<Option<T>, WebTransportError>(Some(d)),
            Some(None) => r matches Err(e) && e@ == ErrorView::InvalidArgument("invalid "@ + name@),
        },
{
    match converted {
        None => Ok(None),
        Some(Some(d)) => Ok(Some(d)),
        Some(None) => Err(WebTransportError::invalid_with("invalid ", name)),
    }
}

/// What could be made of an argument: `cause` says why nothing, and `label` goes
/// before that.
pub fn argument<T>(label: &str, made: Result<T, String>) -> (r: Result<T, WebTransportError>)
    ensures
        match made {
            Ok(v) => r == Ok::<T, WebTransportError>(v),
            Err(cause) => r matches Err(e) && e@ == ErrorView::InvalidArgument(label@ + cause@),
        },
{
    match made {
        Ok(v) => Ok(v),
        Err(cause) => Err(WebTransportError::invalid_with(label, cause.as_str())),
    }
}

} // verus!
