//! What a client does before there is a connection.

use vstd::prelude::*;

use crate::url::{Host, HostView, ParsedUrl, port_of};

verus! {

/// Why a client could not connect.
#[derive(Debug)]
pub enum ClientError {
    /// A host that does not resolve.
    InvalidDnsName(String),
}

/// The congestion control that an application asks for.
#[derive(Debug, Clone, Copy, PartialEq, Eq, Structural)]
pub enum CongestionControl {
    /// Whatever the transport prefers.
    Default,
    /// High throughput.
    Throughput,
    /// Low latency.
    LowLatency,
}

/// The algorithms that a transport can use.
#[derive(Debug, Clone, Copy, PartialEq, Eq, Structural)]
pub enum Algorithm {
    /// CUBIC, for throughput.
    Cubic,
    /// BBR, for latency.
    Bbr,
}

impl CongestionControl {
    /// The algorithm to configure; none leaves the transport its own.
    pub fn algorithm(self) -> (r: Option<Algorithm>)
        ensures
            r == (match self {
                CongestionControl::LowLatency => Some(Algorithm::Bbr),
                CongestionControl::Throughput => Some(Algorithm::Cubic),
                CongestionControl::Default => None,
            }),
    {
        match self {
            CongestionControl::LowLatency => Some(Algorithm::Bbr),
            CongestionControl::Throughput => Some(Algorithm::Cubic),
            CongestionControl::Default => None,
        }
    }
}

/// Where a client connects to.
#[derive(Debug)]
pub enum Remote {
    /// Look the domain up, and see [`resolved`].
    Lookup { domain: String, port: u16 },
    /// An IPv4 address, with the server name that goes with it.
    Ipv4 { host: String, octets: [u8; 4], port: u16 },
    /// An IPv6 address, with the server name that goes with it.
    Ipv6 { host: String, octets: [u8; 16], port: u16 },
}

/// Where the request for a URL goes.
pub fn request_remote(url: &ParsedUrl) -> (r: Result<Remote, ClientError>)
    ensures
        match url@.host {
            Some(HostView::Domain(name)) => {
                &&& r matches Ok(Remote::Lookup { domain, port })
                &&& domain@ == name
                &&& port == port_of(url@)
            },
            Some(HostView::Ipv4 { octets: address, text }) => {
                &&& r matches Ok(Remote::Ipv4 { host, octets, port })
                &&& host@ == text
                &&& octets@ == address
                &&& port == port_of(url@)
            },
            Some(HostView::Ipv6 { octets: address, text }) => {
                &&& r matches Ok(Remote::Ipv6 { host, octets, port })
                &&& host@ == text
                &&& octets@ == address
                &&& port == port_of(url@)
            },
            None => r matches Err(ClientError::InvalidDnsName(name)) && name@ == ""@,
        },
{
    let port: u16 = url.port_or_default();
    match &url.host {
        Some(Host::Domain(name)) => Ok(Remote::Lookup { domain: name.clone(), port }),
        Some(Host::Ipv4 { octets, text }) => Ok(
            Remote::Ipv4 { host: text.clone(), octets: *octets, port },
        ),
        Some(Host::Ipv6 { octets, text }) => Ok(
            Remote::Ipv6 { host: text.clone(), octets: *octets, port },
        ),
        None => Err(ClientError::InvalidDnsName("".to_string())),
    }
}

/// The address to connect to, of those that the domain resolved to: the first
/// one. `None` where the lookup failed.
pub fn resolved<A>(domain: String, remotes: Option<Vec<A>>) -> (r: Result<(String, A), ClientError>)
    ensures
        match remotes {
            Some(found) if found@.len() > 0 => r == Ok::<(String, A), ClientError>(
                (domain, found@[0]),
            ),
            _ => r == Err::<(String, A), ClientError>(ClientError::InvalidDnsName(domain)),
        },
{
    match remotes {
        Some(found) => {
            let mut found = found;
            if found.len() > 0 {
                Ok((domain, found.remove(0)))
            } else {
                Err(ClientError::InvalidDnsName(domain))
            }
        },
        None => Err(ClientError::InvalidDnsName(domain)),
    }
}

} // verus!
