//! URLs, as the `url` crate reads them.

use vstd::prelude::*;

verus! {

/// The host that a URL names.
#[derive(Debug)]
pub enum Host {
    /// A domain name.
    Domain(String),
    /// An IPv4 address, and the usual way to write it.
    Ipv4 { octets: [u8; 4], text: String },
    /// An IPv6 address, and the usual way to write it.
    Ipv6 { octets: [u8; 16], text: String },
}

/// A [`Host`] with its text as characters.
pub enum HostView {
    Domain(Seq<char>),
    Ipv4 { octets: Seq<u8>, text: Seq<char> },
    Ipv6 { octets: Seq<u8>, text: Seq<char> },
}

impl View for Host {
    type V = HostView;

    open spec fn view(&self) -> HostView {
        match self {
            Host::Domain(name) => HostView::Domain(name@),
            Host::Ipv4 { octets, text } => HostView::Ipv4 { octets: octets@, text: text@ },
            Host::Ipv6 { octets, text } => HostView::Ipv6 { octets: octets@, text: text@ },
        }
    }
}

/// The parts of a URL that a connection needs.
#[derive(Debug)]
pub struct ParsedUrl {
    /// The whole URL, in its normal form.
    pub text: String,
    /// The host, where the URL has one.
    pub host: Option<Host>,
    /// The host as it stands in the URL, with the brackets of an IPv6 address.
    pub host_text: Option<String>,
    /// The port, where it is not the default one of the scheme.
    pub port: Option<u16>,
}

/// A [`ParsedUrl`] with its text as characters.
pub struct UrlView {
    pub text: Seq<char>,
    pub host: Option<HostView>,
    pub host_text: Option<Seq<char>>,
    pub port: Option<u16>,
}

impl View for ParsedUrl {
    type V = UrlView;

    open spec fn view(&self) -> UrlView {
        UrlView {
            text: self.text@,
            host: match self.host {
                Some(host) => Some(host@),
                None => None,
            },
            host_text: match self.host_text {
                Some(text) => Some(text@),
                None => None,
            },
            port: self.port,
        }
    }
}

/// What the text reads as: a URL, or the message that says why it is none.
pub uninterp spec fn parsed(text: Seq<char>) -> Result<UrlView, Seq<char>>;

/// `url::Url::parse`, its parts by `as_str`, `host` and `port`, and the `Display`
/// of its host and of its error. The result is the one that [`parsed`] names.
#[verifier::external_body]
fn read_url(text: &str) -> (r: Result<ParsedUrl, String>)
    ensures
        match r {
            Ok(url) => parsed(text@) == Ok::<UrlView, Seq<char>>(url@),
            Err(message) => parsed(text@) == Err::<UrlView, Seq<char>>(message@),
        },
{
    let u = url::Url::parse(text).map_err(|e| e.to_string())?;
    let host = match u.host() {
        None => None,
        Some(url::Host::Domain(d)) => Some(Host::Domain(d.to_string())),
        Some(url::Host::Ipv4(a)) => Some(Host::Ipv4 { octets: a.octets(), text: a.to_string() }),
        Some(url::Host::Ipv6(a)) => Some(Host::Ipv6 { octets: a.octets(), text: a.to_string() }),
    };
    let host_text = u.host().map(|h| h.to_string());
    Ok(ParsedUrl { text: u.as_str().to_string(), host, host_text, port: u.port() })
}

impl ParsedUrl {
    /// Read a URL, or say why the text is none.
    pub fn parse(text: &str) -> (r: Result<ParsedUrl, String>)
        ensures
            match r {
                Ok(url) => parsed(text@) == Ok::<UrlView, Seq<char>>(url@),
                Err(message) => parsed(text@) == Err::<UrlView, Seq<char>>(message@),
            },
    {
        read_url(text)
    }

    /// The port to connect to: the one the URL gives, or else that of HTTPS.
    pub fn port_or_default(&self) -> (r: u16)
        ensures
            r == port_of(self@),
    {
        match self.port {
            Some(port) => port,
            None => 443,
        }
    }
}

/// The port to connect to.
pub open spec fn port_of(url: UrlView) -> u16 {
    match url.port {
        Some(port) => port,
        None => 443,
    }
}

/// Law: a port that the URL names is used, and the one of HTTPS otherwise.
pub proof fn lemma_port(url: UrlView)
    ensures
        url.port matches Some(port) ==> port_of(url) == port,
        url.port is None ==> port_of(url) == 443,
{
}

} // verus!
