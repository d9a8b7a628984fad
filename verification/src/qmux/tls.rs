//! TLS over TCP transport: ALPN negotiation.

use vstd::prelude::*;
use vstd::utf8::{
    decode_utf8, encode_utf8, encode_utf8_decode_utf8, encode_utf8_valid_utf8, valid_utf8,
};

use super::alpn::{EntryView, build_entries, entries_view, offered, parse, parsed};
use super::config::Config;
use super::error::{Error, ErrorView};
use super::proto::params::texts;
use super::proto::version::Version;
use super::ws::{client_config, is_negotiated, pairs_view, push_entries, push_entry, with_entry};
use crate::text::from_utf8;

verus! {

/// Whether TLS can carry a name as that of a server: a DNS name or an address.
pub uninterp spec fn is_server_name(name: Seq<char>) -> bool;

/// `rustls_pki_types::ServerName::try_from` on a string: whether it succeeds is
/// what [`is_server_name`] names.
#[verifier::external_body]
fn server_name_accepted(name: &str) -> (r: bool)
    ensures
        r == is_server_name(name@),
{
    rustls_pki_types::ServerName::try_from(name).is_ok()
}

/// Check a server name before a handshake is tried with it.
pub fn check_server_name(name: &str) -> (r: Result<(), Error>)
    ensures
        match r {
            Ok(_) => is_server_name(name@),
            Err(e) => !is_server_name(name@) && e is InvalidServerName,
        },
{
    if server_name_accepted(name) {
        Ok(())
    } else {
        Err(Error::InvalidServerName)
    }
}

/// The text of a negotiated ALPN, where there is one and it is UTF-8.
pub open spec fn alpn_text(negotiated: Option<Seq<u8>>) -> Option<Seq<char>> {
    match negotiated {
        Some(b) if valid_utf8(b) => Some(decode_utf8(b)),
        _ => None,
    }
}

/// The bytes of a negotiated ALPN, where there is one.
pub open spec fn alpn_bytes(negotiated: Option<&[u8]>) -> Option<Seq<u8>> {
    match negotiated {
        Some(b) => Some(b@),
        None => None,
    }
}

/// The text of a negotiated ALPN.
fn negotiated_text(negotiated: Option<&[u8]>) -> (r: Option<&str>)
    ensures
        match alpn_text(alpn_bytes(negotiated)) {
            Some(t) => r matches Some(s) && s@ == t,
            None => r is None,
        },
{
    match negotiated {
        Some(b) => from_utf8(b),
        None => None,
    }
}

/// A QMux client over TLS that advertises `(alpn, versions)` entries.
///
/// Each entry's `versions` slice is expanded into the TLS ALPN list as
/// `{v.prefix()}{alpn}` per version (empty = every QMux draft this crate knows
/// about). The bare version ALPNs are appended as well unless
/// [`require_protocol`](Client::require_protocol) is set. The peer's chosen ALPN
/// determines the QMux wire-format version. `C` is the TLS configuration, whose own
/// ALPN list is ignored and rebuilt from the entries.
pub struct Client<C> {
    config: C,
    protocols: Vec<(String, Vec<Version>)>,
    require_protocol: bool,
}

impl<C> Client<C> {
    /// The TLS configuration.
    pub closed spec fn tls(self) -> C {
        self.config
    }

    /// The entries, in preference order.
    pub closed spec fn entries(self) -> Seq<EntryView> {
        entries_view(self.protocols@)
    }

    /// Whether only the entries are offered.
    pub closed spec fn strict(self) -> bool {
        self.require_protocol
    }

    /// Start building a TLS client with the given TLS configuration.
    pub fn new(config: C) -> (r: Client<C>)
        ensures
            r.tls() == config,
            r.entries() == Seq::<EntryView>::empty(),
            !r.strict(),
    {
        let r = Client { config, protocols: Vec::new(), require_protocol: false };
        assert(r.entries() =~= Seq::empty());
        r
    }

    /// Advertise `alpn` under the listed QMux wire-format versions.
    ///
    /// Pass `&[v]` to pin to one version, `&[v1, v2]` to enumerate, or `&[]` to
    /// expand to every QMux draft this crate knows about.
    pub fn with_protocol(self, alpn: &str, versions: &[Version]) -> (r: Client<C>)
        ensures
            r.tls() == self.tls(),
            r.entries() == with_entry(self.entries(), alpn@, versions@),
            r.strict() == self.strict(),
    {
        let mut protocols = self.protocols;
        push_entry(&mut protocols, alpn, versions);
        Client { config: self.config, protocols, require_protocol: self.require_protocol }
    }

    /// Advertise multiple `(alpn, versions)` entries in preference order.
    pub fn with_protocols(self, entries: &[(&str, &[Version])]) -> (r: Client<C>)
        ensures
            r.tls() == self.tls(),
            r.entries() == self.entries() + pairs_view(entries@),
            r.strict() == self.strict(),
    {
        let mut protocols = self.protocols;
        push_entries(&mut protocols, entries);
        Client { config: self.config, protocols, require_protocol: self.require_protocol }
    }

    /// Offer only the prefixed `(alpn, version)` pairs, suppressing the bare
    /// version ALPNs offered by default.
    pub fn require_protocol(self) -> (r: Client<C>)
        ensures
            r.tls() == self.tls(),
            r.entries() == self.entries(),
            r.strict(),
    {
        Client { config: self.config, protocols: self.protocols, require_protocol: true }
    }

    /// The TLS configuration.
    pub fn config(&self) -> (r: &C)
        ensures
            *r == self.tls(),
    {
        &self.config
    }

    /// The ALPN list to offer, in preference order.
    pub fn alpn_protocols(&self) -> (r: Vec<Vec<u8>>)
        ensures
            r@.len() == offered(self.entries(), self.strict()).len(),
            forall|i: int|
                0 <= i < r@.len() ==> (#[trigger] r@[i])@ == encode_utf8(
                    offered(self.entries(), self.strict())[i],
                ),
    {
        let names = build_entries(self.protocols.as_slice(), self.require_protocol);
        let ghost all = texts(names@);
        let mut out: Vec<Vec<u8>> = Vec::new();
        let mut i: usize = 0;
        while i < names.len()
            invariant
                i <= names@.len(),
                all == texts(names@),
                out@.len() == i,
                forall|j: int| 0 <= j < i ==> (#[trigger] out@[j])@ == encode_utf8(all[j]),
            decreases names@.len() - i,
        {
            out.push(vstd::slice::slice_to_vec(names[i].as_str().as_bytes()));
            i += 1;
        }
        out
    }

    /// The config of the session, from the ALPN that the server picked.
    pub fn session_config(&self, negotiated: Option<&[u8]>) -> (r: Result<Config, Error>)
        ensures
            ({
                let name = alpn_text(alpn_bytes(negotiated));
                match r {
                    Ok(c) => (self.strict() ==> parsed(name).1 is Some) && is_negotiated(
                        c,
                        parsed(name),
                    ),
                    Err(e) => self.strict() && parsed(name).1 is None && e@
                        == ErrorView::InvalidProtocol(
                        match name {
                            Some(s) => s,
                            None => "<none>"@,
                        },
                    ),
                }
            }),
    {
        client_config(negotiated_text(negotiated), self.require_protocol)
    }
}

/// A QMux server that accepts TLS connections.
///
/// Selection of an offered ALPN happens inside TLS, based on the ALPN list of the
/// supplied configuration `C`; the QMux wire-format version is then derived from
/// the negotiated ALPN. Callers building that list should use
/// `{version.prefix()}{alpn}` for each supported pair (e.g.
/// `"qmux-01.moq-lite-04"`).
pub struct Server<C> {
    config: C,
}

impl<C> Server<C> {
    /// The TLS configuration.
    pub closed spec fn tls(self) -> C {
        self.config
    }

    /// Create a TLS server from the given TLS configuration.
    pub fn new(config: C) -> (r: Server<C>)
        ensures
            r.tls() == config,
    {
        Server { config }
    }

    /// The TLS configuration.
    pub fn config(&self) -> (r: &C)
        ensures
            *r == self.tls(),
    {
        &self.config
    }

    /// The config of the session, from the ALPN that TLS picked.
    pub fn session_config(negotiated: Option<&[u8]>) -> (r: Config)
        ensures
            is_negotiated(r, parsed(alpn_text(alpn_bytes(negotiated)))),
    {
        let (version, protocol) = parse(negotiated_text(negotiated));
        Config::negotiated(version, protocol)
    }
}

/// Law: what TLS agreed on is read as UTF-8, and as nothing where it is not or where
/// nothing was agreed on.
pub proof fn lemma_alpn_read(name: Seq<char>, bytes: Seq<u8>)
    ensures
        alpn_text(Some(encode_utf8(name))) == Some(name),
        !valid_utf8(bytes) ==> alpn_text(Some(bytes)) is None,
        alpn_text(None) is None,
{
    encode_utf8_valid_utf8(name);
    encode_utf8_decode_utf8(name);
}

} // verus!
