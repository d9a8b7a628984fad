//! WebSocket transport: subprotocol negotiation, and when a silent peer is given
//! up.

use std::time::Duration;

use bytes::Bytes;
use vstd::prelude::*;

use super::alpn::{
    EntryView, Selected, bare, build_entries, entries_names, entries_view, entry_names, expanded,
    offered, parse, parsed, select, selected, selected_name, wire_name,
};
use super::config::{Config, Protocol, ProtocolView};
use super::error::{Error, ErrorView, WebSocketFailure};
use super::header::{
    elements, field_elements, field_views, is_listable, is_space, join, joined,
    lemma_list_round_trip, list_elements,
};
use super::proto::version::Version;
use super::protocol::{is_token, is_token_char, validate_protocol};
use crate::time::nanoseconds;

verus! {

/// Keep-alive configuration for WebSocket transports.
///
/// WebSocket has no built-in idle timeout: when the peer's host crashes or its
/// network drops without sending a TCP FIN, the local socket stays "open" until
/// OS-level TCP keep_alive eventually probes, typically after hours. Set this to
/// send periodic Pings and close the session if no frame arrives within `timeout`.
#[derive(Debug, Clone, Copy)]
pub struct KeepAlive {
    /// How often to send a Ping frame to the peer.
    pub interval: Duration,
    /// Close the session if no frame is received from the peer within this window.
    /// Should be a small multiple of `interval` to tolerate transient drops.
    pub timeout: Duration,
}

/// The larger of two numbers.
pub open spec fn max(a: nat, b: nat) -> nat {
    if a >= b {
        a
    } else {
        b
    }
}

impl KeepAlive {
    /// Create a keep-alive config with the given interval and timeout.
    pub fn new(interval: Duration, timeout: Duration) -> (r: KeepAlive)
        ensures
            r.interval == interval,
            r.timeout == timeout,
    {
        KeepAlive { interval, timeout }
    }

    /// The timings in effect: both at least a millisecond, and a timeout no shorter
    /// than the interval, so that it does not pass before the first ping. A
    /// misconfigured keep-alive degrades into a very chatty one.
    pub fn effective(&self) -> (r: KeepAlive)
        ensures
            nanoseconds(r.interval) == max(nanoseconds(self.interval), 1_000_000),
            nanoseconds(r.timeout) == max(nanoseconds(self.timeout), nanoseconds(r.interval)),
    {
        let floor = Duration::from_millis(1);
        let interval = if self.interval.as_nanos() >= floor.as_nanos() {
            self.interval
        } else {
            floor
        };
        let timeout = if self.timeout.as_nanos() >= interval.as_nanos() {
            self.timeout
        } else {
            interval
        };
        KeepAlive { interval, timeout }
    }
}

impl Default for KeepAlive {
    fn default() -> (r: KeepAlive)
        ensures
            nanoseconds(r.interval) == 5_000_000_000,
            nanoseconds(r.timeout) == 30_000_000_000,
    {
        // Match the usual QUIC defaults: 5s ping, 30s deadline.
        KeepAlive { interval: Duration::from_secs(5), timeout: Duration::from_secs(30) }
    }
}

/// Wrap an already-upgraded WebSocket as a QMux session.
///
/// Use this when the WebSocket handshake was performed by an external framework
/// and the caller already has the negotiated `Sec-WebSocket-Protocol` value. Pass
/// it via [`Upgraded::with_alpn`] so the QMux wire-format version and application
/// protocol can be recovered. Without an alpn the legacy `webtransport` wire format
/// is used.
pub struct Upgraded<T> {
    ws: T,
    alpn: Option<String>,
    keep_alive: Option<KeepAlive>,
}

impl<T> Upgraded<T> {
    /// The socket.
    pub closed spec fn socket(self) -> T {
        self.ws
    }

    /// The negotiated `Sec-WebSocket-Protocol` value.
    pub closed spec fn alpn(self) -> Option<Seq<char>> {
        match self.alpn {
            Some(s) => Some(s@),
            None => None,
        }
    }

    /// The keep-alive, if any.
    pub closed spec fn keep_alive(self) -> Option<KeepAlive> {
        self.keep_alive
    }

    /// Wrap a socket about which nothing was negotiated.
    pub fn new(ws: T) -> (r: Upgraded<T>)
        ensures
            r.socket() == ws,
            r.alpn() is None,
            r.keep_alive() is None,
    {
        Upgraded { ws, alpn: None, keep_alive: None }
    }

    /// Set the negotiated `Sec-WebSocket-Protocol` value from the handshake.
    pub fn with_alpn(self, alpn: &str) -> (r: Upgraded<T>)
        ensures
            r.socket() == self.socket(),
            r.alpn() == Some(alpn@),
            r.keep_alive() == self.keep_alive(),
    {
        Upgraded { ws: self.ws, alpn: Some(alpn.to_string()), keep_alive: self.keep_alive }
    }

    /// Drive a keep-alive Ping/timeout on the WebSocket.
    pub fn with_keep_alive(self, keep_alive: KeepAlive) -> (r: Upgraded<T>)
        ensures
            r.socket() == self.socket(),
            r.alpn() == self.alpn(),
            r.keep_alive() == Some(keep_alive),
    {
        Upgraded { ws: self.ws, alpn: self.alpn, keep_alive: Some(keep_alive) }
    }

    /// The socket, the config of its session and the keep-alive.
    ///
    /// The protocol is already known from the negotiated subprotocol (ALPN).
    pub fn into_parts(self) -> (r: (T, Config, Option<KeepAlive>))
        ensures
            r.0 == self.socket(),
            is_negotiated(r.1, parsed(self.alpn())),
            r.2 == self.keep_alive(),
    {
        let (version, protocol) = match &self.alpn {
            Some(alpn) => parse(Some(alpn.as_str())),
            None => parse(None),
        };
        (self.ws, Config::negotiated(version, protocol), self.keep_alive)
    }
}

/// Whether a config is the default one for a version and an application protocol
/// that were negotiated out of band.
pub open spec fn is_negotiated(c: Config, negotiated: (Version, Option<Seq<char>>)) -> bool {
    &&& c.version == negotiated.0
    &&& c.protocol@ == match negotiated.1 {
        Some(name) => ProtocolView::Negotiated(name),
        None => ProtocolView::NoProtocol,
    }
    &&& c.has_default_limits()
}

/// Whether every application protocol of the entries is a token.
pub open spec fn all_tokens(entries: Seq<EntryView>) -> bool {
    forall|i: int| 0 <= i < entries.len() ==> is_token((#[trigger] entries[i]).alpn)
}

/// Check that every application protocol can stand in the header. The error names
/// the first that cannot.
fn validate_entries(entries: &Vec<(String, Vec<Version>)>) -> (r: Result<(), Error>)
    ensures
        match r {
            Ok(_) => all_tokens(entries_view(entries@)),
            Err(e) => first_invalid(entries_view(entries@), e@),
        },
{
    let mut i: usize = 0;
    while i < entries.len()
        invariant
            i <= entries@.len(),
            forall|j: int|
                0 <= j < i ==> is_token((#[trigger] entries_view(entries@)[j]).alpn),
        decreases entries@.len() - i,
    {
        match validate_protocol(entries[i].0.as_str()) {
            Ok(_) => {},
            Err(e) => {
                assert(!is_token(entries_view(entries@)[i as int].alpn));
                return Err(e);
            },
        }
        i += 1;
    }
    Ok(())
}

/// Whether `e` names the first application protocol that is not a token.
pub open spec fn first_invalid(entries: Seq<EntryView>, e: ErrorView) -> bool {
    exists|i: int|
        0 <= i < entries.len() && !is_token((#[trigger] entries[i]).alpn) && e
            == ErrorView::InvalidProtocol(entries[i].alpn) && forall|j: int|
            0 <= j < i ==> is_token((#[trigger] entries[j]).alpn)
}

/// A list of entries with one more.
pub open spec fn with_entry(entries: Seq<EntryView>, alpn: Seq<char>, versions: Seq<Version>) -> Seq<
    EntryView,
> {
    entries.push(EntryView { alpn, versions })
}

/// Add an entry.
pub(crate) fn push_entry(
    entries: &mut Vec<(String, Vec<Version>)>,
    alpn: &str,
    versions: &[Version],
)
    ensures
        entries_view(final(entries)@) == with_entry(
            entries_view(old(entries)@),
            alpn@,
            versions@,
        ),
{
    let ghost before = entries_view(entries@);
    let mut list: Vec<Version> = Vec::new();
    let mut i: usize = 0;
    while i < versions.len()
        invariant
            i <= versions@.len(),
            list@ == versions@.take(i as int),
        decreases versions@.len() - i,
    {
        assert(versions@.take(i + 1) =~= versions@.take(i as int).push(versions@[i as int]));
        list.push(versions[i]);
        i += 1;
    }
    assert(versions@.take(i as int) =~= versions@);
    entries.push((alpn.to_string(), list));
    assert(entries_view(entries@) =~= with_entry(before, alpn@, versions@));
}

/// Entries over plain values.
pub open spec fn pairs_view(pairs: Seq<(&str, &[Version])>) -> Seq<EntryView> {
    Seq::new(pairs.len(), |i: int| EntryView { alpn: pairs[i].0@, versions: pairs[i].1@ })
}

/// Add entries, in order.
pub(crate) fn push_entries(
    entries: &mut Vec<(String, Vec<Version>)>,
    pairs: &[(&str, &[Version])],
)
    ensures
        entries_view(final(entries)@) == entries_view(old(entries)@) + pairs_view(pairs@),
{
    let ghost before = entries_view(entries@);
    let ghost views = pairs_view(pairs@);
    let mut i: usize = 0;
    assert(before + views.take(0) =~= before);
    while i < pairs.len()
        invariant
            i <= pairs@.len(),
            views == pairs_view(pairs@),
            entries_view(entries@) == before + views.take(i as int),
        decreases pairs@.len() - i,
    {
        push_entry(entries, pairs[i].0, pairs[i].1);
        proof {
            assert(views.take(i + 1) =~= views.take(i as int).push(views[i as int]));
            assert((before + views.take(i as int)).push(views[i as int]) =~= before + views.take(
                i + 1,
            ));
        }
        i += 1;
    }
    assert(views.take(i as int) =~= views);
}

/// The config of a client's session, from the name that the server picked. With a
/// protocol required, a name without one is an error: it would silently downgrade
/// the negotiation that was promised.
pub(crate) fn client_config(negotiated: Option<&str>, require_protocol: bool) -> (r: Result<
    Config,
    Error,
>)
    ensures
        ({
            let name = match negotiated {
                Some(s) => Some(s@),
                None => None,
            };
            match r {
                Ok(c) => (require_protocol ==> parsed(name).1 is Some) && is_negotiated(
                    c,
                    parsed(name),
                ),
                Err(e) => require_protocol && parsed(name).1 is None && e@
                    == ErrorView::InvalidProtocol(
                    match name {
                        Some(s) => s,
                        None => "<none>"@,
                    },
                ),
            }
        }),
{
    let (version, protocol) = parse(negotiated);
    if require_protocol && protocol.is_none() {
        return Err(
            Error::InvalidProtocol(
                match negotiated {
                    Some(s) => s.to_string(),
                    None => "<none>".to_string(),
                },
            ),
        );
    }
    Ok(Config::negotiated(version, protocol))
}

proof fn lemma_version_names_listable(v: Version)
    ensures
        is_listable(v.name()),
        is_listable(v.dotted()),
{
    reveal_strlit("webtransport");
    reveal_strlit("qmux-00");
    reveal_strlit("qmux-01");
}

proof fn lemma_wire_name_listable(v: Version, alpn: Seq<char>)
    requires
        is_token(alpn),
    ensures
        is_listable(wire_name(v, alpn)),
{
    lemma_version_names_listable(v);
    let s = wire_name(v, alpn);
    let d = v.dotted();
    assert forall|i: int| 0 <= i < s.len() implies #[trigger] s[i] != ',' && !is_space(s[i]) by {
        if i < d.len() {
            assert(s[i] == d[i]);
        } else {
            assert(s[i] == alpn[i - d.len()]);
            assert(is_token_char(alpn[i - d.len()]));
        }
    }
}

proof fn lemma_entries_listable(entries: Seq<EntryView>)
    requires
        all_tokens(entries),
    ensures
        forall|i: int|
            0 <= i < entries_names(entries).len() ==> is_listable(
                #[trigger] entries_names(entries)[i],
            ),
    decreases entries.len(),
{
    if entries.len() > 0 {
        let front = entries.drop_last();
        let last = entries.last();
        assert(all_tokens(front)) by {
            assert forall|i: int| 0 <= i < front.len() implies is_token(
                (#[trigger] front[i]).alpn,
            ) by {
                assert(front[i] == entries[i]);
            }
        }
        lemma_entries_listable(front);
        let all = entries_names(entries);
        let before = entries_names(front);
        assert forall|i: int| 0 <= i < all.len() implies is_listable(#[trigger] all[i]) by {
            if i < before.len() {
                assert(all[i] == before[i]);
            } else {
                let k = i - before.len();
                assert(all[i] == entry_names(last)[k]);
                assert(is_token(entries[entries.len() - 1].alpn));
                lemma_wire_name_listable(expanded(last.versions)[k], last.alpn);
            }
        }
    }
}

/// Law: a server reads the names that a client offers off the header value that the
/// client sends, all of them and in order.
pub proof fn lemma_offer_understood(entries: Seq<EntryView>, require_protocol: bool)
    requires
        all_tokens(entries),
    ensures
        elements(joined(offered(entries, require_protocol))) == offered(entries, require_protocol),
{
    lemma_entries_listable(entries);
    let names = offered(entries, require_protocol);
    let front = entries_names(entries);
    assert forall|i: int| 0 <= i < names.len() implies is_listable(#[trigger] names[i]) by {
        if i < front.len() {
            assert(names[i] == front[i]);
        } else {
            lemma_version_names_listable(bare()[i - front.len()]);
        }
    }
    lemma_list_round_trip(names);
}

/// A QMux client that opens a WebSocket and negotiates an application protocol.
///
/// Each entry pairs an `alpn` with the QMux wire-format `versions` it can ride on.
/// The wire form `{v.prefix()}{alpn}` is emitted once per listed version, in order;
/// an empty `versions` slice expands to every QMux draft this crate knows about.
/// By default the bare version ALPNs (`qmux-01`, `qmux-00`, `webtransport`) are
/// also offered for peers that don't pin an app protocol; call
/// [`Client::require_protocol`] to offer only the configured pairs.
pub struct Client {
    protocols: Vec<(String, Vec<Version>)>,
    require_protocol: bool,
    keep_alive: Option<KeepAlive>,
}

impl Client {
    /// The entries, in preference order.
    pub closed spec fn entries(self) -> Seq<EntryView> {
        entries_view(self.protocols@)
    }

    /// Whether only the entries are offered.
    pub closed spec fn strict(self) -> bool {
        self.require_protocol
    }

    /// The keep-alive, if any.
    pub closed spec fn pings(self) -> Option<KeepAlive> {
        self.keep_alive
    }

    /// A client without entries.
    pub fn new() -> (r: Client)
        ensures
            r.entries() == Seq::<EntryView>::empty(),
            !r.strict(),
            r.pings() is None,
    {
        let r = Client { protocols: Vec::new(), require_protocol: false, keep_alive: None };
        assert(r.entries() =~= Seq::empty());
        r
    }

    /// Advertise `alpn` under the listed QMux wire-format versions.
    ///
    /// Pass `&[v]` to pin to one version, `&[v1, v2]` to enumerate, or `&[]` to
    /// expand to every QMux draft.
    pub fn with_protocol(self, alpn: &str, versions: &[Version]) -> (r: Client)
        ensures
            r.entries() == with_entry(self.entries(), alpn@, versions@),
            r.strict() == self.strict(),
            r.pings() == self.pings(),
    {
        let mut protocols = self.protocols;
        push_entry(&mut protocols, alpn, versions);
        Client {
            protocols,
            require_protocol: self.require_protocol,
            keep_alive: self.keep_alive,
        }
    }

    /// Advertise multiple `(alpn, versions)` entries in preference order.
    pub fn with_protocols(self, entries: &[(&str, &[Version])]) -> (r: Client)
        ensures
            r.entries() == self.entries() + pairs_view(entries@),
            r.strict() == self.strict(),
            r.pings() == self.pings(),
    {
        let mut protocols = self.protocols;
        push_entries(&mut protocols, entries);
        Client {
            protocols,
            require_protocol: self.require_protocol,
            keep_alive: self.keep_alive,
        }
    }

    /// Offer only the prefixed `(alpn, version)` pairs, suppressing the bare
    /// version ALPNs that are offered by default.
    pub fn require_protocol(self) -> (r: Client)
        ensures
            r.entries() == self.entries(),
            r.strict(),
            r.pings() == self.pings(),
    {
        Client {
            protocols: self.protocols,
            require_protocol: true,
            keep_alive: self.keep_alive,
        }
    }

    /// Send periodic Pings and close the session if the peer goes silent.
    pub fn with_keep_alive(self, keep_alive: KeepAlive) -> (r: Client)
        ensures
            r.entries() == self.entries(),
            r.strict() == self.strict(),
            r.pings() == Some(keep_alive),
    {
        Client {
            protocols: self.protocols,
            require_protocol: self.require_protocol,
            keep_alive: Some(keep_alive),
        }
    }

    /// The keep-alive, if any.
    pub fn keep_alive(&self) -> (r: Option<KeepAlive>)
        ensures
            r == self.pings(),
    {
        self.keep_alive
    }

    /// The `Sec-WebSocket-Protocol` value to send: every name that is offered, in
    /// preference order. Names that are no tokens are refused.
    pub fn offer(&self) -> (r: Result<String, Error>)
        ensures
            match r {
                Ok(s) => all_tokens(self.entries()) && s@ == joined(
                    offered(self.entries(), self.strict()),
                ),
                Err(e) => first_invalid(self.entries(), e@),
            },
    {
        validate_entries(&self.protocols)?;
        let names = build_entries(self.protocols.as_slice(), self.require_protocol);
        Ok(join(&names))
    }

    /// The config of the session, from the `Sec-WebSocket-Protocol` value that the
    /// server answered with.
    pub fn session_config(&self, negotiated: Option<&str>) -> (r: Result<Config, Error>)
        ensures
            ({
                let name = match negotiated {
                    Some(s) => Some(s@),
                    None => None,
                };
                match r {
                    Ok(c) => (self.strict() ==> parsed(name).1 is Some) && is_negotiated(
                        c,
                        parsed(name),
                    ),
                    Err(e) => self.strict() && parsed(name).1 is None && e@
                        == ErrorView::InvalidProtocol(
                        match name {
                            Some(s) => s,
                            None => "<none>"@,
                        },
                    ),
                }
            }),
    {
        client_config(negotiated, self.require_protocol)
    }
}

/// A QMux server that accepts WebSocket connections.
///
/// Each entry pairs an `alpn` with the QMux wire-format `versions` it can ride on.
/// Each `{v.prefix()}{alpn}` permutation is matched against the client's offered
/// `Sec-WebSocket-Protocol` in declaration order. By default bare version ALPNs
/// are also accepted for peers that don't pin an app protocol; call
/// [`Server::require_protocol`] to accept only the configured pairs.
pub struct Server {
    protocols: Vec<(String, Vec<Version>)>,
    require_protocol: bool,
    keep_alive: Option<KeepAlive>,
}

impl Server {
    /// The entries, in preference order.
    pub closed spec fn entries(self) -> Seq<EntryView> {
        entries_view(self.protocols@)
    }

    /// Whether only the entries are accepted.
    pub closed spec fn strict(self) -> bool {
        self.require_protocol
    }

    /// The keep-alive, if any.
    pub closed spec fn pings(self) -> Option<KeepAlive> {
        self.keep_alive
    }

    /// A server without entries.
    pub fn new() -> (r: Server)
        ensures
            r.entries() == Seq::<EntryView>::empty(),
            !r.strict(),
            r.pings() is None,
    {
        let r = Server { protocols: Vec::new(), require_protocol: false, keep_alive: None };
        assert(r.entries() =~= Seq::empty());
        r
    }

    /// Advertise `alpn` under the listed QMux wire-format versions.
    ///
    /// Pass `&[v]` to support one version, `&[v1, v2]` to enumerate, or `&[]` to
    /// accept every QMux draft.
    pub fn with_protocol(self, alpn: &str, versions: &[Version]) -> (r: Server)
        ensures
            r.entries() == with_entry(self.entries(), alpn@, versions@),
            r.strict() == self.strict(),
            r.pings() == self.pings(),
    {
        let mut protocols = self.protocols;
        push_entry(&mut protocols, alpn, versions);
        Server {
            protocols,
            require_protocol: self.require_protocol,
            keep_alive: self.keep_alive,
        }
    }

    /// Advertise multiple `(alpn, versions)` entries in preference order.
    pub fn with_protocols(self, entries: &[(&str, &[Version])]) -> (r: Server)
        ensures
            r.entries() == self.entries() + pairs_view(entries@),
            r.strict() == self.strict(),
            r.pings() == self.pings(),
    {
        let mut protocols = self.protocols;
        push_entries(&mut protocols, entries);
        Server {
            protocols,
            require_protocol: self.require_protocol,
            keep_alive: self.keep_alive,
        }
    }

    /// Accept only the configured prefixed pairs, rejecting clients that offer just
    /// a bare version ALPN with no application protocol.
    pub fn require_protocol(self) -> (r: Server)
        ensures
            r.entries() == self.entries(),
            r.strict(),
            r.pings() == self.pings(),
    {
        Server {
            protocols: self.protocols,
            require_protocol: true,
            keep_alive: self.keep_alive,
        }
    }

    /// Send periodic Pings and close the session if the peer goes silent.
    pub fn with_keep_alive(self, keep_alive: KeepAlive) -> (r: Server)
        ensures
            r.entries() == self.entries(),
            r.strict() == self.strict(),
            r.pings() == Some(keep_alive),
    {
        Server {
            protocols: self.protocols,
            require_protocol: self.require_protocol,
            keep_alive: Some(keep_alive),
        }
    }

    /// The keep-alive, if any.
    pub fn keep_alive(&self) -> (r: Option<KeepAlive>)
        ensures
            r == self.pings(),
    {
        self.keep_alive
    }

    /// Check the configured names before accepting anything.
    pub fn validate(&self) -> (r: Result<(), Error>)
        ensures
            match r {
                Ok(_) => all_tokens(self.entries()),
                Err(e) => first_invalid(self.entries(), e@),
            },
    {
        validate_entries(&self.protocols)
    }

    /// Pick one of the names in the client's `Sec-WebSocket-Protocol` header
    /// fields. `None` means to answer with 400 and "no supported protocol".
    pub fn accept(&self, fields: &[Vec<u8>]) -> (r: Option<Selected>)
        ensures
            match selected(
                field_elements(field_views(fields@)),
                self.entries(),
                self.strict(),
            ) {
                Some(picked) => {
                    &&& r matches Some(x)
                    &&& x.version == picked.0
                    &&& match picked.1 {
                        Some(alpn) => x.protocol matches Some(p) && p@ == alpn,
                        None => x.protocol is None,
                    }
                    &&& x.name@ == selected_name(picked)
                },
                None => r is None,
            },
    {
        let names = list_elements(fields);
        select(&names, self.protocols.as_slice(), self.require_protocol)
    }

    /// The config of the session, once a name was picked.
    pub fn session_config(selected: Selected) -> (r: Config)
        ensures
            is_negotiated(
                r,
                (
                    selected.version,
                    match selected.protocol {
                        Some(p) => Some(p@),
                        None => None,
                    },
                ),
            ),
    {
        Config::negotiated(selected.version, selected.protocol)
    }
}

/// A WebSocket message, as far as a session looks at it.
pub enum WsMessage {
    Binary(Bytes),
    Text,
    Ping,
    Pong,
    Close,
    Frame,
}

/// What happened while waiting for a message.
pub enum WsEvent {
    /// The socket has something, or has ended.
    Message(Option<Result<WsMessage, WebSocketFailure>>),
    /// The keep-alive interval passed.
    Tick,
    /// Nothing arrived for the keep-alive timeout.
    Timeout,
}

/// What to do next.
pub enum WsStep {
    /// A message for the session.
    Deliver(Bytes),
    /// Send a Ping and wait on.
    SendPing,
    /// Wait on: what arrived is not for the session.
    Continue,
    /// Give up.
    Fail(Error),
}

/// Decide what an event means. With it comes whether it is a sign of life, which
/// moves the keep-alive deadline.
///
/// Pings are answered by the WebSocket implementation itself.
pub fn recv_step(event: WsEvent) -> (r: (WsStep, bool))
    ensures
        match event {
            WsEvent::Tick => r.0 is SendPing && !r.1,
            WsEvent::Timeout => (r.0 matches WsStep::Fail(e) && e is Closed) && !r.1,
            WsEvent::Message(None) => (r.0 matches WsStep::Fail(e) && e is Closed) && !r.1,
            WsEvent::Message(Some(Err(f))) => (r.0 matches WsStep::Fail(e) && e == match f {
                WebSocketFailure::Http { status } => Error::Http(status),
                WebSocketFailure::Other { message } => Error::WebSocket(message),
            }) && !r.1,
            WsEvent::Message(Some(Ok(m))) => r.1 && match m {
                WsMessage::Binary(b) => r.0 == WsStep::Deliver(b),
                WsMessage::Close => r.0 matches WsStep::Fail(e) && e is Closed,
                _ => r.0 is Continue,
            },
        },
{
    match event {
        WsEvent::Tick => (WsStep::SendPing, false),
        WsEvent::Timeout => (WsStep::Fail(Error::Closed), false),
        WsEvent::Message(None) => (WsStep::Fail(Error::Closed), false),
        WsEvent::Message(Some(Err(f))) => (WsStep::Fail(Error::from(f)), false),
        WsEvent::Message(Some(Ok(m))) => match m {
            WsMessage::Binary(data) => (WsStep::Deliver(data), true),
            WsMessage::Close => (WsStep::Fail(Error::Closed), true),
            WsMessage::Text | WsMessage::Ping | WsMessage::Pong | WsMessage::Frame => (
                WsStep::Continue,
                true,
            ),
        },
    }
}

/// Law: a session whose protocol was negotiated out of band has the version and the
/// protocol that were, and the default limits.
pub proof fn lemma_negotiated(c: Config, version: Version, protocol: Option<Seq<char>>)
    requires
        is_negotiated(c, (version, protocol)),
    ensures
        c.version == version,
        protocol is None ==> c.protocol is NoProtocol,
        protocol matches Some(name) ==> (c.protocol matches Protocol::Negotiated(n) && n@ == name),
        c.max_data == 1_048_576 && c.max_streams_bidi == 100 && c.max_streams_uni == 100,
{
}

/// Law: a list of entries is refused for the first application protocol that is no
/// token.
pub proof fn lemma_refused_entry(entries: Seq<EntryView>, e: ErrorView)
    requires
        first_invalid(entries, e),
    ensures
        exists|i: int|
            0 <= i < entries.len() && e == ErrorView::InvalidProtocol(
                (#[trigger] entries[i]).alpn,
            ) && !is_token(entries[i].alpn) && (forall|j: int|
                0 <= j < i ==> is_token((#[trigger] entries[j]).alpn)),
        !all_tokens(entries),
{
}

/// Law: an entry is added behind the others, as it is.
pub proof fn lemma_entry_added(entries: Seq<EntryView>, alpn: Seq<char>, versions: Seq<Version>)
    ensures
        with_entry(entries, alpn, versions).len() == entries.len() + 1,
        with_entry(entries, alpn, versions).last().alpn == alpn,
        with_entry(entries, alpn, versions).last().versions == versions,
        forall|i: int|
            0 <= i < entries.len() ==> with_entry(entries, alpn, versions)[i]
                == #[trigger] entries[i],
{
}

} // verus!
