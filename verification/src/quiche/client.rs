//! What a client does before there is a connection.

use vstd::prelude::*;

use super::error::ConnectionError;
use crate::certificate::same_bytes;
use crate::url::{ParsedUrl, port_of};

verus! {

/// Why a client could not connect. The errors of the handshake are kept by their
/// messages.
#[derive(Debug)]
pub enum ClientError {
    Io(String),
    Connection(ConnectionError),
    Settings(String),
    Connect(String),
    /// The URL, which names no host.
    InvalidUrl(String),
}

impl ClientError {
    /// The message of the error.
    pub open spec fn message_text(self) -> Seq<char> {
        match self {
            ClientError::Io(text) => "io error: "@ + text@,
            ClientError::Connection(e) => "connection error: "@ + e.message_text(),
            ClientError::Settings(text) => "settings error: "@ + text@,
            ClientError::Connect(text) => "connect error: "@ + text@,
            ClientError::InvalidUrl(url) => "invalid URL: "@ + url@,
        }
    }

    /// What to tell a person.
    pub fn message(&self) -> (r: String)
        ensures
            r@ == self.message_text(),
    {
        match self {
            ClientError::Io(text) => "io error: ".to_string().concat(text.as_str()),
            ClientError::Connection(e) => {
                "connection error: ".to_string().concat(e.message().as_str())
            },
            ClientError::Settings(text) => "settings error: ".to_string().concat(text.as_str()),
            ClientError::Connect(text) => "connect error: ".to_string().concat(text.as_str()),
            ClientError::InvalidUrl(url) => "invalid URL: ".to_string().concat(url.as_str()),
        }
    }
}

impl From<ConnectionError> for ClientError {
    fn from(e: ConnectionError) -> (r: ClientError)
        ensures
            r == ClientError::Connection(e),
    {
        ClientError::Connection(e)
    }
}

impl vstd::std_specs::convert::FromSpecImpl<ConnectionError> for ClientError {
    open spec fn obeys_from_spec() -> bool {
        true
    }

    open spec fn from_spec(e: ConnectionError) -> ClientError {
        ClientError::Connection(e)
    }
}

/// How the certificate of the server is verified.
#[derive(Debug)]
pub enum ClientVerify {
    /// As the settings say, against the roots of the system.
    Default,
    /// Against these roots instead, in DER.
    Roots(Vec<Vec<u8>>),
    /// By its SHA-256 hash, which must be one of these.
    Hashes(Vec<[u8; 32]>),
}

/// Whether one of the hashes is `hash`.
pub open spec fn is_pinned(hashes: Seq<[u8; 32]>, hash: Seq<u8>) -> bool {
    exists|i: int| 0 <= i < hashes.len() && (#[trigger] hashes[i])@ == hash
}

/// Whether one of the hashes is `hash`.
fn pinned(hashes: &Vec<[u8; 32]>, hash: &[u8; 32]) -> (r: bool)
    ensures
        r == is_pinned(hashes@, hash@),
{
    let mut i: usize = 0;
    while i < hashes.len()
        invariant
            i <= hashes@.len(),
            forall|j: int| 0 <= j < i ==> (#[trigger] hashes@[j])@ != hash@,
        decreases hashes@.len() - i,
    {
        if same_bytes(hashes[i].as_slice(), hash.as_slice()) {
            return true;
        }
        i += 1;
    }
    false
}

impl ClientVerify {
    /// Whether the hash of a certificate settles that it is accepted, and how: the
    /// other policies do not go by the hash.
    pub fn accepts_hash(&self, hash: &[u8; 32]) -> (r: Option<bool>)
        ensures
            match self {
                ClientVerify::Hashes(hashes) => r == Some(is_pinned(hashes@, hash@)),
                _ => r is None,
            },
    {
        match self {
            ClientVerify::Hashes(hashes) => Some(pinned(hashes, hash)),
            _ => None,
        }
    }
}

/// The settings of a connection. `S` is what the transport alone reads.
#[derive(Debug)]
pub struct Settings<S> {
    /// Whether the certificate of the peer is verified.
    pub verify_peer: bool,
    /// The rest.
    pub transport: S,
}

/// A certificate chain and its private key, in DER.
#[derive(Debug)]
pub struct Identity {
    pub chain: Vec<Vec<u8>>,
    pub key: Vec<u8>,
}

/// What to do before the connection is made.
#[derive(Debug, Clone, Copy, PartialEq, Eq, Structural)]
pub struct ConnectPlan {
    /// Bind a socket to any address first, as none was given.
    pub bind: bool,
    /// Warn that nothing authenticates the peer.
    pub insecure: bool,
    /// Install the certificate and the verification policy through a hook.
    pub needs_hook: bool,
}

/// The address that a socket is bound to where none was given.
pub const BIND_ANY: &'static str = "[::]:0";

/// Builds a client. `S` are settings of the transport, `K` is a socket and `M`
/// takes metrics.
#[derive(Debug)]
pub struct ClientBuilder<S, K, M> {
    pub settings: Settings<S>,
    pub socket: Option<K>,
    pub tls: Option<Identity>,
    pub verify: ClientVerify,
    pub metrics: M,
}

impl<S, K, M> ClientBuilder<S, K, M> {
    /// A client with this sink of metrics, which verifies the peer.
    pub fn with_metrics(transport: S, metrics: M) -> (r: ClientBuilder<S, K, M>)
        ensures
            r == (ClientBuilder::<S, K, M> {
                settings: Settings { verify_peer: true, transport },
                socket: None,
                tls: None,
                verify: ClientVerify::Default,
                metrics,
            }),
    {
        ClientBuilder {
            settings: Settings { verify_peer: true, transport },
            socket: None,
            tls: None,
            verify: ClientVerify::Default,
            metrics,
        }
    }

    /// Use this socket.
    pub fn with_socket(self, socket: K) -> (r: ClientBuilder<S, K, M>)
        ensures
            r == (ClientBuilder::<S, K, M> { socket: Some(socket), ..self }),
    {
        let mut this = self;
        this.socket = Some(socket);
        this
    }

    /// Use these settings, also for whether the peer is verified.
    pub fn with_settings(self, settings: Settings<S>) -> (r: ClientBuilder<S, K, M>)
        ensures
            r == (ClientBuilder::<S, K, M> { settings, ..self }),
    {
        let mut this = self;
        this.settings = settings;
        this
    }

    /// Present this certificate to the server.
    pub fn with_single_cert(self, chain: Vec<Vec<u8>>, key: Vec<u8>) -> (r: ClientBuilder<S, K, M>)
        ensures
            r == (ClientBuilder::<S, K, M> { tls: Some(Identity { chain, key }), ..self }),
    {
        let mut this = self;
        this.tls = Some(Identity { chain, key });
        this
    }

    /// Verify the server against these roots. The last policy given stays.
    pub fn with_root_certificates(self, roots: Vec<Vec<u8>>) -> (r: ClientBuilder<S, K, M>)
        ensures
            r == (ClientBuilder::<S, K, M> { verify: ClientVerify::Roots(roots), ..self }),
    {
        let mut this = self;
        this.verify = ClientVerify::Roots(roots);
        this
    }

    /// Verify the server by the hash of its certificate. The last policy given
    /// stays.
    pub fn with_server_certificate_hashes(self, hashes: Vec<[u8; 32]>) -> (r: ClientBuilder<
        S,
        K,
        M,
    >)
        ensures
            r == (ClientBuilder::<S, K, M> { verify: ClientVerify::Hashes(hashes), ..self }),
    {
        let mut this = self;
        this.verify = ClientVerify::Hashes(hashes);
        this
    }

    /// What to do before the connection is made. Only a client that verifies
    /// nothing at all deserves a warning: roots and hashes authenticate the peer
    /// whatever the settings say.
    pub fn plan(&self) -> (r: ConnectPlan)
        ensures
            r == (ConnectPlan {
                bind: self.socket is None,
                insecure: !self.settings.verify_peer && self.verify is Default,
                needs_hook: self.tls is Some || !(self.verify is Default),
            }),
    {
        let default = match self.verify {
            ClientVerify::Default => true,
            _ => false,
        };
        ConnectPlan {
            bind: self.socket.is_none(),
            insecure: !self.settings.verify_peer && default,
            needs_hook: self.tls.is_some() || !default,
        }
    }
}

/// The address to connect to, of those that the host resolved to: the first one,
/// or the message that says why there is none.
pub fn first_remote<A>(remotes: Result<Vec<A>, String>) -> (r: Result<A, String>)
    ensures
        match remotes {
            Ok(found) => if found@.len() > 0 {
                r == Ok::<A, String>(found@[0])
            } else {
                r matches Err(message) && message@ == "no addresses found for host"@
            },
            Err(message) => r == Err::<A, String>(message),
        },
{
    match remotes {
        Ok(found) => {
            let mut found = found;
            if found.len() > 0 {
                Ok(found.remove(0))
            } else {
                Err("no addresses found for host".to_string())
            }
        },
        Err(message) => Err(message),
    }
}

/// The host and port that a request goes to.
pub fn request_target(url: &ParsedUrl) -> (r: Result<(String, u16), ClientError>)
    ensures
        match url@.host_text {
            Some(host) => r matches Ok((name, port)) && name@ == host && port == port_of(url@),
            None => r matches Err(ClientError::InvalidUrl(text)) && text@ == url@.text,
        },
{
    let port: u16 = url.port_or_default();
    match &url.host_text {
        Some(host) => Ok((host.clone(), port)),
        None => Err(ClientError::InvalidUrl(url.text.clone())),
    }
}

/// Law: a certificate is accepted by its whole hash, where that is among those pinned.
pub proof fn lemma_pinned(hashes: Seq<[u8; 32]>, hash: Seq<u8>, i: int)
    ensures
        0 <= i < hashes.len() && hashes[i]@ == hash ==> is_pinned(hashes, hash),
        (forall|j: int| 0 <= j < hashes.len() ==> (#[trigger] hashes[j])@ != hash) ==> !is_pinned(
            hashes,
            hash,
        ),
{
}

} // verus!
