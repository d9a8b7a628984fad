//! A connection as a whole: how it ends, its counters and its datagrams.

use std::time::Duration;

use vstd::pervasive::cloned;
use vstd::prelude::*;

use super::error::ConnectionError;
use crate::http3::code::http3_code;
use crate::http3::header::{SessionHeaders, datagram_header};

verus! {

/// "conn" in ASCII, as an HTTP/3 error code: what a connection is closed with
/// when it is dropped without a `close`.
pub const DROP_CODE: u64 = 0x52E50ACE926F;

/// The datagrams that wait between the driver and the application, in each
/// direction.
pub const DGRAM_CHANNEL_CAPACITY: usize = 64;

/// Whether a connection has ended, and who waits for that. `W` wakes a task.
pub struct ConnectionClosed<W> {
    err: Option<ConnectionError>,
    wakers: Vec<W>,
}

/// The state of a [`ConnectionClosed`].
pub struct ClosedView<W> {
    /// Why the connection ended.
    pub err: Option<ConnectionError>,
    /// Who waits, in the order they came.
    pub wakers: Seq<W>,
}

impl<W> View for ConnectionClosed<W> {
    type V = ClosedView<W>;

    closed spec fn view(&self) -> ClosedView<W> {
        ClosedView { err: self.err, wakers: self.wakers@ }
    }
}

impl<W> ConnectionClosed<W> {
    /// A connection that is open.
    pub fn new() -> (r: ConnectionClosed<W>)
        ensures
            r@ == (ClosedView::<W> { err: None, wakers: Seq::empty() }),
    {
        ConnectionClosed { err: None, wakers: Vec::new() }
    }

    /// End the connection, and hand out who is to be woken. The first error
    /// stays.
    pub fn abort(&mut self, err: ConnectionError) -> (r: Vec<W>)
        ensures
            if old(self)@.err is Some {
                r@ == Seq::<W>::empty() && final(self)@ == old(self)@
            } else {
                &&& r@ == old(self)@.wakers
                &&& final(self)@ == (ClosedView::<W> { err: Some(err), wakers: Seq::empty() })
            },
    {
        if self.err.is_some() {
            return Vec::new();
        }
        self.err = Some(err);
        let mut wakers: Vec<W> = Vec::new();
        std::mem::swap(&mut self.wakers, &mut wakers);
        wakers
    }

    /// Why the connection ended; where it has not, wait for that.
    pub fn poll(&mut self, waker: &W) -> (r: Option<ConnectionError>) where W: Clone
        ensures
            r == old(self)@.err,
            old(self)@.err is Some ==> *final(self) == *old(self),
            old(self)@.err is None ==> {
                &&& final(self)@.err is None
                &&& final(self)@.wakers.len() == old(self)@.wakers.len() + 1
                &&& final(self)@.wakers.drop_last() == old(self)@.wakers
                &&& cloned(*waker, final(self)@.wakers.last())
            },
    {
        if let Some(err) = &self.err {
            return Some(err.clone());
        }
        self.wakers.push(waker.clone());
        assert(self@.wakers.drop_last() =~= old(self)@.wakers);
        None
    }

    /// Whether the connection has ended.
    pub fn is_closed(&self) -> (r: bool)
        ensures
            r == (self@.err is Some),
    {
        self.err.is_some()
    }

    /// The last handle was dropped: the code and reason to close with, unless the
    /// connection has ended.
    pub fn on_drop(&self) -> (r: Option<(u64, &'static str)>)
        ensures
            self@.err is Some ==> r is None,
            self@.err is None ==> (r matches Some((code, reason)) && code == http3_code(0x636E6E6F)
                && reason@ == "connection dropped"@),
    {
        if self.err.is_some() {
            None
        } else {
            Some((DROP_CODE, "connection dropped"))
        }
    }
}

/// The counters that a QUIC connection keeps.
#[derive(Debug, Clone, Copy)]
pub struct TransportStats {
    pub sent_bytes: u64,
    pub recv_bytes: u64,
    pub lost_bytes: u64,
    pub sent: usize,
    pub recv: usize,
    pub lost: usize,
}

/// What is known of the active path.
#[derive(Debug, Clone, Copy)]
pub struct PathStats {
    /// The smoothed round-trip time.
    pub rtt: Duration,
    /// The estimated delivery rate, in bytes per second.
    pub delivery_rate: u64,
}

/// The counters of a connection at one point in time.
#[derive(Debug, Clone, Copy)]
pub struct ConnectionStats {
    /// Total bytes sent, including retransmissions and overhead.
    pub bytes_sent: u64,
    /// Total bytes received, including duplicates and overhead.
    pub bytes_received: u64,
    /// Total bytes detected as lost.
    pub bytes_lost: u64,
    /// Total QUIC packets sent.
    pub packets_sent: u64,
    /// Total QUIC packets received.
    pub packets_received: u64,
    /// Total QUIC packets detected as lost.
    pub packets_lost: u64,
    /// Smoothed round-trip time of the active path, if one is established.
    pub rtt: Option<Duration>,
    /// Estimated send rate in bits per second, if a path is established.
    pub send_rate: Option<u64>,
}

/// A rate in bits, of one in bytes; the largest value stands for any above.
pub open spec fn bits_per_second(bytes: u64) -> u64 {
    if bytes * 8 <= u64::MAX {
        (bytes * 8) as u64
    } else {
        u64::MAX
    }
}

impl ConnectionStats {
    /// The counters of a connection and of its active path.
    pub fn from_quiche(stats: TransportStats, path: Option<PathStats>) -> (r: ConnectionStats)
        ensures
            r.bytes_sent == stats.sent_bytes,
            r.bytes_received == stats.recv_bytes,
            r.bytes_lost == stats.lost_bytes,
            r.packets_sent == stats.sent,
            r.packets_received == stats.recv,
            r.packets_lost == stats.lost,
            r.rtt == (match path {
                Some(p) => Some(p.rtt),
                None => None,
            }),
            r.send_rate == (match path {
                Some(p) => Some(bits_per_second(p.delivery_rate)),
                None => None,
            }),
    {
        let (rtt, send_rate): (Option<Duration>, Option<u64>) = match path {
            Some(p) => {
                let rate: u64 = match p.delivery_rate.checked_mul(8) {
                    Some(bits) => bits,
                    None => u64::MAX,
                };
                (Some(p.rtt), Some(rate))
            },
            None => (None, None),
        };
        ConnectionStats {
            bytes_sent: stats.sent_bytes,
            bytes_received: stats.recv_bytes,
            bytes_lost: stats.lost_bytes,
            packets_sent: stats.sent as u64,
            packets_received: stats.recv as u64,
            packets_lost: stats.lost as u64,
            rtt,
            send_rate,
        }
    }
}

/// What became of a datagram that was handed to the driver.
#[derive(Debug, Clone, Copy, PartialEq, Eq, Structural)]
pub enum DatagramQueued {
    /// It waits for the driver.
    Sent,
    /// There was no room for it.
    Full,
    /// The driver is gone.
    Disconnected,
}

/// The answer to a datagram: whether to nudge the driver. Datagrams are
/// unreliable, so one without room is dropped in silence.
pub fn send_datagram(outcome: DatagramQueued) -> (r: Result<bool, ConnectionError>)
    ensures
        match outcome {
            DatagramQueued::Sent => r == Ok::<bool, ConnectionError>(true),
            DatagramQueued::Full => r == Ok::<bool, ConnectionError>(false),
            DatagramQueued::Disconnected => r == Err::<bool, ConnectionError>(
                ConnectionError::Dropped,
            ),
        },
{
    match outcome {
        DatagramQueued::Sent => Ok(true),
        DatagramQueued::Full => Ok(false),
        DatagramQueued::Disconnected => Err(ConnectionError::Dropped),
    }
}

/// The largest datagram that can be sent, where the driver keeps 0 for a
/// handshake that is not complete and for a peer that takes none.
pub fn max_datagram_size(limit: usize) -> (r: Option<usize>)
    ensures
        r == (if limit == 0 {
            None
        } else {
            Some(limit)
        }),
{
    if limit == 0 {
        None
    } else {
        Some(limit)
    }
}

/// The largest payload of a datagram of a session, given the largest datagram of
/// the connection, if it takes any.
pub fn session_datagram_size(headers: &SessionHeaders, limit: Option<usize>) -> (r: usize)
    ensures
        r == (match limit {
            Some(mtu) if mtu >= datagram_header(headers.session()).len() => mtu - datagram_header(
                headers.session(),
            ).len(),
            _ => 0,
        }),
{
    match limit {
        Some(mtu) => headers.max_datagram_size(mtu),
        None => 0,
    }
}

/// What was read on the CONNECT stream of a session.
#[derive(Debug)]
pub enum Capsule {
    /// The peer closes the session.
    CloseWebTransportSession { code: u32, reason: String },
    /// A capsule that is there to be ignored.
    Grease,
    /// A capsule of another type.
    Unknown { typ: u64, size: usize },
    /// The stream ended.
    End,
    /// The stream failed, or held no capsule.
    Failed,
}

/// What to do after a capsule.
#[derive(Debug)]
pub enum CapsuleStep {
    /// Read the next one.
    Continue,
    /// Stop reading.
    Stop,
    /// Close the session, and stop reading.
    Close { code: u32, reason: String },
}

/// What follows from a capsule on the CONNECT stream.
pub fn on_capsule(capsule: Capsule) -> (r: CapsuleStep)
    ensures
        match capsule {
            Capsule::CloseWebTransportSession { code, reason } => r == (CapsuleStep::Close {
                code,
                reason,
            }),
            Capsule::Grease => r is Continue,
            Capsule::Unknown { .. } => r is Continue,
            Capsule::End => r is Stop,
            Capsule::Failed => r matches CapsuleStep::Close { code, reason } && code == 500
                && reason@ == "capsule error"@,
        },
{
    match capsule {
        Capsule::CloseWebTransportSession { code, reason } => CapsuleStep::Close { code, reason },
        Capsule::Grease => CapsuleStep::Continue,
        Capsule::Unknown { .. } => CapsuleStep::Continue,
        Capsule::End => CapsuleStep::Stop,
        Capsule::Failed => CapsuleStep::Close { code: 500, reason: "capsule error".to_string() },
    }
}

/// Law: a byte has eight bits, and a rate that is too large for its type is the largest.
pub proof fn lemma_rate_in_bits(bytes: u64)
    ensures
        bytes <= u64::MAX / 8 ==> bits_per_second(bytes) == bytes * 8,
        bytes > u64::MAX / 8 ==> bits_per_second(bytes) == u64::MAX,
{
}

} // verus!
