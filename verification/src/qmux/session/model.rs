//! What a session is, over plain values, and what each frame does to it.

use vstd::prelude::*;

use crate::qmux::config::ProtocolView;
use crate::qmux::credit::{CreditView, min};
use crate::qmux::error::ErrorView;
use crate::qmux::negotiate::agreed;
use crate::qmux::proto::MAX_FRAME_PAYLOAD;
use crate::qmux::proto::frame::{FrameView, frame_size_of};
use crate::qmux::proto::params::{DEFAULT_MAX_RECORD_SIZE, ParamsView, no_params};
use crate::qmux::proto::varint::size_of_varint;
use crate::qmux::proto::version::Version;
use crate::qmux::stream::{
    STREAM_INDEX_MAX, StreamDir, by_server, dir_of, index_of, make_id, receivable, sendable,
};

verus! {

/// The sending side of a stream.
pub struct SendView {
    /// How much may be sent on it, where flow control applies.
    pub credit: Option<CreditView>,
    /// Whether its last frame has not been sent yet.
    pub live: bool,
    /// Whether the application still holds it.
    pub held: bool,
}

/// The receiving side of a stream.
pub struct RecvView {
    /// How much may be received on it.
    pub credit: CreditView,
    /// Whether its last frame has not arrived yet.
    pub live: bool,
    /// Whether the application still holds it.
    pub held: bool,
}

/// A session over plain values.
#[verifier::ext_equal]
pub struct SessionView {
    pub is_server: bool,
    pub version: Version,
    pub protocol: ProtocolView,
    /// The parameters that we advertise.
    pub ours: ParamsView,
    /// The parameters of the peer, once they arrived.
    pub peer: ParamsView,
    pub params_received: bool,
    /// How much the connection may send.
    pub conn_send: CreditView,
    /// How much the connection may receive.
    pub conn_recv: CreditView,
    /// How many streams we may open.
    pub open_bi: CreditView,
    pub open_uni: CreditView,
    /// How many streams the peer may open.
    pub recv_bi: CreditView,
    pub recv_uni: CreditView,
    pub send: Map<u64, SendView>,
    pub recv: Map<u64, RecvView>,
    /// The streams of the peer that were opened before, by index.
    pub opened_bi: Set<u64>,
    pub opened_uni: Set<u64>,
    /// The application protocol, once it is known.
    pub negotiated: Option<Option<Seq<char>>>,
    pub established: bool,
    /// The largest record that may be sent.
    pub record_limit: u64,
    /// The idle timeout in milliseconds (0 = none).
    pub idle_timeout_ms: u64,
    /// The largest datagram payload that may be sent (0 = none).
    pub datagram_max_size: usize,
    /// Why the session is closed, if it is.
    pub closed: Option<ErrorView>,
}

/// What the holder of a session has to do after a frame.
pub enum EventView {
    /// Nothing.
    Nothing,
    /// The peer's transport parameters arrived.
    Established,
    /// Hand stream data to the receiving side that is there.
    Deliver { id: u64, data: Seq<u8>, fin: bool },
    /// Hand out a new stream of the peer, with its first data.
    Accept { id: u64, data: Seq<u8>, fin: bool },
    /// Tell the receiving side that the peer gave the stream up.
    Reset { id: u64, code: u64, final_size: u64 },
    /// Tell the sending side that the peer wants no more.
    Stop { id: u64, code: u64 },
    /// The peer closed the connection.
    Close,
    /// Send an answer to a ping.
    Respond { frame: FrameView },
    /// Hand out a datagram.
    Datagram { data: Seq<u8> },
}

/// The unlimited credit of versions without flow control.
pub open spec fn limit_for(version: Version, max: u64) -> u64 {
    if version.qmux() {
        max
    } else {
        u64::MAX
    }
}

/// A session at its start.
pub open spec fn start(
    is_server: bool,
    version: Version,
    protocol: ProtocolView,
    ours: ParamsView,
) -> SessionView {
    SessionView {
        is_server,
        version,
        protocol,
        ours,
        peer: no_params(),
        params_received: false,
        conn_send: CreditView::fresh(limit_for(version, 0)),
        conn_recv: CreditView::fresh(limit_for(version, ours.initial_max_data)),
        open_bi: CreditView::fresh(limit_for(version, 0)),
        open_uni: CreditView::fresh(limit_for(version, 0)),
        recv_bi: CreditView::fresh(limit_for(version, ours.initial_max_streams_bidi)),
        recv_uni: CreditView::fresh(limit_for(version, ours.initial_max_streams_uni)),
        send: Map::empty(),
        recv: Map::empty(),
        opened_bi: Set::empty(),
        opened_uni: Set::empty(),
        negotiated: match protocol {
            ProtocolView::Negotiate(_) => None,
            ProtocolView::Negotiated(name) => Some(Some(name)),
            ProtocolView::NoProtocol => Some(None),
        },
        established: !version.qmux(),
        record_limit: DEFAULT_MAX_RECORD_SIZE,
        idle_timeout_ms: 0,
        datagram_max_size: 0,
        closed: None,
    }
}

impl SessionView {
    /// Whether stream data for `id` has somewhere to go.
    pub open spec fn receiving(self, id: u64) -> bool {
        self.recv.contains_key(id) && self.recv[id].live
    }

    /// Whether the sending side of `id` is still open.
    pub open spec fn sending(self, id: u64) -> bool {
        self.send.contains_key(id) && self.send[id].live
    }

    /// The streams of the peer that were opened before.
    pub open spec fn opened(self, dir: StreamDir) -> Set<u64> {
        match dir {
            StreamDir::Bi => self.opened_bi,
            StreamDir::Uni => self.opened_uni,
        }
    }

    /// How many streams the peer may open.
    pub open spec fn stream_limit(self, dir: StreamDir) -> CreditView {
        match dir {
            StreamDir::Bi => self.recv_bi,
            StreamDir::Uni => self.recv_uni,
        }
    }

    /// Whether the peer opened `id`.
    pub open spec fn by_peer(self, id: u64) -> bool {
        by_server(id) != self.is_server
    }

    /// Whether `id` is a stream of the peer that is over: opened before and no
    /// longer received on. Only the QMux versions keep track.
    pub open spec fn retired(self, id: u64) -> bool {
        &&& self.version.qmux()
        &&& self.by_peer(id)
        &&& !self.receiving(id)
        &&& self.opened(dir_of(id)).contains(index_of(id))
    }

    /// The stream of the peer counts against its limit and was opened. Opening
    /// index N implicitly opens all of 0..N (RFC 9000, section 4.6), which counts
    /// them but does not close them.
    pub open spec fn opening(self, id: u64) -> SessionView {
        let index = index_of(id);
        let limit = self.stream_limit(dir_of(id)).raised_to((index + 1) as u64);
        let opened = self.opened(dir_of(id)).insert(index);
        match dir_of(id) {
            StreamDir::Bi => SessionView { recv_bi: limit, opened_bi: opened, ..self },
            StreamDir::Uni => SessionView { recv_uni: limit, opened_uni: opened, ..self },
        }
    }

    /// Whether the peer may open `id`.
    pub open spec fn may_open(self, id: u64) -> bool {
        index_of(id) + 1 <= self.stream_limit(dir_of(id)).max
    }

    /// The receive window of a new stream of the peer.
    pub open spec fn window_for(self, id: u64) -> u64 {
        limit_for(
            self.version,
            match dir_of(id) {
                StreamDir::Bi => self.ours.initial_max_stream_data_bidi_remote,
                StreamDir::Uni => self.ours.initial_max_stream_data_uni,
            },
        )
    }

    /// The send window of a stream, as the peer's parameters give it. Which of
    /// them depends on who opened the stream: "local" is the peer's own.
    pub open spec fn send_window_for(self, id: u64) -> u64 {
        match dir_of(id) {
            StreamDir::Uni => self.peer.initial_max_stream_data_uni,
            StreamDir::Bi => if by_server(id) == self.is_server {
                self.peer.initial_max_stream_data_bidi_remote
            } else {
                self.peer.initial_max_stream_data_bidi_local
            },
        }
    }

    /// A sending side that starts with a limit.
    pub open spec fn new_send(self, max: u64) -> SendView {
        SendView {
            credit: if self.version.qmux() {
                Some(CreditView::fresh(max))
            } else {
                None
            },
            live: true,
            held: true,
        }
    }
}

/// After the last frame on the receiving side of `id`.
pub open spec fn recv_over(m: Map<u64, RecvView>, id: u64) -> Map<u64, RecvView> {
    if !m.contains_key(id) {
        m
    } else if m[id].held {
        m.insert(id, RecvView { live: false, ..m[id] })
    } else {
        m.remove(id)
    }
}

/// After the last frame on the sending side of `id`.
pub open spec fn send_over(m: Map<u64, SendView>, id: u64) -> Map<u64, SendView> {
    if !m.contains_key(id) {
        m
    } else if m[id].held {
        m.insert(id, SendView { live: false, ..m[id] })
    } else {
        m.remove(id)
    }
}

/// After the application let go of the receiving side of `id`.
pub open spec fn recv_dropped(m: Map<u64, RecvView>, id: u64) -> Map<u64, RecvView> {
    if !m.contains_key(id) {
        m
    } else if m[id].live {
        m.insert(id, RecvView { held: false, ..m[id] })
    } else {
        m.remove(id)
    }
}

/// After the application let go of the sending side of `id`.
pub open spec fn send_dropped(m: Map<u64, SendView>, id: u64) -> Map<u64, SendView> {
    if !m.contains_key(id) {
        m
    } else if m[id].live {
        m.insert(id, SendView { held: false, ..m[id] })
    } else {
        m.remove(id)
    }
}

/// Stream data arrives.
pub open spec fn on_stream(s: SessionView, id: u64, data: Seq<u8>, fin: bool) -> Result<
    (SessionView, EventView),
    ErrorView,
> {
    let len = data.len() as u64;
    if data.len() > MAX_FRAME_PAYLOAD {
        Err(ErrorView::FrameTooLarge)
    } else if !receivable(id, s.is_server) {
        Err(ErrorView::InvalidStreamId)
    } else if s.retired(id) {
        // A late frame takes no connection credit, which nobody would give back.
        Ok((s, EventView::Nothing))
    } else if !s.conn_recv.admits(len) {
        Err(ErrorView::FlowControlError)
    } else {
        let s1 = SessionView { conn_recv: s.conn_recv.claimed(len), ..s };
        if s.receiving(id) {
            on_known_stream(s1, id, data, fin)
        } else if !s.by_peer(id) {
            // One of our own streams that is over.
            Ok((s1, EventView::Nothing))
        } else {
            on_new_stream(s1, id, data, fin)
        }
    }
}

/// Stream data arrives for a receiving side that is there.
pub open spec fn on_known_stream(s: SessionView, id: u64, data: Seq<u8>, fin: bool) -> Result<
    (SessionView, EventView),
    ErrorView,
> {
    let len = data.len() as u64;
    if !s.recv[id].credit.admits(len) {
        Err(ErrorView::FlowControlError)
    } else {
        let m = s.recv.insert(
            id,
            RecvView { credit: s.recv[id].credit.claimed(len), ..s.recv[id] },
        );
        Ok(
            (
                SessionView {
                    recv: if fin {
                        recv_over(m, id)
                    } else {
                        m
                    },
                    ..s
                },
                EventView::Deliver { id, data, fin },
            ),
        )
    }
}

/// The first data on a stream of the peer arrives.
pub open spec fn on_new_stream(s: SessionView, id: u64, data: Seq<u8>, fin: bool) -> Result<
    (SessionView, EventView),
    ErrorView,
> {
    let len = data.len() as u64;
    if s.version.qmux() && !s.may_open(id) {
        Err(ErrorView::StreamLimitExceeded)
    } else if !CreditView::fresh(s.window_for(id)).admits(len) {
        Err(ErrorView::FlowControlError)
    } else {
        let s1 = if s.version.qmux() {
            s.opening(id)
        } else {
            s
        };
        Ok(
            (
                SessionView {
                    recv: s.recv.insert(
                        id,
                        RecvView {
                            credit: CreditView::fresh(s.window_for(id)).claimed(len),
                            live: !fin,
                            held: true,
                        },
                    ),
                    send: if dir_of(id) is Bi {
                        s.send.insert(id, s.new_send(s.peer.initial_max_stream_data_bidi_local))
                    } else {
                        s.send
                    },
                    ..s1
                },
                EventView::Accept { id, data, fin },
            ),
        )
    }
}

/// The peer gives a stream up.
pub open spec fn on_reset(s: SessionView, id: u64, code: u64, final_size: u64) -> Result<
    (SessionView, EventView),
    ErrorView,
> {
    if !receivable(id, s.is_server) {
        Err(ErrorView::InvalidStreamId)
    } else if s.receiving(id) {
        Ok(
            (
                SessionView { recv: recv_over(s.recv, id), ..s },
                EventView::Reset { id, code, final_size },
            ),
        )
    } else if s.version.qmux() && s.by_peer(id) {
        // It can be the first frame of a stream, which it opens and closes.
        if !s.may_open(id) {
            Err(ErrorView::StreamLimitExceeded)
        } else {
            Ok((s.opening(id), EventView::Nothing))
        }
    } else {
        Ok((s, EventView::Nothing))
    }
}

/// The credit with a limit raised to `max`, unless that would lower it.
pub open spec fn raised(c: CreditView, max: u64) -> CreditView {
    if max >= c.max {
        c.with_max(max)
    } else {
        c
    }
}

/// The effective idle timeout: the smaller of the two advertised values, ignoring
/// a zero (disabled) side (RFC 9000, section 10.1).
pub open spec fn idle_timeout(ours: u64, peer: u64) -> u64 {
    if ours == 0 {
        peer
    } else if peer == 0 {
        ours
    } else {
        min(ours, peer)
    }
}

/// The largest datagram payload whose frame fits both the peer's limit on
/// datagram frames and one record, with room for the type and the length.
pub open spec fn datagram_limit(p: ParamsView) -> usize {
    if p.max_datagram_frame_size == 0 {
        0
    } else {
        let cap = min(p.max_datagram_frame_size, p.max_record_size);
        let overhead = 1 + size_of_varint(cap);
        if cap < overhead {
            0
        } else if cap - overhead <= usize::MAX {
            (cap - overhead) as usize
        } else {
            usize::MAX
        }
    }
}

/// A sending side once the peer's parameters are known.
pub open spec fn credited_send(v: SendView, window: u64) -> SendView {
    if v.live && v.credit is Some {
        SendView { credit: Some(raised(v.credit->0, window)), ..v }
    } else {
        v
    }
}

/// The sending sides once the peer's parameters are known.
pub open spec fn credited(s: SessionView) -> Map<u64, SendView> {
    s.send.map_entries(|id: u64, v: SendView| credited_send(v, s.send_window_for(id)))
}

/// The transport parameters of the peer arrive.
pub open spec fn on_params(s: SessionView, p: ParamsView) -> Result<
    (SessionView, EventView),
    ErrorView,
> {
    if s.params_received {
        Err(ErrorView::FlowControlError)
    } else if !(s.protocol is Negotiate) && p.protocols.len() > 0 {
        Err(ErrorView::UnexpectedProtocols)
    } else {
        let s1 = SessionView { peer: p, ..s };
        Ok(
            (
                SessionView {
                    params_received: true,
                    peer: p,
                    negotiated: match s.protocol {
                        ProtocolView::Negotiate(list) => Some(
                            agreed(s.is_server, list, p.protocols),
                        ),
                        _ => s.negotiated,
                    },
                    conn_send: raised(s.conn_send, p.initial_max_data),
                    open_bi: raised(s.open_bi, p.initial_max_streams_bidi),
                    open_uni: raised(s.open_uni, p.initial_max_streams_uni),
                    send: credited(s1),
                    record_limit: if s.version is QMux01 {
                        p.max_record_size
                    } else {
                        s.record_limit
                    },
                    idle_timeout_ms: if s.version is QMux01 {
                        idle_timeout(s.ours.max_idle_timeout, p.max_idle_timeout)
                    } else {
                        0
                    },
                    datagram_max_size: if s.version is QMux01 {
                        datagram_limit(p)
                    } else {
                        0
                    },
                    established: true,
                    ..s
                },
                EventView::Established,
            ),
        )
    }
}

/// The peer raises a limit. One that goes backwards is an error.
pub open spec fn on_limit(s: SessionView, f: FrameView) -> Result<
    (SessionView, EventView),
    ErrorView,
> {
    match f {
        FrameView::MaxData(max) => if max < s.conn_send.max {
            Err(ErrorView::FlowControlError)
        } else {
            Ok((SessionView { conn_send: s.conn_send.with_max(max), ..s }, EventView::Nothing))
        },
        FrameView::MaxStreamsBidi(max) => if max < s.open_bi.max {
            Err(ErrorView::FlowControlError)
        } else {
            Ok((SessionView { open_bi: s.open_bi.with_max(max), ..s }, EventView::Nothing))
        },
        FrameView::MaxStreamsUni(max) => if max < s.open_uni.max {
            Err(ErrorView::FlowControlError)
        } else {
            Ok((SessionView { open_uni: s.open_uni.with_max(max), ..s }, EventView::Nothing))
        },
        FrameView::MaxStreamData { id, max } => if s.sending(id) && s.send[id].credit is Some {
            let credit = s.send[id].credit->0;
            if max < credit.max {
                Err(ErrorView::FlowControlError)
            } else {
                let v = SendView { credit: Some(credit.with_max(max)), ..s.send[id] };
                Ok((SessionView { send: s.send.insert(id, v), ..s }, EventView::Nothing))
            }
        } else {
            Ok((s, EventView::Nothing))
        },
        _ => Ok((s, EventView::Nothing)),
    }
}

/// What a frame from the peer does to a session. An error ends it.
pub open spec fn on_frame(s: SessionView, f: FrameView) -> Result<
    (SessionView, EventView),
    ErrorView,
> {
    match f {
        FrameView::TransportParameters(p) => on_params(s, p),
        FrameView::Stream { id, data, fin } => on_stream(s, id, data, fin),
        FrameView::ResetStream { id, code, final_size } => on_reset(s, id, code, final_size),
        FrameView::StopSending { id, code } => if !sendable(id, s.is_server) {
            Err(ErrorView::InvalidStreamId)
        } else if s.sending(id) {
            Ok((s, EventView::Stop { id, code }))
        } else {
            Ok((s, EventView::Nothing))
        },
        FrameView::ConnectionClose { code, reason } => Ok(
            (
                SessionView { closed: Some(ErrorView::ConnectionClosed { code, reason }), ..s },
                EventView::Close,
            ),
        ),
        FrameView::Ping { sequence, response } => Ok(
            (
                s,
                if response {
                    EventView::Nothing
                } else {
                    EventView::Respond { frame: FrameView::Ping { sequence, response: true } }
                },
            ),
        ),
        FrameView::Datagram { data, length_prefixed } => if s.ours.max_datagram_frame_size == 0 {
            Err(ErrorView::DatagramsUnsupported)
        } else if frame_size_of(data.len(), length_prefixed) > s.ours.max_datagram_frame_size {
            Err(ErrorView::FrameTooLarge)
        } else {
            Ok((s, EventView::Datagram { data }))
        },
        // Limits, and frames that only inform: the peer is blocked, or padding.
        _ => on_limit(s, f),
    }
}

/// A session after stream data that it refuses. What passed the limit of the
/// connection is counted there, and a stream of the peer within its limit counts
/// as opened.
pub open spec fn refused_stream(s: SessionView, id: u64, data: Seq<u8>) -> SessionView {
    let len = data.len() as u64;
    if data.len() > MAX_FRAME_PAYLOAD || !receivable(id, s.is_server) || !s.conn_recv.admits(len) {
        s
    } else {
        let s1 = SessionView { conn_recv: s.conn_recv.claimed(len), ..s };
        if s.receiving(id) {
            s1
        } else {
            refused_new_stream(s1, id)
        }
    }
}

/// A session after the first data on a stream of the peer that it refuses.
pub open spec fn refused_new_stream(s: SessionView, id: u64) -> SessionView {
    if s.version.qmux() && s.may_open(id) {
        s.opening(id)
    } else {
        s
    }
}

/// A session after transport parameters that it refuses: nothing of them is taken,
/// and they count as received.
pub open spec fn refused_params(s: SessionView) -> SessionView {
    SessionView { params_received: true, ..s }
}

/// A session after a frame that it refuses.
pub open spec fn after_refusal(s: SessionView, f: FrameView) -> SessionView {
    match f {
        FrameView::TransportParameters(_) => refused_params(s),
        FrameView::Stream { id, data, .. } => refused_stream(s, id, data),
        _ => s,
    }
}

/// How many streams we may open.
pub open spec fn open_limit(s: SessionView, dir: StreamDir) -> CreditView {
    match dir {
        StreamDir::Bi => s.open_bi,
        StreamDir::Uni => s.open_uni,
    }
}

/// A stream of ours is there: both sides of it where it goes both ways. Its send
/// window is the peer's, which is zero until the peer's parameters arrive.
pub open spec fn stream_opened(s: SessionView, dir: StreamDir) -> (SessionView, u64) {
    let credit = open_limit(s, dir);
    let id = make_id(credit.used, dir, s.is_server);
    let send = SendView {
        credit: if s.version.qmux() {
            Some(raised(CreditView::fresh(0), s.send_window_for(id)))
        } else {
            None
        },
        live: true,
        held: true,
    };
    let s1 = SessionView { send: s.send.insert(id, send), ..s };
    (
        match dir {
            StreamDir::Uni => SessionView { open_uni: credit.claimed(1), ..s1 },
            StreamDir::Bi => SessionView {
                open_bi: credit.claimed(1),
                recv: s.recv.insert(
                    id,
                    RecvView {
                        credit: CreditView::fresh(
                            limit_for(s.version, s.ours.initial_max_stream_data_bidi_local),
                        ),
                        live: true,
                        held: true,
                    },
                ),
                ..s1
            },
        },
        id,
    )
}

/// Opening a stream: `None` means to wait until the peer allows one more.
pub open spec fn on_open(s: SessionView, dir: StreamDir) -> Result<
    Option<(SessionView, u64)>,
    ErrorView,
> {
    let credit = open_limit(s, dir);
    if credit.closed {
        Err(ErrorView::Closed)
    } else if credit.available() == 0 {
        Ok(None)
    } else if credit.used > STREAM_INDEX_MAX {
        Err(ErrorView::StreamLimitExceeded)
    } else {
        Ok(Some(stream_opened(s, dir)))
    }
}

/// How much can be sent at once on a stream that flow control applies to: no more
/// than the stream and the connection both have left.
pub open spec fn sendable_now(s: SessionView, id: u64, desired: u64) -> u64 {
    min(min(desired, s.send[id].credit->0.available()), s.conn_send.available())
}

/// Claiming credit to send up to `desired` bytes: `None` means to wait for more.
pub open spec fn on_claim(s: SessionView, id: u64, desired: u64) -> Result<
    Option<(SessionView, u64)>,
    ErrorView,
> {
    if !s.send.contains_key(id) {
        Err(ErrorView::Closed)
    } else {
        match s.send[id].credit {
            // No flow control.
            None => Ok(Some((s, desired))),
            Some(credit) => {
                let n = sendable_now(s, id, desired);
                if n > 0 {
                    Ok(
                        Some(
                            (
                                SessionView {
                                    conn_send: s.conn_send.claimed(n),
                                    send: s.send.insert(
                                        id,
                                        SendView { credit: Some(credit.claimed(n)), ..s.send[id] },
                                    ),
                                    ..s
                                },
                                n,
                            ),
                        ),
                    )
                } else if min(desired, credit.available()) == 0 {
                    if credit.closed {
                        Err(ErrorView::Closed)
                    } else {
                        Ok(None)
                    }
                } else if s.conn_send.closed {
                    Err(ErrorView::Closed)
                } else {
                    Ok(None)
                }
            },
        }
    }
}

/// Giving back credit for bytes that were never sent.
pub open spec fn on_release(s: SessionView, id: u64, amount: u64) -> SessionView {
    if s.send.contains_key(id) && s.send[id].credit is Some {
        SessionView {
            conn_send: s.conn_send.released(amount),
            send: s.send.insert(
                id,
                SendView {
                    credit: Some(s.send[id].credit->0.released(amount)),
                    ..s.send[id]
                },
            ),
            ..s
        }
    } else {
        s
    }
}

/// The application read `len` bytes of a stream.
pub open spec fn on_consumed(s: SessionView, id: u64, len: u64) -> SessionView {
    if !s.version.qmux() {
        s
    } else {
        SessionView {
            conn_recv: s.conn_recv.consuming(len),
            recv: if s.recv.contains_key(id) {
                s.recv.insert(
                    id,
                    RecvView { credit: s.recv[id].credit.consuming(len), ..s.recv[id] },
                )
            } else {
                s.recv
            },
            ..s
        }
    }
}

/// The window update of a stream that reading `len` bytes of it calls for.
pub open spec fn stream_update(s: SessionView, id: u64, len: u64) -> Option<FrameView> {
    if s.version.qmux() && s.recv.contains_key(id) && s.recv[id].credit.worth_update(len) {
        Some(FrameView::MaxStreamData { id, max: s.recv[id].credit.next_max(len) })
    } else {
        None
    }
}

/// The window update of the connection that reading `len` bytes calls for.
pub open spec fn conn_update(s: SessionView, len: u64) -> Option<FrameView> {
    if s.version.qmux() && s.conn_recv.worth_update(len) {
        Some(FrameView::MaxData(s.conn_recv.next_max(len)))
    } else {
        None
    }
}

/// The application let go of the receiving side of a stream. A stream of the peer
/// then counts as done, so that the peer may open another.
pub open spec fn on_recv_dropped(s: SessionView, id: u64) -> SessionView {
    let s1 = SessionView { recv: recv_dropped(s.recv, id), ..s };
    if !s.version.qmux() || !s.by_peer(id) {
        s1
    } else {
        match dir_of(id) {
            StreamDir::Bi => SessionView { recv_bi: s.recv_bi.consuming(1), ..s1 },
            StreamDir::Uni => SessionView { recv_uni: s.recv_uni.consuming(1), ..s1 },
        }
    }
}

/// The limit update that letting go of a stream calls for.
pub open spec fn streams_update(s: SessionView, id: u64) -> Option<FrameView> {
    let credit = s.stream_limit(dir_of(id));
    if s.version.qmux() && s.by_peer(id) && credit.worth_update(1) {
        Some(
            match dir_of(id) {
                StreamDir::Bi => FrameView::MaxStreamsBidi(credit.next_max(1)),
                StreamDir::Uni => FrameView::MaxStreamsUni(credit.next_max(1)),
            },
        )
    } else {
        None
    }
}

/// A credit that nobody waits for any more.
pub open spec fn shut(c: CreditView) -> CreditView {
    CreditView { closed: true, ..c }
}

/// A sending side whose credit nobody waits for any more.
pub open spec fn shut_send(v: SendView) -> SendView {
    SendView {
        credit: match v.credit {
            Some(c) => Some(shut(c)),
            None => None,
        },
        ..v
    }
}

/// A session that is over: whoever waits for credit is let go.
pub open spec fn torn_down(s: SessionView, err: ErrorView) -> SessionView {
    SessionView {
        open_bi: shut(s.open_bi),
        open_uni: shut(s.open_uni),
        conn_send: shut(s.conn_send),
        conn_recv: shut(s.conn_recv),
        send: s.send.map_values(|v: SendView| shut_send(v)),
        closed: Some(err),
        ..s
    }
}

/// Whether a session was torn down: whoever waits for credit was let go.
pub open spec fn is_torn_down(s: SessionView) -> bool {
    s.conn_send.closed
}

/// Our side closed a session. The reason goes to those that wait for one: the
/// reader, which tears the session down when it is over, and the writer, while
/// `writing` holds. With both gone the session keeps the reason it has.
pub open spec fn on_close(
    s: SessionView,
    code: u64,
    reason: Seq<char>,
    writing: bool,
) -> SessionView {
    if is_torn_down(s) && !writing {
        s
    } else {
        SessionView { closed: Some(ErrorView::ConnectionClosed { code, reason }), ..s }
    }
}

} // verus!
