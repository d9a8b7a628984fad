//! The state of a session: flow control, the streams that are open and what was
//! agreed with the peer.

use std::collections::HashMap;

use bytes::Bytes;
use vstd::prelude::*;
use vstd::std_specs::iter::IteratorSpec;

use super::model::{
    EventView, RecvView, SendView, SessionView, after_refusal, conn_update, credited, credited_send,
    datagram_limit, idle_timeout, on_claim, on_close, on_consumed, on_frame, on_known_stream,
    on_limit, on_new_stream, on_open, on_params, on_recv_dropped, on_release, on_reset, on_stream,
    recv_over, refused_new_stream, refused_params, refused_stream, send_dropped, send_over,
    shut_send, start, stream_opened, stream_update, streams_update, torn_down,
};
use super::recv_open::RecvOpen;
use crate::buffer::contents;
use crate::qmux::config::{Config, Protocol};
use crate::qmux::credit::{Credit, CreditView};
use crate::qmux::error::{Error, ErrorView};
use crate::qmux::negotiate::negotiate_protocol;
use crate::qmux::proto::MAX_FRAME_PAYLOAD;
use crate::qmux::proto::frame::{
    ConnectionClose, Datagram, Frame, FrameView, Ping, ResetStream, StopSending, Stream, view_of,
};
use crate::qmux::proto::params::{DEFAULT_MAX_RECORD_SIZE, TransportParams, varint_size};
use crate::qmux::proto::varint::VarInt;
use crate::qmux::proto::version::Version;
use crate::qmux::stream::{STREAM_INDEX_MAX, StreamDir, StreamId, index_of, lemma_id_parts};

verus! {

broadcast use vstd::std_specs::hash::group_hash_axioms;

/// The sending side of a stream.
pub struct SendState {
    stream_credit: Option<Credit>,
    live: bool,
    held: bool,
}

/// The receiving side of a stream.
pub struct RecvState {
    recv_credit: Credit,
    live: bool,
    held: bool,
}

/// A credit over plain values, where there is one.
pub open spec fn credit_view(c: Option<Credit>) -> Option<CreditView> {
    match c {
        Some(c) => Some(c@),
        None => None,
    }
}

impl View for SendState {
    type V = SendView;

    closed spec fn view(&self) -> SendView {
        SendView { credit: credit_view(self.stream_credit), live: self.live, held: self.held }
    }
}

impl View for RecvState {
    type V = RecvView;

    closed spec fn view(&self) -> RecvView {
        RecvView { credit: self.recv_credit@, live: self.live, held: self.held }
    }
}

/// What the holder of a session has to do after a frame.
pub enum Event {
    /// Nothing.
    Nothing,
    /// The peer's transport parameters arrived.
    Established,
    /// Hand stream data to the receiving side that is there.
    Deliver(Stream),
    /// Hand out a new stream of the peer, with its first data.
    Accept(Stream),
    /// Tell the receiving side that the peer gave the stream up.
    Reset(ResetStream),
    /// Tell the sending side that the peer wants no more.
    Stop(StopSending),
    /// The peer closed the connection.
    Close,
    /// Send an answer to a ping.
    Respond(Frame),
    /// Hand out a datagram, or drop it where nobody keeps up.
    Datagram(Bytes),
}

impl View for Event {
    type V = EventView;

    open spec fn view(&self) -> EventView {
        match self {
            Event::Nothing => EventView::Nothing,
            Event::Established => EventView::Established,
            Event::Deliver(s) => EventView::Deliver {
                id: s.id@,
                data: contents(s.data),
                fin: s.fin,
            },
            Event::Accept(s) => EventView::Accept { id: s.id@, data: contents(s.data), fin: s.fin },
            Event::Reset(r) => EventView::Reset {
                id: r.id@,
                code: r.code@,
                final_size: r.final_size,
            },
            Event::Stop(s) => EventView::Stop { id: s.id@, code: s.code@ },
            Event::Close => EventView::Close,
            Event::Respond(f) => EventView::Respond { frame: f@ },
            Event::Datagram(b) => EventView::Datagram { data: contents(*b) },
        }
    }
}

/// The state of a session.
pub struct SessionState {
    config: Config,
    is_server: bool,
    conn_send_credit: Credit,
    conn_recv_credit: Credit,
    our_params: TransportParams,
    peer_params: TransportParams,
    params_received: bool,
    open_bi_credit: Credit,
    open_uni_credit: Credit,
    recv_bi_credit: Credit,
    recv_uni_credit: Credit,
    recv_open_bi: RecvOpen,
    recv_open_uni: RecvOpen,
    send: HashMap<u64, SendState>,
    recv: HashMap<u64, RecvState>,
    negotiated: Option<Option<String>>,
    established: bool,
    record_limit: u64,
    idle_timeout_ms: u64,
    datagram_max_size: usize,
    closed: Option<Error>,
}

/// Text as characters, where there is any.
pub open spec fn text_view(s: Option<String>) -> Option<Seq<char>> {
    match s {
        Some(s) => Some(s@),
        None => None,
    }
}

/// A resolved protocol as characters, once it is known.
pub open spec fn negotiated_view(s: Option<Option<String>>) -> Option<Option<Seq<char>>> {
    match s {
        Some(s) => Some(text_view(s)),
        None => None,
    }
}

/// An error over plain values, where there is one.
pub open spec fn error_view(e: Option<Error>) -> Option<ErrorView> {
    match e {
        Some(e) => Some(e@),
        None => None,
    }
}

impl View for SessionState {
    type V = SessionView;

    closed spec fn view(&self) -> SessionView {
        SessionView {
            is_server: self.is_server,
            version: self.config.version,
            protocol: self.config.protocol@,
            ours: self.our_params@,
            peer: self.peer_params@,
            params_received: self.params_received,
            conn_send: self.conn_send_credit@,
            conn_recv: self.conn_recv_credit@,
            open_bi: self.open_bi_credit@,
            open_uni: self.open_uni_credit@,
            recv_bi: self.recv_bi_credit@,
            recv_uni: self.recv_uni_credit@,
            send: self.send@.map_values(|v: SendState| v@),
            recv: self.recv@.map_values(|v: RecvState| v@),
            opened_bi: self.recv_open_bi.opened(),
            opened_uni: self.recv_open_uni.opened(),
            negotiated: negotiated_view(self.negotiated),
            established: self.established,
            record_limit: self.record_limit,
            idle_timeout_ms: self.idle_timeout_ms,
            datagram_max_size: self.datagram_max_size,
            closed: error_view(self.closed),
        }
    }
}

/// RFC 9000 section 10.1 effective idle timeout in ms: the smaller of the two
/// advertised values, ignoring a zero (disabled) side. Returns 0 when both are
/// disabled. Shared by the reader's idle deadline and the writer's keep-alive
/// cadence so the two never drift.
pub fn negotiated_idle_timeout_ms(ours: u64, peer: u64) -> (r: u64)
    ensures
        r == idle_timeout(ours, peer),
{
    if ours == 0 {
        peer
    } else if peer == 0 || ours <= peer {
        ours
    } else {
        peer
    }
}

/// The largest datagram payload the peer accepts.
fn datagram_payload_limit(params: &TransportParams) -> (r: usize)
    ensures
        r == datagram_limit(params@),
{
    if params.max_datagram_frame_size == 0 {
        return 0;
    }
    // A datagram must fit in one record, so the frame is capped by the smaller of
    // the peer's datagram-frame limit and its record size.
    let cap: u64 = if params.max_datagram_frame_size <= params.max_record_size {
        params.max_datagram_frame_size
    } else {
        params.max_record_size
    };
    // We encode the length-prefixed form: one type byte plus a length varint, whose
    // size for `cap` bounds the one for any payload that fits in `cap`.
    let overhead: u64 = 1 + varint_size(cap) as u64;
    let room: u64 = cap.saturating_sub(overhead);
    if room <= usize::MAX as u64 {
        room as usize
    } else {
        usize::MAX
    }
}

impl SessionState {
    /// A session at its start, and the frame that has to be sent before any other.
    ///
    /// The QMux handshake requires TRANSPORT_PARAMETERS as the first frame. The
    /// legacy `webtransport` format exchanges none, so such a session is
    /// established at once.
    pub fn new(is_server: bool, config: Config) -> (r: (SessionState, Option<Frame>))
        ensures
            r.0@ == start(is_server, config.version, config.protocol@, config.params()),
            view_of(r.1) == if config.version.qmux() {
                Some(FrameView::TransportParameters(config.params()))
            } else {
                None::<FrameView>
            },
    {
        let version = config.version;
        let our_params = config.to_transport_params();
        let first = if version.is_qmux() {
            Some(Frame::TransportParameters(our_params.clone()))
        } else {
            None
        };
        let none: u64 = if version.is_qmux() {
            0
        } else {
            u64::MAX
        };
        let max_data: u64 = if version.is_qmux() {
            our_params.initial_max_data
        } else {
            u64::MAX
        };
        let max_bidi: u64 = if version.is_qmux() {
            config.max_streams_bidi
        } else {
            u64::MAX
        };
        let max_uni: u64 = if version.is_qmux() {
            config.max_streams_uni
        } else {
            u64::MAX
        };
        // Only `Negotiate` resolves in-band (once the peer's params arrive); the
        // out-of-band cases resolve immediately.
        let negotiated = match &config.protocol {
            Protocol::Negotiate(_) => None,
            Protocol::Negotiated(name) => Some(Some(name.clone())),
            Protocol::NoProtocol => Some(None),
        };
        let ghost protocol = config.protocol@;
        let ghost params = config.params();
        let state = SessionState {
            config,
            is_server,
            conn_send_credit: Credit::new(none),
            conn_recv_credit: Credit::new(max_data),
            our_params,
            peer_params: TransportParams::default(),
            params_received: false,
            open_bi_credit: Credit::new(none),
            open_uni_credit: Credit::new(none),
            recv_bi_credit: Credit::new(max_bidi),
            recv_uni_credit: Credit::new(max_uni),
            recv_open_bi: RecvOpen::new(),
            recv_open_uni: RecvOpen::new(),
            send: HashMap::new(),
            recv: HashMap::new(),
            negotiated,
            established: !version.is_qmux(),
            record_limit: DEFAULT_MAX_RECORD_SIZE,
            idle_timeout_ms: 0,
            datagram_max_size: 0,
            closed: None,
        };
        assert(state@ =~= start(is_server, version, protocol, params));
        (state, first)
    }

    /// Effective idle timeout in milliseconds, or `None` if disabled.
    ///
    /// Only kicks in for QMux01 after both sides have exchanged transport
    /// parameters.
    pub fn effective_idle_timeout_ms(&self) -> (r: Option<u64>)
        ensures
            r == ({
                let ms = idle_timeout(self@.ours.max_idle_timeout, self@.peer.max_idle_timeout);
                if self@.version is QMux01 && self@.params_received && ms != 0 {
                    Some(ms)
                } else {
                    None::<u64>
                }
            }),
    {
        if self.config.version != Version::QMux01 || !self.params_received {
            return None;
        }
        let ms: u64 = negotiated_idle_timeout_ms(
            self.our_params.max_idle_timeout,
            self.peer_params.max_idle_timeout,
        );
        if ms == 0 {
            None
        } else {
            Some(ms)
        }
    }

    /// Whether `id` is received on.
    fn is_receiving(&self, id: u64) -> (r: bool)
        ensures
            r == self@.receiving(id),
    {
        match self.recv.get(&id) {
            Some(state) => state.live,
            None => false,
        }
    }

    /// Whether `id` is sent on.
    fn is_sending(&self, id: u64) -> (r: bool)
        ensures
            r == self@.sending(id),
    {
        match self.send.get(&id) {
            Some(state) => state.live,
            None => false,
        }
    }

    /// Retire the receiving side of a stream: nothing more will arrive on it.
    pub fn retire_recv(&mut self, id: u64)
        ensures
            final(self)@ == (SessionView { recv: recv_over(old(self)@.recv, id), ..old(self)@ }),
    {
        let ghost before = self@;
        if let Some(mut state) = self.recv.remove(&id) {
            if state.held {
                state.live = false;
                self.recv.insert(id, state);
            }
        }
        assert(self@ =~= (SessionView { recv: recv_over(before.recv, id), ..before }));
    }

    /// Retire the sending side of a stream: nothing more will be sent on it.
    pub fn retire_send(&mut self, id: u64)
        ensures
            final(self)@ == (SessionView { send: send_over(old(self)@.send, id), ..old(self)@ }),
    {
        let ghost before = self@;
        if let Some(mut state) = self.send.remove(&id) {
            if state.held {
                state.live = false;
                self.send.insert(id, state);
            }
        }
        assert(self@ =~= (SessionView { send: send_over(before.send, id), ..before }));
    }

    /// Count a stream of the peer against its limit and record that it was opened.
    /// False where the peer may not open it.
    fn open_peer_stream(&mut self, id: &StreamId) -> (r: bool)
        ensures
            r == old(self)@.may_open(id@),
            r ==> final(self)@ == old(self)@.opening(id@),
            !r ==> final(self)@ == old(self)@,
    {
        let ghost before = self@;
        let index: u64 = id.index();
        let dir = id.dir();
        match dir {
            StreamDir::Bi => {
                if !self.recv_bi_credit.receive_up_to(index + 1) {
                    assert(self@ =~= before);
                    return false;
                }
                self.recv_open_bi.record(index);
            },
            StreamDir::Uni => {
                if !self.recv_uni_credit.receive_up_to(index + 1) {
                    assert(self@ =~= before);
                    return false;
                }
                self.recv_open_uni.record(index);
            },
        }
        assert(self@ =~= before.opening(id@));
        true
    }

    /// Whether `id` is a stream of the peer that is over.
    fn is_retired(&self, id: &StreamId) -> (r: bool)
        ensures
            r == self@.retired(id@),
    {
        let index: u64 = id.index();
        let opened = match id.dir() {
            StreamDir::Bi => self.recv_open_bi.is_closed(index),
            StreamDir::Uni => self.recv_open_uni.is_closed(index),
        };
        self.config.version.is_qmux() && id.server_initiated() != self.is_server
            && !self.is_receiving(id.0.into_inner()) && opened
    }

    /// Process inbound stream data.
    fn recv_stream(&mut self, stream: Stream) -> (r: Result<Event, Error>)
        ensures
            match on_stream(old(self)@, stream.id@, contents(stream.data), stream.fin) {
                Ok((s, ev)) => final(self)@ == s && (r matches Ok(e) && e@ == ev),
                Err(x) => (r matches Err(e) && e@ == x) && final(self)@ == refused_stream(
                    old(self)@,
                    stream.id@,
                    contents(stream.data),
                ),
            },
    {
        let ghost before = self@;
        if stream.data.len() > MAX_FRAME_PAYLOAD {
            return Err(Error::FrameTooLarge);
        }
        if !stream.id.can_recv(self.is_server) {
            return Err(Error::InvalidStreamId);
        }
        // Ignore a post-terminal frame on a retired peer-initiated stream before
        // consuming connection credit; otherwise a flood of duplicate/late frames
        // would drain conn flow-control that's never replenished.
        if self.is_retired(&stream.id) {
            return Ok(Event::Nothing);
        }
        // Connection-level flow control.
        let len: u64 = stream.data.len() as u64;
        if !self.conn_recv_credit.receive(len) {
            assert(self@ =~= before);
            return Err(Error::FlowControlError);
        }
        assert(self@ =~= (SessionView { conn_recv: before.conn_recv.claimed(len), ..before }));
        if self.is_receiving(stream.id.0.into_inner()) {
            return self.recv_known_stream(stream);
        }
        // A frame on one of our own (already-retired) streams: ignore it.
        if self.is_server == stream.id.server_initiated() {
            return Ok(Event::Nothing);
        }
        self.recv_new_stream(stream)
    }

    /// Inbound data for a stream that is there: check its window and deliver.
    fn recv_known_stream(&mut self, stream: Stream) -> (r: Result<Event, Error>)
        requires
            old(self)@.receiving(stream.id@),
        ensures
            match on_known_stream(old(self)@, stream.id@, contents(stream.data), stream.fin) {
                Ok((s, ev)) => final(self)@ == s && (r matches Ok(e) && e@ == ev),
                Err(x) => (r matches Err(e) && e@ == x) && final(self)@ == old(self)@,
            },
    {
        let ghost before = self@;
        let id: u64 = stream.id.0.into_inner();
        let len: u64 = stream.data.len() as u64;
        if let Some(mut state) = self.recv.remove(&id) {
            if !state.recv_credit.receive(len) {
                self.recv.insert(id, state);
                assert(self@.recv =~= before.recv);
                assert(self@ =~= before);
                return Err(Error::FlowControlError);
            }
            if stream.fin {
                state.live = false;
                if state.held {
                    self.recv.insert(id, state);
                }
            } else {
                self.recv.insert(id, state);
            }
            proof {
                let v = RecvView {
                    credit: before.recv[id].credit.claimed(len),
                    ..before.recv[id]
                };
                let m = before.recv.insert(id, v);
                assert(self@.recv =~= if stream.fin {
                    recv_over(m, id)
                } else {
                    m
                });
                assert(self@ =~= (SessionView { recv: self@.recv, ..before }));
            }
        }
        Ok(Event::Deliver(stream))
    }

    /// The first data on a stream of the peer.
    fn recv_new_stream(&mut self, stream: Stream) -> (r: Result<Event, Error>)
        ensures
            match on_new_stream(old(self)@, stream.id@, contents(stream.data), stream.fin) {
                Ok((s, ev)) => final(self)@ == s && (r matches Ok(e) && e@ == ev),
                Err(x) => (r matches Err(e) && e@ == x) && final(self)@ == refused_new_stream(
                    old(self)@,
                    stream.id@,
                ),
            },
    {
        let ghost before = self@;
        let id: u64 = stream.id.0.into_inner();
        let len: u64 = stream.data.len() as u64;
        let dir = stream.id.dir();
        let qmux: bool = self.config.version.is_qmux();

        // Enforce the stream-count limit, and record that we've instantiated a
        // frontend for this id, so a later frame on it (once retired) reads as
        // closed rather than resurrecting a new stream.
        if qmux && !self.open_peer_stream(&stream.id) {
            return Err(Error::StreamLimitExceeded);
        }
        let ghost opened = self@;
        // Determine initial stream recv window
        let recv_window: u64 = if qmux {
            match dir {
                StreamDir::Bi => self.our_params.initial_max_stream_data_bidi_remote,
                StreamDir::Uni => self.our_params.initial_max_stream_data_uni,
            }
        } else {
            u64::MAX
        };
        let mut recv_credit = Credit::new(recv_window);
        // Stream-level flow control for the first frame on the new stream.
        if !recv_credit.receive(len) {
            return Err(Error::FlowControlError);
        }
        if let StreamDir::Bi = dir {
            // Peer opened this bidi stream, so our send limit is their bidi_local
            // (they are local to this stream)
            let stream_credit = if qmux {
                Some(Credit::new(self.peer_params.initial_max_stream_data_bidi_local))
            } else {
                None
            };
            self.send.insert(id, SendState { stream_credit, live: true, held: true });
        }
        self.recv.insert(id, RecvState { recv_credit, live: !stream.fin, held: true });
        proof {
            let v = RecvView {
                credit: CreditView::fresh(before.window_for(id)).claimed(len),
                live: !stream.fin,
                held: true,
            };
            assert(self@.recv =~= before.recv.insert(id, v));
            assert(self@.send =~= if dir is Bi {
                before.send.insert(
                    id,
                    before.new_send(before.peer.initial_max_stream_data_bidi_local),
                )
            } else {
                before.send
            });
            assert(self@ =~= (SessionView { recv: self@.recv, send: self@.send, ..opened }));
        }
        Ok(Event::Accept(stream))
    }

    /// Process an inbound RESET_STREAM.
    fn recv_reset(&mut self, reset: ResetStream) -> (r: Result<Event, Error>)
        ensures
            match on_reset(old(self)@, reset.id@, reset.code@, reset.final_size) {
                Ok((s, ev)) => final(self)@ == s && (r matches Ok(e) && e@ == ev),
                Err(x) => (r matches Err(e) && e@ == x) && final(self)@ == old(self)@,
            },
    {
        if !reset.id.can_recv(self.is_server) {
            return Err(Error::InvalidStreamId);
        }
        // Live stream: deliver the reset and drop it (it was recorded as opened at
        // creation, so it now reads as closed).
        let id: u64 = reset.id.0.into_inner();
        if self.is_receiving(id) {
            self.retire_recv(id);
            return Ok(Event::Reset(reset));
        }
        // RESET_STREAM can be the *first* frame for a peer-initiated stream (it
        // implicitly opens the id). Record it as closed so a later STREAM on the
        // same id is recognized as retired. Gate on the stream limit first
        // (mirroring the STREAM path) so the hole set stays bounded.
        if self.config.version.is_qmux() && reset.id.server_initiated() != self.is_server {
            if !self.open_peer_stream(&reset.id) {
                return Err(Error::StreamLimitExceeded);
            }
        }
        Ok(Event::Nothing)
    }

    /// Process an inbound frame that raises a limit, or only informs.
    fn recv_limit(&mut self, frame: Frame) -> (r: Result<Event, Error>)
        ensures
            match on_limit(old(self)@, frame@) {
                Ok((s, ev)) => final(self)@ == s && (r matches Ok(e) && e@ == ev),
                Err(x) => (r matches Err(e) && e@ == x) && final(self)@ == old(self)@,
            },
    {
        let ghost before = self@;
        match frame {
            Frame::MaxData(max) => {
                if let Err(e) = self.conn_send_credit.increase_max(max) {
                    assert(self@ =~= before);
                    return Err(e);
                }
                assert(self@ =~= (SessionView {
                    conn_send: before.conn_send.with_max(max),
                    ..before
                }));
            },
            Frame::MaxStreamsBidi(max) => {
                if let Err(e) = self.open_bi_credit.increase_max(max) {
                    assert(self@ =~= before);
                    return Err(e);
                }
                assert(self@ =~= (SessionView { open_bi: before.open_bi.with_max(max), ..before }));
            },
            Frame::MaxStreamsUni(max) => {
                if let Err(e) = self.open_uni_credit.increase_max(max) {
                    assert(self@ =~= before);
                    return Err(e);
                }
                assert(self@ =~= (SessionView {
                    open_uni: before.open_uni.with_max(max),
                    ..before
                }));
            },
            Frame::MaxStreamData { id, max } => {
                let id: u64 = id.0.into_inner();
                if self.is_sending(id) {
                    self.raise_stream_limit(id, max)?;
                }
            },
            _ => {},
        }
        Ok(Event::Nothing)
    }

    /// Raise the limit of a stream that is sent on.
    fn raise_stream_limit(&mut self, id: u64, max: u64) -> (r: Result<(), Error>)
        requires
            old(self)@.sending(id),
        ensures
            match old(self)@.send[id].credit {
                Some(credit) => if max < credit.max {
                    &&& r matches Err(e)
                    &&& e is FlowControlError
                    &&& final(self)@ == old(self)@
                } else {
                    &&& r is Ok
                    &&& final(self)@ == (SessionView {
                        send: old(self)@.send.insert(
                            id,
                            SendView {
                                credit: Some(credit.with_max(max)),
                                ..old(self)@.send[id]
                            },
                        ),
                        ..old(self)@
                    })
                },
                None => r is Ok && final(self)@ == old(self)@,
            },
    {
        let ghost before = self@;
        if let Some(mut state) = self.send.remove(&id) {
            let mut result: Result<(), Error> = Ok(());
            if let Some(mut credit) = state.stream_credit {
                result = credit.increase_max(max);
                state.stream_credit = Some(credit);
            }
            self.send.insert(id, state);
            if let Err(e) = result {
                assert(self@.send =~= before.send);
                assert(self@ =~= before);
                return Err(e);
            }
            proof {
                let v = match before.send[id].credit {
                    Some(credit) => SendView {
                        credit: Some(credit.with_max(max)),
                        ..before.send[id]
                    },
                    None => before.send[id],
                };
                assert(self@.send =~= before.send.insert(id, v));
                assert(before.send[id].credit is None ==> self@.send =~= before.send);
                assert(self@ =~= (SessionView { send: self@.send, ..before }));
            }
        }
        Ok(())
    }

    /// The identifiers of the streams that are sent on.
    fn send_ids(&self) -> (r: Vec<u64>)
        ensures
            r@.no_duplicates(),
            forall|id: u64| #[trigger] r@.contains(id) <==> self.send@.contains_key(id),
    {
        let mut out: Vec<u64> = Vec::new();
        for k in it: self.send.keys()
            invariant
                out@.len() == it.index(),
                it.seq().no_duplicates(),
                it.seq().unref().to_set() == self.send@.dom(),
                forall|j: int| 0 <= j < out@.len() ==> out@[j] == *it.seq()[j],
        {
            out.push(*k);
        }
        proof {
            let keys = self.send.keys().remaining();
            assert(out@ =~= keys.unref());
            assert(out@.to_set() == self.send@.dom());
            assert forall|id: u64| #[trigger] out@.contains(id) <==> self.send@.contains_key(
                id,
            ) by {
                assert(out@.to_set().contains(id) <==> out@.contains(id));
            }
        }
        out
    }

    /// Credit one stream with the peer's initial limit on it.
    fn credit_stream(&mut self, id: u64, window: u64)
        requires
            old(self).send@.contains_key(id),
        ensures
            final(self)@ == (SessionView {
                send: old(self)@.send.insert(id, credited_send(old(self)@.send[id], window)),
                ..old(self)@
            }),
            final(self).send@.dom() == old(self).send@.dom(),
    {
        let ghost before = self@;
        let ghost dom = self.send@.dom();
        if let Some(mut state) = self.send.remove(&id) {
            if state.live {
                if let Some(mut credit) = state.stream_credit {
                    let _ = credit.increase_max(window);
                    state.stream_credit = Some(credit);
                }
            }
            self.send.insert(id, state);
        }
        proof {
            assert(self@.send =~= before.send.insert(id, credited_send(before.send[id], window)));
            assert(self@ =~= (SessionView { send: self@.send, ..before }));
            assert(self.send@.dom() =~= dom);
        }
    }

    /// Credit the streams that are open with the peer's initial limits.
    fn credit_streams(&mut self)
        ensures
            final(self)@ == (SessionView { send: credited(old(self)@), ..old(self)@ }),
    {
        let ghost before = self@;
        let ids = self.send_ids();
        let mut i: usize = 0;
        while i < ids.len()
            invariant
                i <= ids@.len(),
                ids@.no_duplicates(),
                forall|id: u64| #[trigger] ids@.contains(id) <==> self.send@.contains_key(id),
                before.send.dom() == self.send@.dom(),
                self@ == (SessionView { send: self@.send, ..before }),
                forall|id: u64| #[trigger]
                    before.send.contains_key(id) ==> self@.send[id] == (if ids@.take(
                        i as int,
                    ).contains(id) {
                        credited_send(before.send[id], before.send_window_for(id))
                    } else {
                        before.send[id]
                    }),
            decreases ids@.len() - i,
        {
            let raw: u64 = ids[i];
            assert(ids@.contains(raw));
            // The peer's limits are named from its point of view.
            let uni: bool = raw / 2 % 2 == 1;
            let ours: bool = (raw % 2 == 1) == self.is_server;
            let window: u64 = if uni {
                self.peer_params.initial_max_stream_data_uni
            } else if ours {
                self.peer_params.initial_max_stream_data_bidi_remote
            } else {
                self.peer_params.initial_max_stream_data_bidi_local
            };
            assert(window == before.send_window_for(raw));
            proof {
                assert(!ids@.take(i as int).contains(raw)) by {
                    if ids@.take(i as int).contains(raw) {
                        let k = ids@.take(i as int).index_of(raw);
                        assert(ids@[k] == ids@[i as int]);
                    }
                }
                assert(before.send.contains_key(raw));
                assert(ids@.take(i + 1) =~= ids@.take(i as int).push(raw));
            }
            let ghost prev = self@.send;
            self.credit_stream(raw, window);
            proof {
                assert forall|id: u64| #[trigger] before.send.contains_key(id) implies self@.send[id]
                    == (if ids@.take(i + 1).contains(id) {
                    credited_send(before.send[id], before.send_window_for(id))
                } else {
                    before.send[id]
                }) by {
                    let t = ids@.take(i as int);
                    if id == raw {
                        assert(t.push(raw)[t.len() as int] == raw);
                    } else {
                        assert(self@.send[id] == prev[id]);
                        assert(t.push(raw).contains(id) <==> t.contains(id)) by {
                            if t.contains(id) {
                                let k = t.index_of(id);
                                assert(t.push(raw)[k] == id);
                            }
                            if t.push(raw).contains(id) {
                                let k = t.push(raw).index_of(id);
                                assert(t[k] == id);
                            }
                        }
                    }
                }
            }
            i += 1;
        }
        proof {
            assert(ids@.take(i as int) =~= ids@);
            assert(self@.send =~= credited(before));
        }
    }

    /// Apply the peer's transport parameters.
    pub fn recv_transport_parameters(&mut self, params: TransportParams) -> (r: Result<
        Event,
        Error,
    >)
        ensures
            match on_params(old(self)@, params@) {
                Ok((s, ev)) => final(self)@ == s && (r matches Ok(e) && e@ == ev),
                Err(x) => (r matches Err(e) && e@ == x) && final(self)@ == refused_params(
                    old(self)@,
                ),
            },
            old(self)@.params_received ==> final(self)@ == old(self)@,
    {
        let ghost before = self@;
        if self.params_received {
            // Duplicate transport parameters
            assert(self@ =~= refused_params(before));
            return Err(Error::FlowControlError);
        }
        self.params_received = true;
        // Resolve / validate the application protocol now the peer's offer is known.
        match &self.config.protocol {
            // In-band negotiation: pick the agreed protocol (server preference
            // wins, matching RFC 7301).
            Protocol::Negotiate(ours) => {
                self.negotiated = Some(
                    negotiate_protocol(
                        self.is_server,
                        ours.as_slice(),
                        params.protocols.as_slice(),
                    ),
                );
            },
            // Not negotiating in-band: the peer MUST NOT send the parameter.
            Protocol::NoProtocol | Protocol::Negotiated(_) => {
                if params.protocols.len() != 0 {
                    assert(self@ =~= refused_params(before));
                    return Err(Error::UnexpectedProtocols);
                }
            },
        }
        // Set connection-level send credit and stream count limits
        let _ = self.conn_send_credit.increase_max(params.initial_max_data);
        let _ = self.open_bi_credit.increase_max(params.initial_max_streams_bidi);
        let _ = self.open_uni_credit.increase_max(params.initial_max_streams_uni);
        if self.config.version == Version::QMux01 {
            self.record_limit = params.max_record_size;
            self.idle_timeout_ms = negotiated_idle_timeout_ms(
                self.our_params.max_idle_timeout,
                params.max_idle_timeout,
            );
            // Datagrams rely on the record layer for framing. Whether we may
            // *send* depends solely on the peer's willingness to receive.
            self.datagram_max_size = datagram_payload_limit(&params);
        } else {
            self.idle_timeout_ms = 0;
            self.datagram_max_size = 0;
        }
        self.peer_params = params;
        self.established = true;
        // Credit the streams we've already opened. One that is opened later reads
        // the limits we just stored and credits itself.
        let ghost mid = self@;
        self.credit_streams();
        proof {
            let s1 = SessionView { peer: params@, ..before };
            assert(credited(mid) =~= credited(s1));
            assert(self@ =~= (on_params(before, params@)->Ok_0).0);
        }
        Ok(Event::Established)
    }

    /// Process one inbound frame. An error ends the session, and what was refused
    /// does not count but for what [`after_refusal`] says.
    pub fn recv_frame(&mut self, frame: Frame) -> (r: Result<Event, Error>)
        ensures
            match on_frame(old(self)@, frame@) {
                Ok((s, ev)) => final(self)@ == s && (r matches Ok(e) && e@ == ev),
                Err(x) => (r matches Err(e) && e@ == x) && final(self)@ == after_refusal(
                    old(self)@,
                    frame@,
                ),
            },
    {
        let ghost before = self@;
        match frame {
            Frame::TransportParameters(params) => self.recv_transport_parameters(params),
            Frame::Stream(stream) => self.recv_stream(stream),
            Frame::ResetStream(reset) => self.recv_reset(reset),
            Frame::StopSending(stop) => {
                if !stop.id.can_send(self.is_server) {
                    return Err(Error::InvalidStreamId);
                }
                if self.is_sending(stop.id.0.into_inner()) {
                    Ok(Event::Stop(stop))
                } else {
                    Ok(Event::Nothing)
                }
            },
            Frame::ConnectionClose(close) => {
                self.closed = Some(
                    Error::ConnectionClosed { code: close.code, reason: close.reason },
                );
                assert(self@ =~= (on_frame(before, frame@)->Ok_0).0);
                Ok(Event::Close)
            },
            // QX_PING: respond to requests, ignore responses
            Frame::Ping(ping) => {
                if ping.response {
                    Ok(Event::Nothing)
                } else {
                    Ok(
                        Event::Respond(
                            Frame::Ping(Ping { sequence: ping.sequence, response: true }),
                        ),
                    )
                }
            },
            // DATAGRAM: `max_datagram_frame_size` caps the whole *frame*, so
            // compare against the frame's exact encoded size, which depends on the
            // wire form. A datagram that was never negotiated, or one that
            // overflows the limit, is a protocol violation.
            Frame::Datagram(datagram) => {
                if self.our_params.max_datagram_frame_size == 0 {
                    return Err(Error::DatagramsUnsupported);
                }
                if datagram.frame_size() > self.our_params.max_datagram_frame_size {
                    return Err(Error::FrameTooLarge);
                }
                Ok(Event::Datagram(datagram.data))
            },
            other => self.recv_limit(other),
        }
    }

    /// Open a stream of ours and register it, so that it exists before a frame can
    /// be sent on it. `None` means to wait until the peer allows one more.
    fn open(&mut self, dir: StreamDir) -> (r: Result<Option<StreamId>, Error>)
        ensures
            match on_open(old(self)@, dir) {
                Ok(Some((s, id))) => {
                    &&& r matches Ok(Some(x))
                    &&& x@ == id
                    &&& final(self)@ == s
                },
                Ok(None) => r matches Ok(None) && final(self)@ == old(self)@,
                Err(x) => r matches Err(e) && e@ == x && final(self)@ == old(self)@,
            },
    {
        let ghost before = self@;
        let credit = match dir {
            StreamDir::Bi => &self.open_bi_credit,
            StreamDir::Uni => &self.open_uni_credit,
        };
        if !credit.is_closed() && credit.available() > 0 && credit.used() > STREAM_INDEX_MAX {
            // No identifier is left for it.
            return Err(Error::StreamLimitExceeded);
        }
        let claimed = match dir {
            StreamDir::Bi => self.open_bi_credit.claim_index(),
            StreamDir::Uni => self.open_uni_credit.claim_index(),
        };
        let index: u64 = match claimed {
            Ok(Some(index)) => index,
            Ok(None) => {
                assert(self@ =~= before);
                return Ok(None);
            },
            Err(e) => {
                assert(self@ =~= before);
                return Err(e);
            },
        };
        let id = StreamId::new(index, dir, self.is_server);
        let raw: u64 = id.0.into_inner();
        proof {
            lemma_id_parts(index, dir, self.is_server);
        }
        let qmux: bool = self.config.version.is_qmux();
        let window: u64 = match dir {
            StreamDir::Uni => self.peer_params.initial_max_stream_data_uni,
            StreamDir::Bi => self.peer_params.initial_max_stream_data_bidi_remote,
        };
        let stream_credit = if qmux {
            // Zero until the peer's params arrive, and then credited by them.
            let mut credit = Credit::new(0);
            let _ = credit.increase_max(window);
            Some(credit)
        } else {
            None
        };
        self.send.insert(raw, SendState { stream_credit, live: true, held: true });
        if let StreamDir::Bi = dir {
            let recv_window: u64 = if qmux {
                self.our_params.initial_max_stream_data_bidi_local
            } else {
                u64::MAX
            };
            let recv_credit = Credit::new(recv_window);
            self.recv.insert(raw, RecvState { recv_credit, live: true, held: true });
        }
        proof {
            let s = stream_opened(before, dir).0;
            assert(self@.send =~= s.send);
            assert(self@.recv =~= s.recv);
            assert(self@ =~= s);
        }
        Ok(Some(id))
    }

    /// Open a unidirectional stream.
    pub fn open_uni(&mut self) -> (r: Result<Option<StreamId>, Error>)
        ensures
            match on_open(old(self)@, StreamDir::Uni) {
                Ok(Some((s, id))) => {
                    &&& r matches Ok(Some(x))
                    &&& x@ == id
                    &&& final(self)@ == s
                },
                Ok(None) => r matches Ok(None) && final(self)@ == old(self)@,
                Err(x) => r matches Err(e) && e@ == x && final(self)@ == old(self)@,
            },
    {
        self.open(StreamDir::Uni)
    }

    /// Open a bidirectional stream.
    pub fn open_bi(&mut self) -> (r: Result<Option<StreamId>, Error>)
        ensures
            match on_open(old(self)@, StreamDir::Bi) {
                Ok(Some((s, id))) => {
                    &&& r matches Ok(Some(x))
                    &&& x@ == id
                    &&& final(self)@ == s
                },
                Ok(None) => r matches Ok(None) && final(self)@ == old(self)@,
                Err(x) => r matches Err(e) && e@ == x && final(self)@ == old(self)@,
            },
    {
        self.open(StreamDir::Bi)
    }

    /// Claim flow control credit for sending up to `desired` bytes on a stream, of
    /// the stream and the connection alike. Returns the number of bytes that may
    /// be sent, or `None` to wait until the peer grants more.
    pub fn claim_credit(&mut self, id: &StreamId, desired: u64) -> (r: Result<Option<u64>, Error>)
        ensures
            match on_claim(old(self)@, id@, desired) {
                Ok(Some((s, n))) => r == Ok::<Option<u64>, Error>(Some(n)) && final(self)@ == s,
                Ok(None) => r == Ok::<Option<u64>, Error>(None) && final(self)@ == old(self)@,
                Err(x) => r matches Err(e) && e@ == x && final(self)@ == old(self)@,
            },
    {
        let ghost before = self@;
        let raw: u64 = id.0.into_inner();
        let mut state = match self.send.remove(&raw) {
            Some(state) => state,
            None => {
                assert(self@.send =~= before.send);
                assert(self@ =~= before);
                return Err(Error::Closed);
            },
        };
        let mut result: Result<Option<u64>, Error> = Ok(Some(desired));
        if let Some(mut stream_credit) = state.stream_credit {
            // Try to claim stream credit, then connection credit for as much.
            let stream_claimed: u64 = stream_credit.try_claim(desired);
            let conn_claimed: u64 = self.conn_send_credit.try_claim(stream_claimed);
            // Return excess stream credit if the connection had less
            stream_credit.release(stream_claimed - conn_claimed);
            if conn_claimed > 0 {
                result = Ok(Some(conn_claimed));
            } else {
                let closed: bool = if stream_claimed == 0 {
                    stream_credit.is_closed()
                } else {
                    self.conn_send_credit.is_closed()
                };
                result = if closed {
                    Err(Error::Closed)
                } else {
                    Ok(None)
                };
            }
            state.stream_credit = Some(stream_credit);
        }
        self.send.insert(raw, state);
        proof {
            match on_claim(before, raw, desired) {
                Ok(Some((s, n))) => {
                    assert(self@.send =~= s.send);
                    assert(self@ =~= s);
                },
                _ => {
                    assert(self@.send =~= before.send);
                    assert(self@ =~= before);
                },
            }
        }
        result
    }

    /// Release previously claimed credit (on send failure).
    pub fn release_credit(&mut self, id: &StreamId, amount: u64)
        ensures
            final(self)@ == on_release(old(self)@, id@, amount),
    {
        let ghost before = self@;
        let raw: u64 = id.0.into_inner();
        if let Some(mut state) = self.send.remove(&raw) {
            if let Some(mut stream_credit) = state.stream_credit {
                stream_credit.release(amount);
                self.conn_send_credit.release(amount);
                state.stream_credit = Some(stream_credit);
            }
            self.send.insert(raw, state);
        }
        proof {
            let s = on_release(before, raw, amount);
            assert(self@.send =~= s.send);
            assert(self@ =~= s);
        }
    }

    /// Report consumed bytes to flow control. Returns the window updates to send,
    /// of the stream and of the connection.
    pub fn report_consumed(&mut self, id: &StreamId, len: u64) -> (r: (
        Option<Frame>,
        Option<Frame>,
    ))
        ensures
            final(self)@ == on_consumed(old(self)@, id@, len),
            view_of(r.0) == stream_update(old(self)@, id@, len),
            view_of(r.1) == conn_update(old(self)@, len),
    {
        let ghost before = self@;
        if !self.config.version.is_qmux() {
            return (None, None);
        }
        let raw: u64 = id.0.into_inner();
        // Per-stream window update
        let mut stream: Option<Frame> = None;
        if let Some(mut state) = self.recv.remove(&raw) {
            if let Some(new_max) = state.recv_credit.consume(len) {
                stream = Some(Frame::MaxStreamData { id: *id, max: new_max });
            }
            self.recv.insert(raw, state);
        }
        // Connection-level window update
        let mut conn: Option<Frame> = None;
        if let Some(new_max) = self.conn_recv_credit.consume(len) {
            conn = Some(Frame::MaxData(new_max));
        }
        proof {
            let s = on_consumed(before, raw, len);
            assert(self@.recv =~= s.recv);
            assert(self@ =~= s);
        }
        (stream, conn)
    }

    /// The application let go of the receiving side of a stream. Returns the limit
    /// update to send where this lets the peer open more streams.
    pub fn drop_recv(&mut self, id: &StreamId) -> (r: Option<Frame>)
        ensures
            final(self)@ == on_recv_dropped(old(self)@, id@),
            view_of(r) == streams_update(old(self)@, id@),
    {
        let ghost before = self@;
        let raw: u64 = id.0.into_inner();
        if let Some(mut state) = self.recv.remove(&raw) {
            if state.live {
                state.held = false;
                self.recv.insert(raw, state);
            }
        }
        let mut update: Option<Frame> = None;
        if self.config.version.is_qmux() && id.server_initiated() != self.is_server {
            match id.dir() {
                StreamDir::Bi => {
                    if let Some(new_max) = self.recv_bi_credit.consume(1) {
                        update = Some(Frame::MaxStreamsBidi(new_max));
                    }
                },
                StreamDir::Uni => {
                    if let Some(new_max) = self.recv_uni_credit.consume(1) {
                        update = Some(Frame::MaxStreamsUni(new_max));
                    }
                },
            }
        }
        proof {
            let s = on_recv_dropped(before, raw);
            assert(self@.recv =~= s.recv);
            assert(self@ =~= s);
        }
        update
    }

    /// The application let go of the sending side of a stream.
    pub fn drop_send(&mut self, id: &StreamId)
        ensures
            final(self)@ == (SessionView {
                send: send_dropped(old(self)@.send, id@),
                ..old(self)@
            }),
    {
        let ghost before = self@;
        let raw: u64 = id.0.into_inner();
        if let Some(mut state) = self.send.remove(&raw) {
            if state.live {
                state.held = false;
                self.send.insert(raw, state);
            }
        }
        proof {
            assert(self@.send =~= send_dropped(before.send, raw));
            assert(self@ =~= (SessionView { send: self@.send, ..before }));
        }
    }

    /// Record why the session is closed, unless that is known already.
    pub fn note_closed(&mut self, err: Error)
        ensures
            final(self)@ == (SessionView {
                closed: match old(self)@.closed {
                    Some(e) => Some(e),
                    None => Some(err@),
                },
                ..old(self)@
            }),
    {
        let ghost before = self@;
        if self.closed.is_none() {
            self.closed = Some(err);
        }
        assert(self@ =~= (SessionView { closed: self@.closed, ..before }));
    }

    /// Close the session from our side: the frame to send. `writing` tells whether
    /// the writer still runs.
    pub fn close(&mut self, code: u32, reason: &str, writing: bool) -> (r: Frame)
        ensures
            final(self)@ == on_close(old(self)@, code as u64, reason@, writing),
            r@ == (FrameView::ConnectionClose { code: code as u64, reason: reason@ }),
    {
        let ghost before = self@;
        if writing || !self.conn_send_credit.is_closed() {
            self.closed = Some(
                Error::ConnectionClosed {
                    code: VarInt::from_u32(code),
                    reason: reason.to_string(),
                },
            );
        }
        assert(self@ =~= (SessionView { closed: self@.closed, ..before }));
        Frame::ConnectionClose(
            ConnectionClose { code: VarInt::from_u32(code), reason: reason.to_string() },
        )
    }

    /// The handshake took too long: the frame that tells the peer.
    pub fn abort_handshake(&mut self) -> (r: Frame)
        ensures
            final(self)@ == (SessionView {
                closed: Some(ErrorView::HandshakeTimeout),
                ..old(self)@
            }),
            r@ == (FrameView::ConnectionClose { code: 0, reason: "handshake timeout"@ }),
    {
        let ghost before = self@;
        self.closed = Some(Error::HandshakeTimeout);
        assert(self@ =~= (SessionView { closed: self@.closed, ..before }));
        Frame::ConnectionClose(
            ConnectionClose {
                code: VarInt::from_u32(0),
                reason: "handshake timeout".to_string(),
            },
        )
    }

    /// End the session: close all credits so that whoever waits for them is let
    /// go, and record the reason.
    pub fn teardown(&mut self, err: Error)
        ensures
            final(self)@ == torn_down(old(self)@, err@),
    {
        let ghost before = self@;
        self.open_bi_credit.close();
        self.open_uni_credit.close();
        self.conn_send_credit.close();
        self.conn_recv_credit.close();
        self.closed = Some(err);
        let ghost mid = self@;
        assert(mid =~= (SessionView { send: before.send, ..torn_down(before, err@) }));
        let ids = self.send_ids();
        let mut i: usize = 0;
        while i < ids.len()
            invariant
                i <= ids@.len(),
                ids@.no_duplicates(),
                forall|id: u64| #[trigger] ids@.contains(id) <==> self.send@.contains_key(id),
                mid.send.dom() == self.send@.dom(),
                self@ == (SessionView { send: self@.send, ..mid }),
                forall|j: int|
                    0 <= j < i ==> self@.send[#[trigger] ids@[j]] == shut_send(
                        mid.send[ids@[j]],
                    ),
                forall|j: int|
                    i <= j < ids@.len() ==> self@.send[#[trigger] ids@[j]] == mid.send[ids@[j]],
            decreases ids@.len() - i,
        {
            let raw: u64 = ids[i];
            assert(ids@.contains(raw));
            let ghost prev = self@.send;
            let ghost dom = self.send@.dom();
            if let Some(mut state) = self.send.remove(&raw) {
                if let Some(mut credit) = state.stream_credit {
                    credit.close();
                    state.stream_credit = Some(credit);
                }
                self.send.insert(raw, state);
            }
            proof {
                assert(self.send@.dom() =~= dom);
                assert(self@.send =~= prev.insert(raw, shut_send(prev[raw])));
                assert(self@ =~= (SessionView { send: self@.send, ..mid }));
            }
            i += 1;
        }
        proof {
            let s = torn_down(before, err@);
            assert forall|id: u64| #[trigger] self@.send.contains_key(id) implies self@.send[id]
                == s.send[id] by {
                assert(ids@.contains(id));
                let k = ids@.index_of(id);
                assert(ids@[k] == id);
            }
            assert(self@.send =~= s.send);
            assert(self@ =~= s);
        }
    }

    /// The version spoken.
    pub fn version(&self) -> (r: Version)
        ensures
            r == self@.version,
    {
        self.config.version
    }

    /// Whether the peer's transport parameters have been received and applied (or
    /// the version has none).
    pub fn is_established(&self) -> (r: bool)
        ensures
            r == self@.established,
    {
        self.established
    }

    /// The agreed application protocol. `None` where there is none, or in-band
    /// negotiation is still pending.
    pub fn protocol(&self) -> (r: Option<&str>)
        ensures
            match self@.negotiated {
                Some(Some(name)) => r matches Some(p) && p@ == name,
                _ => r is None,
            },
    {
        match &self.negotiated {
            Some(Some(name)) => Some(name.as_str()),
            _ => None,
        }
    }

    /// The largest datagram payload that may be sent.
    pub fn max_datagram_size(&self) -> (r: usize)
        ensures
            r == self@.datagram_max_size,
    {
        self.datagram_max_size
    }

    /// The idle timeout that paces the keep-alive pings (0 = none).
    pub fn idle_timeout_ms(&self) -> (r: u64)
        ensures
            r == self@.idle_timeout_ms,
    {
        self.idle_timeout_ms
    }

    /// The largest record that may be sent.
    pub fn record_limit(&self) -> (r: u64)
        ensures
            r == self@.record_limit,
    {
        self.record_limit
    }

    /// Why the session is closed, if it is.
    pub fn close_reason(&self) -> (r: Option<Error>)
        ensures
            error_view(r) == self@.closed,
    {
        match &self.closed {
            Some(e) => Some(e.clone()),
            None => None,
        }
    }

    /// Whether a datagram with this payload may be sent.
    pub fn check_datagram(&self, payload: &Bytes) -> (r: Result<(), Error>)
        ensures
            if self@.datagram_max_size == 0 {
                r matches Err(e) && e is DatagramsUnsupported
            } else if contents(*payload).len() > self@.datagram_max_size {
                r matches Err(e) && e is FrameTooLarge
            } else {
                r is Ok
            },
    {
        if self.datagram_max_size == 0 {
            // The peer never advertised max_datagram_frame_size (or zeroed it).
            return Err(Error::DatagramsUnsupported);
        }
        if payload.len() > self.datagram_max_size {
            return Err(Error::FrameTooLarge);
        }
        Ok(())
    }

}

} // verus!
