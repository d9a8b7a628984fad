//! What waits to be sent, and in which order it goes out.

use std::collections::VecDeque;

use bytes::Bytes;
use vstd::prelude::*;

use super::model::{SessionView, on_close, recv_over, send_over};
use super::state::SessionState;
use crate::buffer::contents;
use crate::qmux::error::{Error, ErrorView};
use crate::qmux::proto::frame::{Datagram, Frame, FrameView, Ping, qmux_encoding, wt_encoding};
use crate::qmux::proto::version::Version;
use crate::qmux::sched::{Popped, PriorityQueue, QueueView, next_lane, popped};

verus! {

/// How many outbound datagrams to buffer before dropping. Kept small so shedding
/// tracks real backpressure closely rather than after a deep buffer of stale
/// datagrams.
pub const DATAGRAM_SEND_BUFFER: usize = 64;

/// How many inbound datagrams to buffer before dropping. Datagrams are
/// unreliable, so a slow consumer sheds load here rather than applying
/// backpressure to the whole session.
pub const DATAGRAM_RECV_BUFFER: usize = 1024;

/// How many streams of the peer may wait to be accepted.
pub const ACCEPT_BUFFER: usize = 1024;

/// Whether so many streams wait to be accepted that the session reads no further
/// until one is.
pub fn accept_blocked(waiting: usize) -> (r: bool)
    ensures
        r == (waiting > ACCEPT_BUFFER),
{
    waiting > ACCEPT_BUFFER
}

/// How many stream frames wait before a writer has to.
pub const STREAM_SEND_BUFFER: usize = 8;

/// A payload or frame that waits to be sent.
pub enum Next {
    /// The next frame.
    Frame(Frame),
    /// Nothing waits.
    Empty,
    /// The stream queue was closed, and nothing else waits.
    Closed,
}

/// A [`Next`] over plain values.
pub enum NextView {
    Frame(FrameView),
    Empty,
    Closed,
}

impl View for Next {
    type V = NextView;

    open spec fn view(&self) -> NextView {
        match self {
            Next::Frame(f) => NextView::Frame(f@),
            Next::Empty => NextView::Empty,
            Next::Closed => NextView::Closed,
        }
    }
}

/// What waits to be sent: control frames, which are never lost; datagrams, which
/// are dropped rather than queued without bound; and stream data.
pub struct Outbound {
    /// The control frames.
    pub control: VecDeque<Frame>,
    /// The payloads of datagrams.
    pub datagrams: VecDeque<Bytes>,
    /// Whether the writer stopped: nobody takes what waits any more.
    pub stopped: bool,
    /// The stream data, by the priority of its stream.
    pub streams: PriorityQueue,
}

/// An [`Outbound`] over plain values.
pub struct OutboundView {
    /// The control frames that wait, in order.
    pub control: Seq<FrameView>,
    /// The datagrams that wait, in order.
    pub datagrams: Seq<Seq<u8>>,
    /// Whether the writer stopped: nobody takes what waits any more.
    pub stopped: bool,
    /// The stream data that waits.
    pub streams: QueueView,
}

impl View for Outbound {
    type V = OutboundView;

    open spec fn view(&self) -> OutboundView {
        OutboundView {
            control: self.control@.map_values(|f: Frame| f@),
            datagrams: self.datagrams@.map_values(|b: Bytes| contents(b)),
            stopped: self.stopped,
            streams: self.streams@,
        }
    }
}

/// The datagrams that wait after one more was handed in: it is dropped where too
/// many wait already.
pub open spec fn shed(datagrams: Seq<Seq<u8>>, payload: Seq<u8>, buffer: usize) -> Seq<Seq<u8>> {
    if datagrams.len() < buffer {
        datagrams.push(payload)
    } else {
        datagrams
    }
}

/// What goes out next, and what waits after that: control frames first, then
/// datagrams, then stream data by the priority of its stream.
pub open spec fn taken(v: OutboundView) -> (OutboundView, NextView) {
    if v.control.len() > 0 {
        (
            OutboundView { control: v.control.drop_first(), ..v },
            NextView::Frame(v.control[0]),
        )
    } else if v.datagrams.len() > 0 {
        (
            OutboundView { datagrams: v.datagrams.drop_first(), ..v },
            NextView::Frame(
                FrameView::Datagram { data: v.datagrams[0], length_prefixed: true },
            ),
        )
    } else if v.streams.closed {
        (v, NextView::Closed)
    } else if v.streams.lanes.len() == 0 {
        (v, NextView::Empty)
    } else {
        let lanes = v.streams.lanes;
        (
            OutboundView { streams: QueueView { lanes: popped(lanes), ..v.streams }, ..v },
            NextView::Frame(lanes[next_lane(lanes)].frames[0]),
        )
    }
}

impl Outbound {
    /// Nothing waits yet.
    pub fn new() -> (r: Outbound)
        ensures
            r@ == (OutboundView {
                control: Seq::empty(),
                datagrams: Seq::empty(),
                stopped: false,
                streams: QueueView {
                    lanes: Seq::empty(),
                    capacity: STREAM_SEND_BUFFER as nat,
                    closed: false,
                },
            }),
    {
        let r = Outbound {
            control: VecDeque::new(),
            datagrams: VecDeque::new(),
            stopped: false,
            streams: PriorityQueue::new(STREAM_SEND_BUFFER),
        };
        assert(r@.control =~= Seq::empty());
        assert(r@.datagrams =~= Seq::empty());
        r
    }

    /// Queue a control frame.
    pub fn send_control(&mut self, frame: Frame)
        ensures
            final(self)@ == (OutboundView {
                control: old(self)@.control.push(frame@),
                ..old(self)@
            }),
    {
        let ghost before = self@;
        self.control.push_back(frame);
        assert(self@.control =~= before.control.push(frame@));
    }

    /// Queue a datagram, or drop it where too many wait already: then the writer
    /// is stalled, and an unreliable datagram is meant to be droppable.
    pub fn send_datagram(&mut self, payload: Bytes) -> (r: Result<(), Error>)
        ensures
            if old(self)@.stopped {
                &&& r matches Err(e)
                &&& e is Closed
                &&& final(self)@ == old(self)@
            } else {
                &&& r is Ok
                &&& final(self)@ == (OutboundView {
                    datagrams: shed(
                        old(self)@.datagrams,
                        contents(payload),
                        DATAGRAM_SEND_BUFFER,
                    ),
                    ..old(self)@
                })
            },
    {
        let ghost before = self@;
        if self.stopped {
            return Err(Error::Closed);
        }
        if self.datagrams.len() < DATAGRAM_SEND_BUFFER {
            self.datagrams.push_back(payload);
            assert(self@.datagrams =~= before.datagrams.push(contents(payload)));
        }
        Ok(())
    }

    /// The writer stopped, and with it whoever takes datagrams and waits for the
    /// session to be closed.
    pub fn stop(&mut self)
        ensures
            final(self)@ == (OutboundView { stopped: true, ..old(self)@ }),
    {
        self.stopped = true;
    }

    /// Pick the next outbound frame in strict priority order: control (lossless,
    /// e.g. RESET/STOP/CLOSE/window updates) first, then datagrams (low-latency
    /// but droppable), then bulk stream data by the priority of its stream.
    pub fn next_outbound(&mut self) -> (r: Next)
        ensures
            (final(self)@, r@) == taken(old(self)@),
    {
        let ghost before = self@;
        if let Some(frame) = self.control.pop_front() {
            assert(self@.control =~= before.control.drop_first());
            return Next::Frame(frame);
        }
        assert(self@.control =~= before.control);
        if let Some(payload) = self.datagrams.pop_front() {
            assert(self@.datagrams =~= before.datagrams.drop_first());
            // The length-prefixed form, which we always emit.
            let datagram = Datagram { data: payload, length_prefixed: true };
            return Next::Frame(Frame::Datagram(datagram));
        }
        assert(self@.datagrams =~= before.datagrams);
        match self.streams.pop() {
            Popped::Frame(frame) => Next::Frame(frame),
            Popped::Empty => Next::Empty,
            Popped::Closed => Next::Closed,
        }
    }
}

/// Send a datagram on a session. One that the peer would not take is refused, and
/// one that finds no room is dropped without an error.
pub fn send_datagram(session: &SessionState, out: &mut Outbound, payload: Bytes) -> (r: Result<
    (),
    Error,
>)
    ensures
        if session@.datagram_max_size == 0 {
            &&& r matches Err(e)
            &&& e is DatagramsUnsupported
            &&& final(out)@ == old(out)@
        } else if contents(payload).len() > session@.datagram_max_size {
            &&& r matches Err(e)
            &&& e is FrameTooLarge
            &&& final(out)@ == old(out)@
        } else if old(out)@.stopped {
            &&& r matches Err(e)
            &&& e is Closed
            &&& final(out)@ == old(out)@
        } else {
            &&& r is Ok
            &&& final(out)@ == (OutboundView {
                datagrams: shed(old(out)@.datagrams, contents(payload), DATAGRAM_SEND_BUFFER),
                ..old(out)@
            })
        },
{
    session.check_datagram(&payload)?;
    out.send_datagram(payload)
}

/// Close a session from our side, and queue the frame that tells the peer. The
/// reason that is reported is this one, unless the session ended before: once it
/// was torn down and its writer stopped, the reason of that stays.
pub fn close(session: &mut SessionState, out: &mut Outbound, code: u32, reason: &str)
    ensures
        final(session)@ == on_close(old(session)@, code as u64, reason@, !old(out)@.stopped),
        final(out)@ == (OutboundView {
            control: old(out)@.control.push(
                FrameView::ConnectionClose { code: code as u64, reason: reason@ },
            ),
            ..old(out)@
        }),
{
    let frame = session.close(code, reason, !out.stopped);
    out.send_control(frame);
}

/// The datagrams of the peer that wait to be received.
pub struct InboundDatagrams {
    waiting: VecDeque<Bytes>,
}

impl InboundDatagrams {
    /// The payloads that wait, in order.
    pub closed spec fn waiting(&self) -> Seq<Seq<u8>> {
        self.waiting@.map_values(|b: Bytes| contents(b))
    }

    /// None has arrived.
    pub fn new() -> (r: InboundDatagrams)
        ensures
            r.waiting() == Seq::<Seq<u8>>::empty(),
    {
        let r = InboundDatagrams { waiting: VecDeque::new() };
        assert(r.waiting() =~= Seq::empty());
        r
    }

    /// One arrived. It is dropped where too many wait already, rather than holding
    /// up the session.
    pub fn deliver(&mut self, payload: Bytes)
        ensures
            final(self).waiting() == shed(
                old(self).waiting(),
                contents(payload),
                DATAGRAM_RECV_BUFFER,
            ),
    {
        let ghost before = self.waiting();
        if self.waiting.len() < DATAGRAM_RECV_BUFFER {
            self.waiting.push_back(payload);
            assert(self.waiting() =~= before.push(contents(payload)));
        }
    }

    /// Take the first that waits.
    pub fn receive(&mut self) -> (r: Option<Bytes>)
        ensures
            if old(self).waiting().len() > 0 {
                &&& r matches Some(b)
                &&& contents(b) == old(self).waiting()[0]
                &&& final(self).waiting() == old(self).waiting().drop_first()
            } else {
                r is None && final(self).waiting() == old(self).waiting()
            },
    {
        let ghost before = self.waiting();
        let first = self.waiting.pop_front();
        assert(before.len() > 0 ==> self.waiting() =~= before.drop_first());
        assert(before.len() == 0 ==> self.waiting() =~= before);
        first
    }
}

/// A session once a frame was handed to the transport: what closes a side of a
/// stream retires it.
pub open spec fn retiring(s: SessionView, f: FrameView) -> SessionView {
    match f {
        FrameView::ResetStream { id, .. } => SessionView { send: send_over(s.send, id), ..s },
        FrameView::Stream { id, fin: true, .. } => SessionView {
            send: send_over(s.send, id),
            ..s
        },
        FrameView::StopSending { id, .. } => SessionView { recv: recv_over(s.recv, id), ..s },
        _ => s,
    }
}

/// The bytes of a frame in a version.
pub open spec fn wire_bytes(f: FrameView, version: Version) -> Seq<u8> {
    if version is WebTransport {
        wt_encoding(f)
    } else {
        qmux_encoding(f)
    }
}

/// The decisions of the side that writes: it is the sole producer on the wire.
pub struct WriterState {
    next_ping_seq: u64,
}

impl WriterState {
    /// The sequence number of the next ping.
    pub closed spec fn next_seq(&self) -> u64 {
        self.next_ping_seq
    }

    /// No ping was sent yet.
    pub fn new() -> (r: WriterState)
        ensures
            r.next_seq() == 0,
    {
        WriterState { next_ping_seq: 0 }
    }

    /// After how many milliseconds of silence to send a ping: a third of the idle
    /// timeout. Without one there are none.
    pub fn ping_after_ms(idle_ms: u64) -> (r: Option<u64>)
        ensures
            r == if idle_ms == 0 {
                None::<u64>
            } else if idle_ms < 3 {
                Some(1u64)
            } else {
                Some(idle_ms / 3)
            },
    {
        if idle_ms == 0 {
            None
        } else {
            // Clamp to 1ms so a tiny timeout doesn't yield a zero-duration deadline.
            let third: u64 = idle_ms / 3;
            Some(
                if third == 0 {
                    1
                } else {
                    third
                },
            )
        }
    }

    /// The next keep-alive ping.
    pub fn ping(&mut self) -> (r: Frame)
        ensures
            r@ == (FrameView::Ping { sequence: old(self).next_seq(), response: false }),
            final(self).next_seq() == if old(self).next_seq() == u64::MAX {
                0
            } else {
                (old(self).next_seq() + 1) as u64
            },
    {
        let sequence: u64 = self.next_ping_seq;
        self.next_ping_seq = self.next_ping_seq.wrapping_add(1);
        Frame::Ping(Ping { sequence, response: false })
    }
}

/// Whether `r` is what handing frame `f` to the transport of session `s` gives:
/// its bytes, or why it cannot be sent. A draft-01 frame has to fit in a record.
pub open spec fn transmitted(s: SessionView, f: FrameView, r: Result<Bytes, Error>) -> bool {
    match r {
        Ok(b) => {
            &&& f.supported(s.version)
            &&& contents(b) == wire_bytes(f, s.version)
            &&& s.version.qmux() ==> f.encodable()
            &&& s.version is QMux01 ==> contents(b).len() <= s.record_limit
        },
        Err(e) => if !f.supported(s.version) {
            e@ == ErrorView::InvalidFrameType(0)
        } else if !f.encodable() {
            s.version.qmux() && e is FlowControlError
        } else {
            &&& s.version is QMux01
            &&& wire_bytes(f, s.version).len() > s.record_limit
            &&& e is FrameTooLarge
        },
    }
}

/// Retire the stream a terminal frame closes and encode the frame, validating its
/// size for QMux01. Returns the bytes to write.
pub fn transmit(session: &mut SessionState, frame: &Frame) -> (r: Result<Bytes, Error>)
    ensures
        final(session)@ == retiring(old(session)@, frame@),
        transmitted(old(session)@, frame@, r),
{
    match frame {
        Frame::ResetStream(reset) => {
            session.retire_send(reset.id.0.into_inner());
        },
        Frame::Stream(stream) => {
            if stream.fin {
                session.retire_send(stream.id.0.into_inner());
            }
        },
        Frame::StopSending(stop) => {
            session.retire_recv(stop.id.0.into_inner());
        },
        _ => {},
    }
    let version = session.version();
    let bytes = frame.encode(version)?;
    if version == Version::QMux01 {
        // The draft-01 default until the peer's params arrive, then the peer's
        // `max_record_size`.
        if bytes.len() as u64 > session.record_limit() {
            return Err(Error::FrameTooLarge);
        }
    }
    Ok(bytes)
}

/// What the side that writes does next.
pub enum WriteTask {
    /// Write these bytes.
    Send(Bytes),
    /// End the session: what is next cannot be sent.
    Fail(Error),
    /// Wait until something changes.
    Wait,
    /// Stop writing.
    Stop,
}

/// Decide what to write next. A session that was closed still sends what waits,
/// and then stops; a torn-down one does not send stream data any more.
pub fn write_step(session: &mut SessionState, out: &mut Outbound) -> (r: WriteTask)
    ensures
        final(out)@ == taken(old(out)@).0,
        match taken(old(out)@).1 {
            NextView::Frame(f) => {
                &&& final(session)@ == retiring(old(session)@, f)
                &&& match r {
                    WriteTask::Send(b) => transmitted(old(session)@, f, Ok(b)),
                    WriteTask::Fail(e) => transmitted(old(session)@, f, Err(e)),
                    _ => false,
                }
            },
            NextView::Closed => r is Stop && final(session)@ == old(session)@,
            NextView::Empty => {
                &&& final(session)@ == old(session)@
                &&& if old(session)@.closed is Some {
                    r is Stop
                } else {
                    r is Wait
                }
            },
        },
{
    match out.next_outbound() {
        Next::Frame(frame) => match transmit(session, &frame) {
            Ok(bytes) => WriteTask::Send(bytes),
            Err(e) => WriteTask::Fail(e),
        },
        Next::Closed => WriteTask::Stop,
        Next::Empty => {
            if session.close_reason().is_some() {
                WriteTask::Stop
            } else {
                WriteTask::Wait
            }
        },
    }
}

/// Law: control frames go out before everything else, in their order, and
/// datagrams before stream data.
pub proof fn lemma_control_goes_first(v: OutboundView)
    ensures
        v.control.len() > 0 ==> taken(v).1 == NextView::Frame(v.control[0])
            && taken(v).0.control == v.control.drop_first(),
        taken(v).0.streams != v.streams ==> v.control.len() == 0 && v.datagrams.len() == 0,
        taken(v).1 is Empty || taken(v).1 is Closed ==> v.control.len() == 0 && v.datagrams.len()
            == 0 && taken(v).0 == v,
{
}

} // verus!
