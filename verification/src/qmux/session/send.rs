//! The send half of a multiplexed stream.

use bytes::Bytes;
use vstd::prelude::*;

use super::laws::{data_in, sent_data};
use super::model::{SessionView, on_claim, on_release};
use super::state::{SessionState, error_view};
use crate::buffer::contents;
use crate::qmux::credit::{min, saturating_sum};
use crate::qmux::error::{Error, ErrorView};
use crate::qmux::proto::MAX_FRAME_PAYLOAD;
use crate::qmux::proto::frame::{Frame, FrameView, ResetStream, Stream, view_of};
use crate::qmux::proto::varint::VarInt;
use crate::qmux::sched::{
    LaneView, PriorityQueue, QueueView, lanes_wf, lemma_push_keeps_order, pushed, queued,
    reprioritized, total,
};
use crate::qmux::stream::StreamId;

verus! {

/// The send half of a multiplexed stream.
pub struct SendStream {
    id: StreamId,
    offset: u64,
    /// Scheduling priority (higher = sent first). Goes with every frame, and to
    /// the queue when it changes.
    priority: u8,
    closed: Option<Error>,
    fin: bool,
}

/// A [`SendStream`] over plain values.
pub struct SendStreamView {
    pub id: u64,
    /// How much was sent.
    pub offset: u64,
    pub priority: u8,
    /// Why nothing more can be sent, if so.
    pub closed: Option<ErrorView>,
    /// Whether the end was sent.
    pub fin: bool,
}

impl View for SendStream {
    type V = SendStreamView;

    closed spec fn view(&self) -> SendStreamView {
        SendStreamView {
            id: self.id@,
            offset: self.offset,
            priority: self.priority,
            closed: error_view(self.closed),
            fin: self.fin,
        }
    }
}

/// A piece of what is written. It was taken off the buffer and has its credit, and
/// waits for room in the queue.
pub struct Piece {
    data: Bytes,
}

impl View for Piece {
    type V = Seq<u8>;

    closed spec fn view(&self) -> Seq<u8> {
        contents(self.data)
    }
}

/// How far a write got.
pub enum WriteStep {
    /// Nothing is left to write.
    Done,
    /// So many bytes were queued.
    Sent(usize),
    /// The peer has to grant more credit first.
    WaitCredit,
    /// The queue has to drain first: then this piece goes in.
    WaitQueue(Piece),
}

/// The most that the next piece holds.
pub open spec fn piece_limit(buf: Seq<u8>) -> u64 {
    min(buf.len() as u64, MAX_FRAME_PAYLOAD as u64)
}

/// How a write begins.
pub enum WriteOutcome {
    /// Nothing is left to write.
    Done,
    /// The peer has to grant more credit first.
    WaitCredit,
    /// Nothing more can be written.
    Failed(ErrorView),
    /// So many bytes have their credit, which leaves the session like this.
    Claimed { session: SessionView, n: u64 },
}

/// How a write begins: the next piece claims credit of the stream and of the
/// connection.
pub open spec fn write_outcome(
    stream: SendStreamView,
    session: SessionView,
    buf: Seq<u8>,
) -> WriteOutcome {
    if let Some(e) = stream.closed {
        WriteOutcome::Failed(e)
    } else if stream.fin {
        WriteOutcome::Failed(ErrorView::StreamClosed)
    } else if buf.len() == 0 {
        WriteOutcome::Done
    } else {
        match on_claim(session, stream.id, piece_limit(buf)) {
            Err(e) => WriteOutcome::Failed(e),
            Ok(None) => WriteOutcome::WaitCredit,
            Ok(Some((s, n))) => WriteOutcome::Claimed { session: s, n },
        }
    }
}

/// The stream, the session and the queue after a piece with its credit came to the
/// queue: it goes in where there is room, and gives its credit back where the queue
/// is closed.
pub open spec fn with_piece(
    stream: SendStreamView,
    session: SessionView,
    queue: QueueView,
    data: Seq<u8>,
) -> (SendStreamView, SessionView, QueueView) {
    if queue.closed {
        (stream, on_release(session, stream.id, data.len() as u64), queue)
    } else if total(queue.lanes) >= queue.capacity {
        (stream, session, queue)
    } else {
        (
            SendStreamView {
                offset: saturating_sum(stream.offset, data.len() as u64),
                ..stream
            },
            session,
            QueueView {
                lanes: pushed(
                    queue.lanes,
                    stream.priority,
                    stream.id,
                    FrameView::Stream { id: stream.id, data, fin: false },
                ),
                ..queue
            },
        )
    }
}

/// What is reported of a piece that came to the queue.
pub open spec fn piece_result(
    queue: QueueView,
    data: Seq<u8>,
    r: Result<WriteStep, Error>,
) -> bool {
    if queue.closed {
        r matches Err(e) && e is Closed
    } else if total(queue.lanes) >= queue.capacity {
        r matches Ok(WriteStep::WaitQueue(p)) && p@ == data
    } else {
        r matches Ok(WriteStep::Sent(k)) && k == data.len()
    }
}

/// The peer wants no more of a stream: the stream after that, the error to report,
/// and the RESET_STREAM to send. A finished stream has its terminal frame already.
pub open spec fn on_stop(v: SendStreamView, code: u64) -> (
    SendStreamView,
    ErrorView,
    Option<FrameView>,
) {
    match v.closed {
        Some(e) => (v, e, None),
        None => (
            SendStreamView { closed: Some(ErrorView::StreamStop(code)), ..v },
            ErrorView::StreamStop(code),
            if v.fin {
                None
            } else {
                Some(FrameView::ResetStream { id: v.id, code, final_size: v.offset })
            },
        ),
    }
}

impl SendStream {
    /// A stream on which nothing was sent.
    pub fn new(id: StreamId) -> (r: SendStream)
        ensures
            r@ == (SendStreamView {
                id: id@,
                offset: 0,
                priority: 0,
                closed: None,
                fin: false,
            }),
    {
        SendStream { id, offset: 0, priority: 0, closed: None, fin: false }
    }

    /// The identifier.
    pub fn id(&self) -> (r: StreamId)
        ensures
            r@ == self@.id,
    {
        self.id
    }

    /// The peer wants no more: the error to report, and the RESET_STREAM to send.
    pub fn recv_stop(&mut self, code: VarInt) -> (r: (Error, Option<Frame>))
        ensures
            (final(self)@, r.0@, view_of(r.1)) == on_stop(old(self)@, code@),
    {
        if let Some(error) = &self.closed {
            return (error.clone(), None);
        }
        let frame = if self.fin {
            None
        } else {
            Some(
                Frame::ResetStream(
                    ResetStream { id: self.id, code, final_size: self.offset },
                ),
            )
        };
        self.closed = Some(Error::StreamStop(code));
        (Error::StreamStop(code), frame)
    }

    /// The peer wants no more, while a piece waits for the queue: the piece is not
    /// sent, and its credit is released.
    pub fn recv_stop_waiting(
        &mut self,
        session: &mut SessionState,
        piece: Piece,
        code: VarInt,
    ) -> (r: (Error, Option<Frame>))
        ensures
            (final(self)@, r.0@, view_of(r.1)) == on_stop(old(self)@, code@),
            final(session)@ == on_release(old(session)@, old(self)@.id, piece@.len() as u64),
    {
        session.release_credit(&self.id, piece.data.len() as u64);
        self.recv_stop(code)
    }

    /// Take the next piece off `buf`, as far as there is credit for it, and queue it.
    ///
    /// The piece has left `buf` also where it is not queued: where the queue is
    /// full it is handed out to wait, and where the queue is closed it is lost.
    pub fn write_buf(
        &mut self,
        session: &mut SessionState,
        queue: &mut PriorityQueue,
        buf: &mut Bytes,
    ) -> (r: Result<WriteStep, Error>)
        ensures
            match write_outcome(old(self)@, old(session)@, contents(*old(buf))) {
                WriteOutcome::Claimed { session: s, n } => {
                    let data = contents(*old(buf)).take(n as int);
                    &&& 0 < n <= contents(*old(buf)).len()
                    &&& contents(*final(buf)) == contents(*old(buf)).skip(n as int)
                    &&& (final(self)@, final(session)@, final(queue)@) == with_piece(
                        old(self)@,
                        s,
                        old(queue)@,
                        data,
                    )
                    &&& piece_result(old(queue)@, data, r)
                },
                other => {
                    &&& match other {
                        WriteOutcome::Done => r matches Ok(WriteStep::Done),
                        WriteOutcome::WaitCredit => r matches Ok(WriteStep::WaitCredit),
                        WriteOutcome::Failed(e) => r matches Err(x) && x@ == e,
                        WriteOutcome::Claimed { .. } => true,
                    }
                    &&& final(self)@ == old(self)@
                    &&& final(session)@ == old(session)@
                    &&& final(queue)@ == old(queue)@
                    &&& contents(*final(buf)) == contents(*old(buf))
                },
            },
    {
        if let Some(error) = &self.closed {
            return Err(error.clone());
        }
        if self.fin {
            return Err(Error::StreamClosed);
        }
        if buf.is_empty() {
            return Ok(WriteStep::Done);
        }
        let len: usize = buf.len();
        let chunk_len: u64 = if len <= MAX_FRAME_PAYLOAD {
            len as u64
        } else {
            MAX_FRAME_PAYLOAD as u64
        };
        let allowed: u64 = match session.claim_credit(&self.id, chunk_len)? {
            Some(n) => n,
            None => return Ok(WriteStep::WaitCredit),
        };
        let data = buf.split_to(allowed as usize);
        self.write_piece(session, queue, Piece { data })
    }

    /// Queue a piece that waited for room.
    pub fn write_piece(
        &mut self,
        session: &mut SessionState,
        queue: &mut PriorityQueue,
        piece: Piece,
    ) -> (r: Result<WriteStep, Error>)
        ensures
            (final(self)@, final(session)@, final(queue)@) == with_piece(
                old(self)@,
                old(session)@,
                old(queue)@,
                piece@,
            ),
            piece_result(old(queue)@, piece@, r),
    {
        let len: usize = piece.data.len();
        if queue.is_closed() {
            // Release credit since data was never sent
            session.release_credit(&self.id, len as u64);
            return Err(Error::Closed);
        }
        if queue.is_full() {
            return Ok(WriteStep::WaitQueue(piece));
        }
        let frame = Frame::Stream(Stream { id: self.id, data: piece.data, fin: false });
        let _ = queue.push(self.priority, &self.id, frame);
        self.offset = self.offset.saturating_add(len as u64);
        Ok(WriteStep::Sent(len))
    }

    /// Set the stream's send priority; higher values are sent first.
    ///
    /// Re-prioritization is retroactive: already-queued frames for this stream
    /// move to the new band on the next scheduling decision (the bytes stay put,
    /// preserving per-stream order).
    pub fn set_priority(&mut self, queue: &mut PriorityQueue, order: u8)
        ensures
            final(self)@ == (SendStreamView { priority: order, ..old(self)@ }),
            final(queue)@ == (QueueView {
                lanes: reprioritized(old(queue)@.lanes, old(self)@.id, order),
                ..old(queue)@
            }),
    {
        self.priority = order;
        queue.set_priority(&self.id, order);
    }

    /// Give the stream up: the RESET_STREAM to send, unless it is over already.
    pub fn reset(&mut self, code: u32) -> (r: Option<Frame>)
        ensures
            if old(self)@.fin || old(self)@.closed is Some {
                r is None && final(self)@ == old(self)@
            } else {
                &&& view_of(r) == Some(
                    FrameView::ResetStream {
                        id: old(self)@.id,
                        code: code as u64,
                        final_size: old(self)@.offset,
                    },
                )
                &&& final(self)@ == (SendStreamView {
                    closed: Some(ErrorView::StreamReset(code as u64)),
                    ..old(self)@
                })
            },
    {
        if self.fin || self.closed.is_some() {
            return None;
        }
        let code = VarInt::from_u32(code);
        self.closed = Some(Error::StreamReset(code));
        Some(Frame::ResetStream(ResetStream { id: self.id, code, final_size: self.offset }))
    }

    /// End the stream: the FIN goes behind its data, whether or not there is room.
    pub fn finish(&mut self, queue: &mut PriorityQueue) -> (r: Result<(), Error>)
        ensures
            match old(self)@.closed {
                Some(e) => {
                    &&& r matches Err(x)
                    &&& x@ == e
                    &&& final(self)@ == old(self)@
                    &&& final(queue)@ == old(queue)@
                },
                None => if old(queue)@.closed {
                    &&& r matches Err(x)
                    &&& x is Closed
                    &&& final(self)@ == old(self)@
                    &&& final(queue)@ == old(queue)@
                } else {
                    &&& r is Ok
                    &&& final(self)@ == (SendStreamView { fin: true, ..old(self)@ })
                    &&& final(queue)@ == (QueueView {
                        lanes: pushed(
                            old(queue)@.lanes,
                            old(self)@.priority,
                            old(self)@.id,
                            FrameView::Stream {
                                id: old(self)@.id,
                                data: Seq::empty(),
                                fin: true,
                            },
                        ),
                        ..old(queue)@
                    })
                },
            },
    {
        if let Some(error) = &self.closed {
            return Err(error.clone());
        }
        let frame = Frame::Stream(Stream { id: self.id, data: Bytes::new(), fin: true });
        queue.push_now(self.priority, &self.id, frame)?;
        self.fin = true;
        Ok(())
    }

    /// The application let go of the stream: one that was not finished is given
    /// up.
    pub fn on_drop(&mut self) -> (r: Option<Frame>)
        ensures
            if old(self)@.fin || old(self)@.closed is Some {
                r is None
            } else {
                view_of(r) == Some(
                    FrameView::ResetStream {
                        id: old(self)@.id,
                        code: 0,
                        final_size: old(self)@.offset,
                    },
                )
            },
    {
        self.reset(0)
    }

    /// Why nothing more can be sent, if so.
    pub fn close_reason(&self) -> (r: Option<Error>)
        ensures
            error_view(r) == self@.closed,
    {
        match &self.closed {
            Some(e) => Some(e.clone()),
            None => None,
        }
    }
}

proof fn lemma_sent_data_push(frames: Seq<FrameView>, f: FrameView, id: u64)
    ensures
        sent_data(frames.push(f), id) == sent_data(frames, id) + data_in(f, id),
    decreases frames.len(),
{
    let all = frames.push(f);
    if frames.len() == 0 {
        assert(all.drop_first() =~= frames);
        assert(sent_data(frames, id) =~= Seq::empty());
        assert(all[0] == f);
        assert(sent_data(all, id) =~= data_in(f, id));
        assert(sent_data(frames, id) + data_in(f, id) =~= data_in(f, id));
    } else {
        assert(all.drop_first() =~= frames.drop_first().push(f));
        lemma_sent_data_push(frames.drop_first(), f, id);
        assert(sent_data(all, id) =~= sent_data(frames, id) + data_in(f, id));
    }
}

/// Law: writing moves bytes from the buffer to the end of what is queued for the
/// stream, whether at once or after they waited for room. None is lost, added or
/// put in another order.
pub proof fn lemma_write_keeps_bytes(
    lanes: Seq<LaneView>,
    priority: u8,
    id: u64,
    buf: Seq<u8>,
    n: int,
)
    requires
        lanes_wf(lanes),
        0 <= n <= buf.len(),
    ensures
        ({
            let f = FrameView::Stream { id, data: buf.take(n), fin: false };
            sent_data(queued(pushed(lanes, priority, id, f), id), id) + buf.skip(n) == sent_data(
                queued(lanes, id),
                id,
            ) + buf
        }),
{
    let f = FrameView::Stream { id, data: buf.take(n), fin: false };
    lemma_push_keeps_order(lanes, priority, id, f, id);
    lemma_sent_data_push(queued(lanes, id), f, id);
    let had = sent_data(queued(lanes, id), id);
    assert(had + buf.take(n) + buf.skip(n) =~= had + buf);
}

} // verus!
