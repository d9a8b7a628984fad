//! The receive half of a multiplexed stream.

use bytes::Bytes;
use vstd::prelude::*;

use super::model::{conn_update, on_consumed, on_recv_dropped, stream_update, streams_update};
use super::state::{SessionState, error_view};
use crate::buffer::contents;
use crate::qmux::error::{Error, ErrorView};
use crate::qmux::proto::frame::{Frame, FrameView, StopSending, Stream, view_of};
use crate::qmux::proto::varint::VarInt;
use crate::qmux::stream::StreamId;

verus! {

/// The receive half of a multiplexed stream.
pub struct RecvStream {
    id: StreamId,
    buffer: Bytes,
    closed: Option<Error>,
    fin: bool,
}

/// A [`RecvStream`] over plain values.
#[verifier::ext_equal]
pub struct RecvStreamView {
    pub id: u64,
    /// What arrived and was not read yet.
    pub buffer: Seq<u8>,
    /// Why nothing more will arrive, if so.
    pub closed: Option<ErrorView>,
    /// Whether the end has arrived.
    pub fin: bool,
}

impl View for RecvStream {
    type V = RecvStreamView;

    closed spec fn view(&self) -> RecvStreamView {
        RecvStreamView {
            id: self.id@,
            buffer: contents(self.buffer),
            closed: error_view(self.closed),
            fin: self.fin,
        }
    }
}

/// What a read came to.
pub enum ReadStep {
    /// Data, and the window updates to send.
    Data(Bytes, Option<Frame>, Option<Frame>),
    /// The stream has ended.
    End,
    /// More has to arrive first.
    Wait,
}

/// How much of `buffer` a read of up to `max` takes.
pub open spec fn read_len(buffer: Seq<u8>, max: usize) -> u64 {
    if max <= buffer.len() {
        max as u64
    } else {
        buffer.len() as u64
    }
}

/// What a read into a buffer reports, given whether something waited before it and
/// how much came, which is `None` at the end. A read that had to wait and took
/// nothing reports the end as well.
pub fn read_reported(buffered: bool, read: Option<usize>) -> (r: Option<usize>)
    ensures
        r == (match read {
            Some(n) if buffered || n > 0 => Some(n),
            _ => None,
        }),
{
    match read {
        Some(n) => if buffered || n > 0 {
            Some(n)
        } else {
            None
        },
        None => None,
    }
}

impl RecvStream {
    /// A stream on which nothing has arrived.
    pub fn new(id: StreamId) -> (r: RecvStream)
        ensures
            r@ == (RecvStreamView { id: id@, buffer: Seq::empty(), closed: None, fin: false }),
    {
        RecvStream { id, buffer: Bytes::new(), closed: None, fin: false }
    }

    /// The identifier.
    pub fn id(&self) -> (r: StreamId)
        ensures
            r@ == self@.id,
    {
        self.id
    }

    /// Take in the next data of the stream, once everything before it was read.
    pub fn on_data(&mut self, stream: Stream)
        requires
            stream.id@ == old(self)@.id,
            old(self)@.buffer.len() == 0,
        ensures
            final(self)@ == (RecvStreamView {
                buffer: contents(stream.data),
                fin: stream.fin,
                ..old(self)@
            }),
    {
        self.fin = stream.fin;
        self.buffer = stream.data;
    }

    /// Take in the next data of the stream while only its end is waited for: what
    /// was not read is given up.
    pub fn on_data_unread(&mut self, stream: Stream)
        requires
            stream.id@ == old(self)@.id,
        ensures
            final(self)@ == (RecvStreamView {
                buffer: contents(stream.data),
                fin: stream.fin,
                ..old(self)@
            }),
    {
        self.buffer = stream.data;
        self.fin = stream.fin;
    }

    /// The peer gave the stream up: the error to report.
    pub fn recv_reset(&mut self, code: VarInt) -> (r: Error)
        ensures
            match old(self)@.closed {
                Some(e) => r@ == e && final(self)@ == old(self)@,
                None => {
                    &&& r@ == ErrorView::StreamReset(code@)
                    &&& final(self)@ == (RecvStreamView {
                        closed: Some(ErrorView::StreamReset(code@)),
                        ..old(self)@
                    })
                },
            },
    {
        if let Some(error) = &self.closed {
            return error.clone();
        }
        self.closed = Some(Error::StreamReset(code));
        Error::StreamReset(code)
    }

    /// Read up to `max` bytes of what has arrived. What arrived is read before an
    /// end or an error is reported.
    pub fn read_chunk(&mut self, session: &mut SessionState, max: usize) -> (r: Result<
        ReadStep,
        Error,
    >)
        ensures
            if old(self)@.buffer.len() > 0 {
                let n = read_len(old(self)@.buffer, max);
                &&& r matches Ok(ReadStep::Data(b, stream, conn))
                &&& contents(b) == old(self)@.buffer.take(n as int)
                &&& view_of(stream) == stream_update(old(session)@, old(self)@.id, n)
                &&& view_of(conn) == conn_update(old(session)@, n)
                &&& final(self)@ == (RecvStreamView {
                    buffer: old(self)@.buffer.skip(n as int),
                    ..old(self)@
                })
                &&& final(session)@ == on_consumed(old(session)@, old(self)@.id, n)
            } else {
                &&& final(self)@ == old(self)@
                &&& final(session)@ == old(session)@
                &&& if old(self)@.fin {
                    r matches Ok(ReadStep::End)
                } else {
                    match old(self)@.closed {
                        Some(e) => r matches Err(x) && x@ == e,
                        None => r matches Ok(ReadStep::Wait),
                    }
                }
            },
    {
        if !self.buffer.is_empty() {
            let len: usize = self.buffer.len();
            let to_read: usize = if max <= len {
                max
            } else {
                len
            };
            let data = self.buffer.split_to(to_read);
            // Report consumed bytes and send window updates if needed
            let (stream, conn) = session.report_consumed(&self.id, to_read as u64);
            return Ok(ReadStep::Data(data, stream, conn));
        }
        if self.fin {
            return Ok(ReadStep::End);
        }
        if let Some(error) = &self.closed {
            return Err(error.clone());
        }
        Ok(ReadStep::Wait)
    }

    /// Whether something has arrived that was not read.
    pub fn is_buffered(&self) -> (r: bool)
        ensures
            r == (self@.buffer.len() > 0),
    {
        !self.buffer.is_empty()
    }

    /// Tell the peer to stop sending: the frame to send.
    pub fn stop(&mut self, code: u32) -> (r: Frame)
        ensures
            r@ == (FrameView::StopSending { id: old(self)@.id, code: code as u64 }),
            final(self)@ == (RecvStreamView {
                closed: Some(ErrorView::StreamStop(code as u64)),
                ..old(self)@
            }),
    {
        let code = VarInt::from_u32(code);
        self.closed = Some(Error::StreamStop(code));
        Frame::StopSending(StopSending { id: self.id, code })
    }

    /// Whether the stream has ended: `Some` once that is known.
    pub fn poll_closed(&self) -> (r: Option<Result<(), Error>>)
        ensures
            match self@.closed {
                Some(e) => r matches Some(Err(x)) && x@ == e,
                None => if self@.fin {
                    r matches Some(Ok(_))
                } else {
                    r is None
                },
            },
    {
        if let Some(error) = &self.closed {
            return Some(Err(error.clone()));
        }
        if self.fin {
            return Some(Ok(()));
        }
        None
    }

    /// The application let go of the stream: the frames to send. One that has not
    /// ended is stopped, and the peer may open another in its place.
    pub fn on_drop(&mut self, session: &mut SessionState) -> (r: (Option<Frame>, Option<Frame>))
        ensures
            view_of(r.0) == if !old(self)@.fin && old(self)@.closed is None {
                Some(FrameView::StopSending { id: old(self)@.id, code: 0 })
            } else {
                None::<FrameView>
            },
            view_of(r.1) == streams_update(old(session)@, old(self)@.id),
            final(session)@ == on_recv_dropped(old(session)@, old(self)@.id),
    {
        let stop = if !self.fin && self.closed.is_none() {
            Some(self.stop(0))
        } else {
            None
        };
        let update = session.drop_recv(&self.id);
        (stop, update)
    }
}

/// Something that happens to a stream that is read.
pub enum ReadOp {
    /// Its next data is taken in.
    Data { data: Seq<u8> },
    /// Up to so many bytes are read.
    Read { max: usize },
}

/// What is left to read after `op`.
pub open spec fn buffer_after(buffer: Seq<u8>, op: ReadOp) -> Seq<u8> {
    match op {
        ReadOp::Data { data } => data,
        ReadOp::Read { max } => buffer.skip(read_len(buffer, max) as int),
    }
}

/// What `op` hands to the application.
pub open spec fn read_by(buffer: Seq<u8>, op: ReadOp) -> Seq<u8> {
    match op {
        ReadOp::Data { .. } => Seq::empty(),
        ReadOp::Read { max } => buffer.take(read_len(buffer, max) as int),
    }
}

/// Whether data is taken in only where everything before it was read.
pub open spec fn reads_in_turn(buffer: Seq<u8>, ops: Seq<ReadOp>) -> bool
    decreases ops.len(),
{
    ops.len() > 0 ==> {
        &&& buffer.len() <= u64::MAX
        &&& ops[0] is Data ==> buffer.len() == 0
        &&& reads_in_turn(buffer_after(buffer, ops[0]), ops.drop_first())
    }
}

/// What is left to read after a run of operations.
pub open spec fn buffer_left(buffer: Seq<u8>, ops: Seq<ReadOp>) -> Seq<u8>
    decreases ops.len(),
{
    if ops.len() == 0 {
        buffer
    } else {
        buffer_left(buffer_after(buffer, ops[0]), ops.drop_first())
    }
}

/// Everything that a run of operations hands to the application, in order.
pub open spec fn all_read(buffer: Seq<u8>, ops: Seq<ReadOp>) -> Seq<u8>
    decreases ops.len(),
{
    if ops.len() == 0 {
        Seq::empty()
    } else {
        read_by(buffer, ops[0]) + all_read(buffer_after(buffer, ops[0]), ops.drop_first())
    }
}

/// Everything that a run of operations takes in, in order.
pub open spec fn all_taken_in(ops: Seq<ReadOp>) -> Seq<u8>
    decreases ops.len(),
{
    if ops.len() == 0 {
        Seq::empty()
    } else {
        let rest = all_taken_in(ops.drop_first());
        match ops[0] {
            ReadOp::Data { data } => data + rest,
            ReadOp::Read { .. } => rest,
        }
    }
}

/// Law: what is read and what is left to read are together what was delivered, in
/// the same order, however much each read asks for.
pub proof fn lemma_reads_give_back(buffer: Seq<u8>, ops: Seq<ReadOp>)
    requires
        reads_in_turn(buffer, ops),
    ensures
        buffer + all_taken_in(ops) == all_read(buffer, ops) + buffer_left(buffer, ops),
    decreases ops.len(),
{
    if ops.len() == 0 {
        assert(buffer + all_taken_in(ops) =~= all_read(buffer, ops) + buffer);
    } else {
        let rest = ops.drop_first();
        let next = buffer_after(buffer, ops[0]);
        lemma_reads_give_back(next, rest);
        let left = buffer_left(next, rest);
        match ops[0] {
            ReadOp::Data { data } => {
                assert(buffer + (data + all_taken_in(rest)) =~= data + all_taken_in(rest));
                assert(Seq::<u8>::empty() + all_read(next, rest) + left =~= all_read(next, rest)
                    + left);
            },
            ReadOp::Read { max } => {
                let head = buffer.take(read_len(buffer, max) as int);
                assert(buffer =~= head + next);
                assert(head + next + all_taken_in(rest) =~= head + (next + all_taken_in(rest)));
                assert(head + (all_read(next, rest) + left) =~= (head + all_read(next, rest))
                    + left);
            },
        }
    }
}

} // verus!
