//! The sending half of a stream.

use std::collections::VecDeque;

use bytes::Bytes;
use vstd::pervasive::cloned;
use vstd::prelude::*;

use super::connection::ConnectionClosed;
use super::error::StreamError;
use super::queue::{chunks, joined, lemma_joined_front, lemma_joined_push};
use crate::buffer::contents;

verus! {

/// "send" in ASCII: the code that a stream is reset with when it is dropped
/// without a `finish` or `reset`.
pub const DROP_CODE: u64 = 0x73656E64;

/// The sending half of a stream. `W` wakes the application.
pub struct SendState<W> {
    id: u64,
    // The amount of data that may be written.
    capacity: usize,
    // Data ready to send. The capacity has been taken for it.
    queued: VecDeque<Bytes>,
    // Woken when the stream is writable again.
    blocked: Option<W>,
    // The application finished the stream.
    fin: bool,
    // The application reset the stream.
    reset: Option<u64>,
    // The peer stopped the stream.
    stop: Option<u64>,
    // A priority that the connection was not told yet.
    priority: Option<u8>,
    // No more progress can be made.
    closed: bool,
}

/// The state of a [`SendState`].
pub struct SendView<W> {
    /// The stream.
    pub id: u64,
    /// How many bytes may be written.
    pub capacity: usize,
    /// The chunks to send.
    pub queued: Seq<Seq<u8>>,
    /// Who waits for the stream.
    pub blocked: Option<W>,
    /// Whether the application finished the stream.
    pub fin: bool,
    /// The code that the application reset the stream with.
    pub reset: Option<u64>,
    /// The code that the peer stopped the stream with.
    pub stop: Option<u64>,
    /// A priority that the connection was not told yet.
    pub priority: Option<u8>,
    /// Whether no more progress can be made.
    pub closed: bool,
}

/// A call to make on the connection, for the stream.
#[derive(Debug)]
pub enum SendCall {
    /// Shut the sending direction down with this code.
    Shutdown { code: u64 },
    /// Set the priority of the stream, which is incremental.
    Priority { priority: u8 },
    /// Send this chunk, without a FIN.
    Send { chunk: Bytes },
    /// Ask to be told when at least one byte can be sent.
    Writable,
    /// Send a FIN, and no bytes.
    Finish,
    /// Ask how many bytes can be sent.
    Capacity,
}

/// A [`SendCall`] with its chunk as bytes.
pub enum SendCallView {
    Shutdown { code: u64 },
    Priority { priority: u8 },
    Send { chunk: Seq<u8> },
    Writable,
    Finish,
    Capacity,
}

impl View for SendCall {
    type V = SendCallView;

    open spec fn view(&self) -> SendCallView {
        match self {
            SendCall::Shutdown { code } => SendCallView::Shutdown { code: *code },
            SendCall::Priority { priority } => SendCallView::Priority { priority: *priority },
            SendCall::Send { chunk } => SendCallView::Send { chunk: contents(*chunk) },
            SendCall::Writable => SendCallView::Writable,
            SendCall::Finish => SendCallView::Finish,
            SendCall::Capacity => SendCallView::Capacity,
        }
    }
}

/// What to do next to flush the stream.
#[derive(Debug)]
#[must_use]
pub enum SendStep<W> {
    /// Make this call, and hand its reply to the method named after it.
    Call(SendCall),
    /// The flush is over: wake the application, if it waits.
    Done(Option<W>),
}

/// A [`SendStep`] with its chunk as bytes.
pub enum SendStepView<W> {
    Call(SendCallView),
    Done(Option<W>),
}

impl<W> View for SendStep<W> {
    type V = SendStepView<W>;

    open spec fn view(&self) -> SendStepView<W> {
        match self {
            SendStep::Call(call) => SendStepView::Call(call@),
            SendStep::Done(w) => SendStepView::Done(*w),
        }
    }
}

/// The reply to shutting one direction of a stream down. `E` is an error that
/// ends the connection.
#[derive(Debug)]
pub enum ShutdownReply<E> {
    /// It was shut down.
    Done,
    /// There was nothing to do, as the stream is finished or gone.
    Gone,
    /// The connection failed.
    Failed(E),
}

/// The reply to sending a chunk.
#[derive(Debug)]
pub enum SendReply<E> {
    /// So many bytes were taken.
    Sent(usize),
    /// None were taken.
    Blocked,
    /// The peer stopped the stream with this code.
    Stopped(u64),
    /// The connection failed.
    Failed(E),
}

/// The reply to asking for the capacity.
#[derive(Debug)]
pub enum CapacityReply<E> {
    /// So many bytes can be sent.
    Capacity(usize),
    /// The peer stopped the stream with this code.
    Stopped(u64),
    /// The connection failed.
    Failed(E),
}

/// The error that every use of the stream meets: it was reset, else stopped.
pub open spec fn send_failure<W>(v: SendView<W>) -> Option<StreamError> {
    if v.reset is Some {
        Some(StreamError::Reset(v.reset->0))
    } else if v.stop is Some {
        Some(StreamError::Stop(v.stop->0))
    } else {
        None
    }
}

/// The error that a write or a finish meets: also that the stream was finished.
pub open spec fn write_failure<W>(v: SendView<W>) -> Option<StreamError> {
    if send_failure(v) is Some {
        send_failure(v)
    } else if v.fin {
        Some(StreamError::Closed)
    } else {
        None
    }
}

/// Whether the peer stopped the stream. That outlasts the code, which is forgotten
/// once it was flushed: a stream that was neither reset nor finished and can make
/// no more progress was stopped.
pub open spec fn stopped_by_peer<W>(v: SendView<W>) -> bool {
    v.reset is None && (v.stop is Some || v.closed && !v.fin)
}

/// The bytes that one write takes of `len`.
pub open spec fn write_len<W>(v: SendView<W>, len: nat) -> nat {
    if v.capacity <= len {
        v.capacity as nat
    } else {
        len
    }
}

/// The state after `data` was written, all of it within the capacity.
pub open spec fn after_write<W>(v: SendView<W>, data: Seq<u8>) -> SendView<W> {
    SendView {
        capacity: (v.capacity - data.len()) as usize,
        queued: v.queued.push(data),
        ..v
    }
}

/// The stream made all the progress it can: whoever waits is woken.
pub open spec fn woken<W>(v: SendView<W>) -> (SendView<W>, SendStepView<W>) {
    (SendView { blocked: None, ..v }, SendStepView::Done(v.blocked))
}

/// What follows when the queue can shrink no further.
pub open spec fn after_queue<W>(v: SendView<W>) -> SendStepView<W> {
    if v.queued.len() == 0 && v.fin {
        SendStepView::Call(SendCallView::Finish)
    } else {
        SendStepView::Call(SendCallView::Capacity)
    }
}

/// Send the first chunk, if there is one.
pub open spec fn next_chunk<W>(v: SendView<W>) -> (SendView<W>, SendStepView<W>) {
    if v.queued.len() > 0 {
        (
            SendView { queued: v.queued.drop_first(), ..v },
            SendStepView::Call(SendCallView::Send { chunk: v.queued[0] }),
        )
    } else {
        (v, after_queue(v))
    }
}

/// The start of a flush.
pub open spec fn flush_start<W>(v: SendView<W>) -> (SendView<W>, SendStepView<W>) {
    if v.reset is Some {
        (v, SendStepView::Call(SendCallView::Shutdown { code: v.reset->0 }))
    } else if v.stop is Some {
        woken(SendView { stop: None, ..v })
    } else if v.priority is Some {
        (
            SendView { priority: None, ..v },
            SendStepView::Call(SendCallView::Priority { priority: v.priority->0 }),
        )
    } else {
        next_chunk(v)
    }
}

/// The state once the connection took the first `n` bytes of `chunk`: what it
/// did not take goes back to the front.
pub open spec fn after_send<W>(v: SendView<W>, chunk: Seq<u8>, n: nat) -> SendView<W> {
    if n < chunk.len() {
        SendView { queued: seq![chunk.skip(n as int)] + v.queued, ..v }
    } else {
        v
    }
}

/// What follows when the connection took `n` bytes of `chunk`.
pub open spec fn sent<W>(v: SendView<W>, chunk: Seq<u8>, n: nat) -> (SendView<W>, SendStepView<W>) {
    if n < chunk.len() {
        (after_send(v, chunk, n), SendStepView::Call(SendCallView::Writable))
    } else {
        next_chunk(v)
    }
}

/// What follows when the peer stopped the stream.
pub open spec fn stopped<W>(v: SendView<W>, code: u64) -> (SendView<W>, SendStepView<W>) {
    woken(SendView { stop: Some(code), closed: true, ..v })
}

impl<W> View for SendState<W> {
    type V = SendView<W>;

    closed spec fn view(&self) -> SendView<W> {
        SendView {
            id: self.id,
            capacity: self.capacity,
            queued: chunks(self.queued@),
            blocked: self.blocked,
            fin: self.fin,
            reset: self.reset,
            stop: self.stop,
            priority: self.priority,
            closed: self.closed,
        }
    }
}

impl<W> SendState<W> {
    /// A stream that nothing was written to. Its capacity is not known yet.
    pub fn new(id: u64) -> (r: SendState<W>)
        ensures
            r@ == (SendView::<W> {
                id,
                capacity: 0,
                queued: Seq::empty(),
                blocked: None,
                fin: false,
                reset: None,
                stop: None,
                priority: None,
                closed: false,
            }),
    {
        let r = SendState {
            id,
            capacity: 0,
            queued: VecDeque::new(),
            blocked: None,
            fin: false,
            reset: None,
            stop: None,
            priority: None,
            closed: false,
        };
        assert(r@.queued =~= Seq::<Seq<u8>>::empty());
        r
    }

    /// The QUIC stream ID.
    pub fn id(&self) -> (r: u64)
        ensures
            r == self@.id,
    {
        self.id
    }

    /// Write some of the buffer, as far as the capacity goes: the number of bytes
    /// taken off it. `None` where the caller has to wait.
    ///
    /// Where there is an answer, the driver is to be told that the stream has
    /// something to flush.
    pub fn poll_write_buf(&mut self, waker: &W, buf: &mut Bytes) -> (r: Option<
        Result<usize, StreamError>,
    >) where W: Clone
        ensures
            match write_failure(old(self)@) {
                Some(failure) => {
                    &&& r == Some(Err::<usize, StreamError>(failure))
                    &&& final(self)@ == old(self)@
                    &&& contents(*final(buf)) == contents(*old(buf))
                },
                None => if old(self)@.capacity == 0 {
                    &&& r is None
                    &&& final(self)@.blocked matches Some(w) && cloned(*waker, w)
                    &&& final(self)@ == (SendView { blocked: final(self)@.blocked, ..old(self)@ })
                    &&& contents(*final(buf)) == contents(*old(buf))
                } else {
                    let n = write_len(old(self)@, contents(*old(buf)).len());
                    &&& r == Some(Ok::<usize, StreamError>(n as usize))
                    &&& final(self)@ == after_write(old(self)@, contents(*old(buf)).take(n as int))
                    &&& contents(*final(buf)) == contents(*old(buf)).skip(n as int)
                },
            },
    {
        if let Some(code) = self.reset {
            return Some(Err(StreamError::Reset(code)));
        } else if let Some(code) = self.stop {
            return Some(Err(StreamError::Stop(code)));
        } else if self.fin {
            return Some(Err(StreamError::Closed));
        }
        if self.capacity == 0 {
            self.blocked = Some(waker.clone());
            return None;
        }
        let n: usize = if self.capacity <= buf.len() {
            self.capacity
        } else {
            buf.len()
        };
        let chunk = buf.split_to(n);
        self.capacity = self.capacity - n;
        self.queued.push_back(chunk);
        assert(self@.queued =~= old(self)@.queued.push(contents(chunk)));
        Some(Ok(n))
    }

    /// Write some of the buffer on a connection that may have ended: the state of
    /// the stream goes first.
    pub fn poll_write(
        &mut self,
        connection: &mut ConnectionClosed<W>,
        waker: &W,
        buf: &mut Bytes,
    ) -> (r: Option<Result<usize, StreamError>>) where W: Clone
        ensures
            match write_failure(old(self)@) {
                Some(failure) => {
                    &&& r == Some(Err::<usize, StreamError>(failure))
                    &&& final(self)@ == old(self)@
                    &&& contents(*final(buf)) == contents(*old(buf))
                    &&& *final(connection) == *old(connection)
                },
                None => if old(self)@.capacity == 0 {
                    &&& final(self)@.blocked matches Some(w) && cloned(*waker, w)
                    &&& final(self)@ == (SendView { blocked: final(self)@.blocked, ..old(self)@ })
                    &&& contents(*final(buf)) == contents(*old(buf))
                    &&& old(connection)@.err matches Some(e) ==> {
                        &&& r == Some(Err::<usize, StreamError>(StreamError::Connection(e)))
                        &&& *final(connection) == *old(connection)
                    }
                    &&& old(connection)@.err is None ==> {
                        &&& r is None
                        &&& final(connection)@.err is None
                        &&& final(connection)@.wakers.len() == old(connection)@.wakers.len() + 1
                        &&& final(connection)@.wakers.drop_last() == old(connection)@.wakers
                        &&& cloned(*waker, final(connection)@.wakers.last())
                    }
                } else {
                    let n = write_len(old(self)@, contents(*old(buf)).len());
                    &&& r == Some(Ok::<usize, StreamError>(n as usize))
                    &&& final(self)@ == after_write(old(self)@, contents(*old(buf)).take(n as int))
                    &&& contents(*final(buf)) == contents(*old(buf)).skip(n as int)
                    &&& *final(connection) == *old(connection)
                },
            },
    {
        if let Some(res) = self.poll_write_buf(waker, buf) {
            return Some(res);
        }
        match connection.poll(waker) {
            Some(e) => Some(Err(StreamError::Connection(e))),
            None => None,
        }
    }

    /// Whether the stream is over: the FIN or a reset was sent, or the peer
    /// stopped it. `None` where the caller has to wait.
    pub fn poll_closed(&mut self, waker: &W) -> (r: Option<Result<(), StreamError>>) where W: Clone
        ensures
            match send_failure(old(self)@) {
                Some(failure) => {
                    &&& r == Some(Err::<(), StreamError>(failure))
                    &&& final(self)@ == old(self)@
                },
                None => if old(self)@.closed {
                    &&& r == Some(Ok::<(), StreamError>(()))
                    &&& final(self)@ == old(self)@
                } else {
                    &&& r is None
                    &&& final(self)@.blocked matches Some(w) && cloned(*waker, w)
                    &&& final(self)@ == (SendView { blocked: final(self)@.blocked, ..old(self)@ })
                },
            },
    {
        if let Some(code) = self.reset {
            return Some(Err(StreamError::Reset(code)));
        } else if let Some(code) = self.stop {
            return Some(Err(StreamError::Stop(code)));
        } else if self.closed {
            return Some(Ok(()));
        }
        self.blocked = Some(waker.clone());
        None
    }

    /// End the flush, and hand out who waits for it.
    fn wake(&mut self) -> (r: SendStep<W>)
        ensures
            (final(self)@, r@) == woken(old(self)@),
    {
        SendStep::Done(self.blocked.take())
    }

    /// Go on once the queue can shrink no further.
    fn drained(&self) -> (r: SendStep<W>)
        ensures
            r@ == after_queue(self@),
    {
        if self.queued.len() == 0 && self.fin {
            SendStep::Call(SendCall::Finish)
        } else {
            SendStep::Call(SendCall::Capacity)
        }
    }

    /// Go on with the first chunk.
    fn advance(&mut self) -> (r: SendStep<W>)
        ensures
            (final(self)@, r@) == next_chunk(old(self)@),
    {
        match self.queued.pop_front() {
            Some(chunk) => {
                assert(self@.queued =~= old(self)@.queued.drop_first());
                SendStep::Call(SendCall::Send { chunk })
            },
            None => self.drained(),
        }
    }

    /// Start to flush the stream.
    pub fn flush(&mut self) -> (r: SendStep<W>)
        ensures
            (final(self)@, r@) == flush_start(old(self)@),
    {
        if let Some(code) = self.reset {
            return SendStep::Call(SendCall::Shutdown { code });
        }
        if self.stop.take().is_some() {
            return self.wake();
        }
        if let Some(priority) = self.priority.take() {
            return SendStep::Call(SendCall::Priority { priority });
        }
        self.advance()
    }

    /// The reply to [`SendCall::Shutdown`]. Resetting one stream never ends the
    /// connection because the stream was already gone.
    pub fn on_shutdown<E>(&mut self, reply: ShutdownReply<E>) -> (r: Result<SendStep<W>, E>)
        ensures
            match reply {
                ShutdownReply::Failed(e) => r == Err::<SendStep<W>, E>(e) && final(self)@ == old(
                    self,
                )@,
                _ => r matches Ok(step) && (final(self)@, step@) == woken(
                    SendView { closed: true, ..old(self)@ },
                ),
            },
    {
        match reply {
            ShutdownReply::Done | ShutdownReply::Gone => {},
            ShutdownReply::Failed(e) => {
                return Err(e);
            },
        }
        self.closed = true;
        Ok(self.wake())
    }

    /// The reply to [`SendCall::Priority`].
    pub fn on_priority<E>(&mut self, reply: Result<(), E>) -> (r: Result<SendStep<W>, E>)
        ensures
            match reply {
                Err(e) => r == Err::<SendStep<W>, E>(e) && final(self)@ == old(self)@,
                Ok(_) => r matches Ok(step) && (final(self)@, step@) == next_chunk(old(self)@),
            },
    {
        reply?;
        Ok(self.advance())
    }

    /// The reply to [`SendCall::Send`], with the chunk that was to be sent.
    pub fn on_send<E>(&mut self, chunk: Bytes, reply: SendReply<E>) -> (r: Result<SendStep<W>, E>)
        ensures
            match reply {
                SendReply::Failed(e) => r == Err::<SendStep<W>, E>(e) && final(self)@ == old(self)@,
                SendReply::Stopped(code) => r matches Ok(step) && (final(self)@, step@) == stopped(
                    old(self)@,
                    code,
                ),
                SendReply::Sent(n) => r matches Ok(step) && (final(self)@, step@) == sent(
                    old(self)@,
                    contents(chunk),
                    n as nat,
                ),
                SendReply::Blocked => r matches Ok(step) && (final(self)@, step@) == sent(
                    old(self)@,
                    contents(chunk),
                    0,
                ),
            },
    {
        let n: usize = match reply {
            SendReply::Sent(n) => n,
            SendReply::Blocked => 0,
            SendReply::Stopped(code) => {
                self.stop = Some(code);
                self.closed = true;
                return Ok(self.wake());
            },
            SendReply::Failed(e) => {
                return Err(e);
            },
        };
        if n < chunk.len() {
            let mut rest = chunk;
            let _sent = rest.split_to(n);
            self.queued.push_front(rest);
            assert(self@.queued =~= seq![contents(chunk).skip(n as int)] + old(self)@.queued);
            return Ok(SendStep::Call(SendCall::Writable));
        }
        Ok(self.advance())
    }

    /// The reply to [`SendCall::Writable`].
    pub fn on_writable<E>(&mut self, reply: Result<(), E>) -> (r: Result<SendStep<W>, E>)
        ensures
            final(self)@ == old(self)@,
            match reply {
                Err(e) => r == Err::<SendStep<W>, E>(e),
                Ok(_) => r matches Ok(step) && step@ == after_queue(old(self)@),
            },
    {
        reply?;
        Ok(self.drained())
    }

    /// The reply to [`SendCall::Finish`].
    pub fn on_finish<E>(&mut self, reply: Result<(), E>) -> (r: Result<SendStep<W>, E>)
        ensures
            match reply {
                Err(e) => r == Err::<SendStep<W>, E>(e) && final(self)@ == old(self)@,
                Ok(_) => r matches Ok(step) && (final(self)@, step@) == woken(
                    SendView { closed: true, ..old(self)@ },
                ),
            },
    {
        reply?;
        self.closed = true;
        Ok(self.wake())
    }

    /// The reply to [`SendCall::Capacity`]. Without capacity there is no reason to
    /// wake the application.
    pub fn on_capacity<E>(&mut self, reply: CapacityReply<E>) -> (r: Result<SendStep<W>, E>)
        ensures
            match reply {
                CapacityReply::Failed(e) => r == Err::<SendStep<W>, E>(e) && final(self)@ == old(
                    self,
                )@,
                CapacityReply::Stopped(code) => r matches Ok(step) && (final(self)@, step@)
                    == stopped(old(self)@, code),
                CapacityReply::Capacity(n) => r matches Ok(step) && (final(self)@, step@) == (if n
                    > 0 {
                    woken(SendView { capacity: n, ..old(self)@ })
                } else {
                    (SendView { capacity: 0, ..old(self)@ }, SendStepView::Done(None))
                }),
            },
    {
        match reply {
            CapacityReply::Capacity(n) => {
                self.capacity = n;
                if n > 0 {
                    return Ok(self.wake());
                }
                Ok(SendStep::Done(None))
            },
            CapacityReply::Stopped(code) => {
                self.stop = Some(code);
                self.closed = true;
                Ok(self.wake())
            },
            CapacityReply::Failed(e) => Err(e),
        }
    }

    /// Whether the application finished the stream, or the peer closed it.
    pub fn is_finished(&self) -> (r: Result<bool, StreamError>)
        ensures
            match self@.reset {
                Some(code) => r == Err::<bool, StreamError>(StreamError::Reset(code)),
                None => r == Ok::<bool, StreamError>(self@.fin || stopped_by_peer(self@)),
            },
    {
        if let Some(code) = self.reset {
            Err(StreamError::Reset(code))
        } else {
            Ok(self.fin || self.stop.is_some() || self.closed)
        }
    }

    /// Whether no more progress can be made: a reset or the FIN was sent, or the
    /// peer stopped the stream.
    pub fn is_closed(&self) -> (r: bool)
        ensures
            r == self@.closed,
    {
        self.closed
    }

    /// Mark the stream as finished: nothing more can be written, and a FIN
    /// follows what was. The driver is to be told.
    pub fn finish(&mut self) -> (r: Result<(), StreamError>)
        ensures
            match write_failure(old(self)@) {
                Some(failure) => r == Err::<(), StreamError>(failure) && final(self)@ == old(self)@,
                None => r is Ok && final(self)@ == (SendView { fin: true, ..old(self)@ }),
            },
    {
        if let Some(code) = self.reset {
            return Err(StreamError::Reset(code));
        } else if let Some(code) = self.stop {
            return Err(StreamError::Stop(code));
        } else if self.fin {
            return Err(StreamError::Closed);
        }
        self.fin = true;
        Ok(())
    }

    /// Give the stream up with this code. The driver is to be told.
    pub fn reset(&mut self, code: u64)
        ensures
            final(self)@ == (SendView { reset: Some(code), ..old(self)@ }),
    {
        self.reset = Some(code);
    }

    /// Set the priority of the stream: lower values are sent first. The driver is
    /// to be told.
    pub fn set_priority(&mut self, priority: u8)
        ensures
            final(self)@ == (SendView { priority: Some(priority), ..old(self)@ }),
    {
        self.priority = Some(priority);
    }

    /// The application let go of the stream: it is reset, unless it is over
    /// already. Tells whether the driver is to be told.
    pub fn on_drop(&mut self) -> (r: bool)
        ensures
            r == (write_failure(old(self)@) is None),
            final(self)@ == (if r {
                SendView { reset: Some(DROP_CODE), ..old(self)@ }
            } else {
                old(self)@
            }),
    {
        if !self.fin && self.reset.is_none() && self.stop.is_none() {
            self.reset = Some(DROP_CODE);
            return true;
        }
        false
    }
}

/// Whatever part of a chunk the connection takes, what it took and what is still
/// queued are together what was queued, in the same order.
pub proof fn lemma_send_keeps_order<W>(v: SendView<W>, n: nat)
    requires
        v.queued.len() > 0,
        n <= v.queued[0].len(),
    ensures
        next_chunk(v).1 == SendStepView::<W>::Call(SendCallView::Send { chunk: v.queued[0] }),
        ({
            let taken = v.queued[0].take(n as int);
            taken + joined(after_send(next_chunk(v).0, v.queued[0], n).queued) == joined(v.queued)
        }),
{
    let chunk = v.queued[0];
    let rest = v.queued.drop_first();
    if n < chunk.len() {
        lemma_joined_front(rest, chunk.skip(n as int));
        assert(chunk.take(n as int) + (chunk.skip(n as int) + joined(rest)) =~= chunk + joined(
            rest,
        ));
    } else {
        assert(chunk.take(n as int) =~= chunk);
    }
}

/// What is written goes behind everything that is queued, and a write never
/// takes more than the capacity.
pub proof fn lemma_write_appends<W>(v: SendView<W>, data: Seq<u8>)
    requires
        data.len() <= v.capacity,
    ensures
        joined(after_write(v, data).queued) == joined(v.queued) + data,
        after_write(v, data).capacity + data.len() == v.capacity,
{
    lemma_joined_push(v.queued, data);
}

/// A FIN is asked for only when nothing is left to send before it.
pub proof fn lemma_finish_comes_last<W>(v: SendView<W>, chunk: Seq<u8>, n: nat)
    ensures
        after_queue(v) == SendStepView::<W>::Call(SendCallView::Finish) ==> v.fin && joined(
            v.queued,
        ).len() == 0,
        flush_start(v).1 == SendStepView::<W>::Call(SendCallView::Finish) ==> v.fin && joined(
            v.queued,
        ).len() == 0,
        sent(v, chunk, n).1 == SendStepView::<W>::Call(SendCallView::Finish) ==> v.fin && joined(
            v.queued,
        ).len() == 0 && n >= chunk.len(),
{
}

/// Law: a stop of the peer is remembered. From then on the stream counts as
/// stopped, also after the flush that forgets the code, unless it is reset or
/// finished.
pub proof fn lemma_stop_is_remembered<W>(v: SendView<W>, code: u64)
    requires
        v.reset is None,
        !v.fin,
    ensures
        stopped_by_peer(stopped(v, code).0),
        stopped_by_peer(v) && v.closed ==> stopped_by_peer(flush_start(v).0),
        stopped_by_peer(flush_start(stopped(v, code).0).0),
{
}

/// The bytes that a step hands to the connection.
pub open spec fn handed_out<W>(step: SendStepView<W>) -> Seq<u8> {
    match step {
        SendStepView::Call(SendCallView::Send { chunk }) => chunk,
        _ => Seq::empty(),
    }
}

/// Law: a step hands out the first chunk that is queued, if one is, and keeps all
/// the others. With nothing queued it asks for the FIN of a finished stream, and for
/// the capacity of another.
pub proof fn lemma_chunks_go_in_turn<W>(v: SendView<W>)
    ensures
        handed_out(next_chunk(v).1) + joined(next_chunk(v).0.queued) == joined(v.queued),
        v.queued.len() > 0 ==> {
            &&& next_chunk(v).1 == SendStepView::<W>::Call(
                SendCallView::Send { chunk: v.queued[0] },
            )
            &&& next_chunk(v).0.queued == v.queued.skip(1)
        },
        v.queued.len() == 0 ==> {
            &&& next_chunk(v).0.queued.len() == 0
            &&& next_chunk(v).1 == if v.fin {
                SendStepView::<W>::Call(SendCallView::Finish)
            } else {
                SendStepView::<W>::Call(SendCallView::Capacity)
            }
        },
        next_chunk(v).0 == (SendView { queued: next_chunk(v).0.queued, ..v }),
{
    if v.queued.len() > 0 {
        assert(v.queued.skip(1) =~= v.queued.drop_first());
    } else {
        assert(Seq::<u8>::empty() + joined(v.queued) =~= joined(v.queued));
    }
}

/// Law: a flush begins with the reset, where the application reset the stream. A
/// stop of the peer ends it at once and is forgotten. Then the connection is told a
/// new priority, and then the queue is sent. Nothing queued is lost.
pub proof fn lemma_flush_begins<W>(v: SendView<W>)
    ensures
        ({
            let (t, step) = flush_start(v);
            &&& handed_out(step) + joined(t.queued) == joined(v.queued)
            &&& v.reset matches Some(code) ==> {
                &&& step == SendStepView::<W>::Call(SendCallView::Shutdown { code })
                &&& t == v
            }
            &&& v.reset is None && v.stop is Some ==> {
                &&& step == SendStepView::<W>::Done(v.blocked)
                &&& t == (SendView { stop: None, blocked: None, ..v })
            }
            &&& v.reset is None && v.stop is None ==> match v.priority {
                Some(priority) => {
                    &&& step == SendStepView::<W>::Call(SendCallView::Priority { priority })
                    &&& t == (SendView { priority: None, ..v })
                },
                None => v.queued.len() > 0 ==> {
                    &&& step == SendStepView::<W>::Call(SendCallView::Send { chunk: v.queued[0] })
                    &&& t == (SendView { queued: v.queued.skip(1), ..v })
                },
            }
            &&& v.reset is None && v.stop is None && v.priority is None && v.queued.len() == 0
                ==> {
                &&& t == v
                &&& step == if v.fin {
                    SendStepView::<W>::Call(SendCallView::Finish)
                } else {
                    SendStepView::<W>::Call(SendCallView::Capacity)
                }
            }
        }),
{
    lemma_chunks_go_in_turn(v);
    assert(Seq::<u8>::empty() + joined(v.queued) =~= joined(v.queued));
}

/// Law: whatever part of a chunk the connection takes, nothing queued is lost: what
/// it took, then what it is handed next, then what is still queued are together the
/// chunk followed by everything that was queued, in the same order. A chunk that was
/// taken whole is followed by the next one, and only then by a FIN; one that was not
/// waits at the front until the stream is writable.
pub proof fn lemma_nothing_queued_is_lost<W>(v: SendView<W>, chunk: Seq<u8>, n: nat)
    ensures
        ({
            let (t, step) = sent(v, chunk, n);
            let taken = if n < chunk.len() {
                chunk.take(n as int)
            } else {
                chunk
            };
            &&& taken + handed_out(step) + joined(t.queued) == chunk + joined(v.queued)
            &&& t == (SendView { queued: t.queued, ..v })
            &&& n < chunk.len() ==> {
                &&& step == SendStepView::<W>::Call(SendCallView::Writable)
                &&& t.queued == seq![chunk.skip(n as int)] + v.queued
            }
            &&& n >= chunk.len() && v.queued.len() > 0 ==> {
                &&& step == SendStepView::<W>::Call(SendCallView::Send { chunk: v.queued[0] })
                &&& t.queued == v.queued.skip(1)
            }
            &&& n >= chunk.len() && v.queued.len() == 0 ==> {
                &&& t.queued.len() == 0
                &&& step == if v.fin {
                    SendStepView::<W>::Call(SendCallView::Finish)
                } else {
                    SendStepView::<W>::Call(SendCallView::Capacity)
                }
            }
        }),
{
    if n < chunk.len() {
        lemma_joined_front(v.queued, chunk.skip(n as int));
        assert(chunk.take(n as int) + Seq::<u8>::empty() + (chunk.skip(n as int) + joined(
            v.queued,
        )) =~= chunk + joined(v.queued));
    } else {
        lemma_chunks_go_in_turn(v);
        let (t, step) = next_chunk(v);
        assert(chunk + handed_out(step) + joined(t.queued) =~= chunk + (handed_out(step) + joined(
            t.queued,
        )));
    }
}

/// Law: what follows once the stream is writable again: a FIN only where everything
/// before it was sent.
pub proof fn lemma_after_writable<W>(v: SendView<W>)
    ensures
        after_queue(v) == if v.queued.len() == 0 && v.fin {
            SendStepView::<W>::Call(SendCallView::Finish)
        } else {
            SendStepView::<W>::Call(SendCallView::Capacity)
        },
{
}

/// Law: when a flush ends, whoever waits is woken once, and nothing else changes.
/// When the peer stops the stream, its code is kept and no more progress is made.
pub proof fn lemma_flush_ends<W>(v: SendView<W>, code: u64)
    ensures
        woken(v) == (SendView { blocked: None, ..v }, SendStepView::<W>::Done(v.blocked)),
        stopped(v, code) == (
            SendView { stop: Some(code), closed: true, blocked: None, ..v },
            SendStepView::<W>::Done(v.blocked),
        ),
{
}

/// The bytes that the connection takes over a run of sends, with the stream and the
/// step after that: `replies` tells how many bytes it takes of each chunk that it is
/// handed.
pub open spec fn taken_over<W>(
    v: SendView<W>,
    step: SendStepView<W>,
    replies: Seq<nat>,
) -> (Seq<u8>, SendView<W>, SendStepView<W>)
    decreases replies.len(),
{
    match step {
        SendStepView::Call(SendCallView::Send { chunk }) if replies.len() > 0 => {
            let n = replies[0];
            let (t, next) = sent(v, chunk, n);
            let (more, u, last) = taken_over(t, next, replies.drop_first());
            (
                (if n < chunk.len() {
                    chunk.take(n as int)
                } else {
                    chunk
                }) + more,
                u,
                last,
            )
        },
        _ => (Seq::empty(), v, step),
    }
}

proof fn lemma_taken_over<W>(v: SendView<W>, step: SendStepView<W>, replies: Seq<nat>)
    ensures
        ({
            let (taken, u, last) = taken_over(v, step, replies);
            &&& taken + handed_out(last) + joined(u.queued) == handed_out(step) + joined(v.queued)
            &&& u == (SendView { queued: u.queued, ..v })
        }),
    decreases replies.len(),
{
    match step {
        SendStepView::Call(SendCallView::Send { chunk }) if replies.len() > 0 => {
            let n = replies[0];
            let (t, next) = sent(v, chunk, n);
            lemma_nothing_queued_is_lost(v, chunk, n);
            lemma_taken_over(t, next, replies.drop_first());
            let (more, u, last) = taken_over(t, next, replies.drop_first());
            let first = if n < chunk.len() {
                chunk.take(n as int)
            } else {
                chunk
            };
            assert(first + more + handed_out(last) + joined(u.queued) =~= first + (more
                + handed_out(last) + joined(u.queued)));
            assert(first + handed_out(next) + joined(t.queued) =~= first + (handed_out(next)
                + joined(t.queued)));
        },
        _ => {
            assert(Seq::<u8>::empty() + handed_out(step) + joined(v.queued) =~= handed_out(step)
                + joined(v.queued));
        },
    }
}

/// Law: over a whole flush, the bytes that the connection took, the chunk that it
/// was handed last and the bytes still queued are the bytes that were queued, in
/// order.
pub proof fn lemma_flush_keeps_bytes<W>(v: SendView<W>, replies: Seq<nat>)
    ensures
        ({
            let (t, step) = flush_start(v);
            let (taken, u, last) = taken_over(t, step, replies);
            taken + handed_out(last) + joined(u.queued) == joined(v.queued)
        }),
{
    let (t, step) = flush_start(v);
    lemma_flush_begins(v);
    lemma_taken_over(t, step, replies);
}

/// Law: a connection that takes every chunk whole is handed everything that is
/// queued, chunk by chunk, and then the FIN of a finished stream.
pub proof fn lemma_flush_sends_everything<W>(v: SendView<W>, replies: Seq<nat>)
    requires
        replies.len() == v.queued.len(),
        forall|i: int| 0 <= i < replies.len() ==> replies[i] >= (#[trigger] v.queued[i]).len(),
    ensures
        ({
            let (t, step) = next_chunk(v);
            let (taken, u, last) = taken_over(t, step, replies);
            &&& taken == joined(v.queued)
            &&& u.queued.len() == 0
            &&& last == if v.fin {
                SendStepView::<W>::Call(SendCallView::Finish)
            } else {
                SendStepView::<W>::Call(SendCallView::Capacity)
            }
        }),
    decreases v.queued.len(),
{
    lemma_chunks_go_in_turn(v);
    let (t, step) = next_chunk(v);
    if v.queued.len() > 0 {
        let chunk = v.queued[0];
        lemma_nothing_queued_is_lost(t, chunk, replies[0]);
        assert(t.queued =~= v.queued.drop_first());
        assert forall|i: int| 0 <= i < replies.drop_first().len() implies replies.drop_first()[i]
            >= (#[trigger] t.queued[i]).len() by {
            assert(v.queued[i + 1] == t.queued[i]);
        }
        lemma_flush_sends_everything(t, replies.drop_first());
        lemma_chunks_go_in_turn(t);
    } else {
        assert(joined(v.queued) =~= Seq::<u8>::empty());
    }
}

/// Law: a write goes as far as the capacity, and what it takes of the buffer goes to
/// the end of the queue. What a stream fails with is its reset, else the stop of the
/// peer, else that it was finished.
pub proof fn lemma_write<W>(v: SendView<W>, buf: Seq<u8>)
    ensures
        write_len(v, buf.len()) <= buf.len(),
        write_len(v, buf.len()) <= v.capacity,
        write_len(v, buf.len()) == buf.len() || write_len(v, buf.len()) == v.capacity,
        ({
            let n = write_len(v, buf.len()) as int;
            let t = after_write(v, buf.take(n));
            &&& t.queued == v.queued.push(buf.take(n))
            &&& joined(t.queued) + buf.skip(n) == joined(v.queued) + buf
            &&& t.capacity == v.capacity - n
            &&& t == (SendView { queued: t.queued, capacity: t.capacity, ..v })
        }),
        v.reset matches Some(code) ==> write_failure(v) == Some(StreamError::Reset(code))
            && send_failure(v) == Some(StreamError::Reset(code)),
        v.reset is None && v.stop is Some ==> write_failure(v) == Some(
            StreamError::Stop(v.stop->0),
        ) && send_failure(v) == Some(StreamError::Stop(v.stop->0)),
        v.reset is None && v.stop is None ==> send_failure(v) is None && write_failure(v) == if v.fin {
            Some(StreamError::Closed)
        } else {
            None
        },
{
    let n = write_len(v, buf.len()) as int;
    lemma_joined_push(v.queued, buf.take(n));
    assert(joined(v.queued) + buf.take(n) + buf.skip(n) =~= joined(v.queued) + buf);
}

/// Law: whether the peer stopped a stream shows in its state: its code waits to be
/// flushed, or the stream ended without the application having ended it.
pub proof fn lemma_stopped_shows<W>(v: SendView<W>)
    ensures
        stopped_by_peer(v) == (v.reset is None && (v.stop is Some || (v.closed && !v.fin))),
        v.stop is Some && v.reset is None ==> stopped_by_peer(v),
{
}

} // verus!
