//! The receiving half of a stream.

use std::collections::VecDeque;

use bytes::{Bytes, BytesMut};
use vstd::pervasive::cloned;
use vstd::prelude::*;

use super::connection::ConnectionClosed;
use super::error::StreamError;
use super::queue::{chunks, joined, lemma_joined_front, lemma_joined_push};
use super::send::ShutdownReply;
use crate::buffer::{as_slice, contents, put_slice, written};

verus! {

/// "recv" in ASCII: the code that a stream is stopped with when it is dropped
/// before its end.
pub const DROP_CODE: u64 = 0x72656376;

/// The size of the first buffer to read into.
pub const FIRST_BUFFER: usize = 64;

/// The size that the buffers stop growing at.
pub const LARGEST_BUFFER: usize = 32768;

/// The receiving half of a stream. `W` wakes the application.
pub struct RecvState<W> {
    id: u64,
    // Data that the application has not read yet.
    queued: VecDeque<Bytes>,
    // The amount of data to take from the connection.
    max: usize,
    // Woken when there is something to read.
    blocked: Option<W>,
    // The peer finished the stream.
    fin: bool,
    // The peer reset the stream.
    reset: Option<u64>,
    // The application stopped the stream.
    stop: Option<u64>,
    // What is left of the buffer to read into.
    room: usize,
    // The size of that buffer. It doubles each time, up to a maximum.
    buf_capacity: usize,
    // The end was received, or the stop was sent.
    closed: bool,
}

/// The state of a [`RecvState`].
pub struct RecvView<W> {
    /// The stream.
    pub id: u64,
    /// The chunks that the application has not read.
    pub queued: Seq<Seq<u8>>,
    /// How many bytes to take from the connection.
    pub max: usize,
    /// Who waits for the stream.
    pub blocked: Option<W>,
    /// Whether the peer finished the stream.
    pub fin: bool,
    /// The code that the peer reset the stream with.
    pub reset: Option<u64>,
    /// The code that the application stopped the stream with.
    pub stop: Option<u64>,
    /// What is left of the buffer to read into.
    pub room: usize,
    /// The size of that buffer.
    pub buf_capacity: usize,
    /// Whether the end was received, or the stop was sent.
    pub closed: bool,
}

/// What to do next to flush the stream.
#[derive(Debug)]
#[must_use]
pub enum RecvStep<W> {
    /// Shut the receiving direction down with this code, and hand the reply to
    /// [`RecvState::on_shutdown`].
    Shutdown { code: u64 },
    /// Receive at most `max` bytes, and hand the reply to [`RecvState::on_recv`],
    /// with `changed`.
    Recv { max: usize, changed: bool },
    /// The flush is over: wake the application, if it waits.
    Done(Option<W>),
}

/// The reply to receiving on a stream. `E` is an error that ends the connection.
#[derive(Debug)]
pub enum RecvReply<E> {
    /// These bytes; with the FIN, where `fin`.
    Data { data: Bytes, fin: bool },
    /// Nothing has arrived; `finished` tells whether the stream is at its end.
    Blocked { finished: bool },
    /// The peer reset the stream with this code.
    Reset(u64),
    /// The connection failed.
    Failed(E),
}

/// The answer to a read.
pub enum ReadOutcome {
    /// The stream was reset or stopped.
    Failed(StreamError),
    /// These bytes.
    Chunk(Seq<u8>),
    /// The end of the stream.
    End,
    /// Nothing yet.
    Wait,
}

/// What a read of at most `max` bytes finds.
pub open spec fn read_outcome<W>(v: RecvView<W>, max: usize) -> ReadOutcome {
    if v.reset is Some {
        ReadOutcome::Failed(StreamError::Reset(v.reset->0))
    } else if v.stop is Some {
        ReadOutcome::Failed(StreamError::Stop(v.stop->0))
    } else if v.queued.len() > 0 {
        ReadOutcome::Chunk(
            if v.queued[0].len() > max {
                v.queued[0].take(max as int)
            } else {
                v.queued[0]
            },
        )
    } else if v.fin {
        ReadOutcome::End
    } else if max == 0 {
        ReadOutcome::Chunk(Seq::empty())
    } else {
        ReadOutcome::Wait
    }
}

/// The chunks left after a read of at most `max` bytes.
pub open spec fn after_read(queued: Seq<Seq<u8>>, max: usize) -> Seq<Seq<u8>> {
    if queued.len() == 0 {
        queued
    } else if queued[0].len() > max {
        seq![queued[0].skip(max as int)] + queued.drop_first()
    } else {
        queued.drop_first()
    }
}

/// The size of the buffer that follows one of size `n`.
pub open spec fn next_buffer(n: usize) -> usize {
    if n * 2 <= LARGEST_BUFFER {
        (n * 2) as usize
    } else {
        LARGEST_BUFFER
    }
}

/// The stream made all the progress it can: whoever waits is woken.
pub open spec fn woken<W>(v: RecvView<W>) -> (RecvView<W>, RecvStep<W>) {
    (RecvView { blocked: None, ..v }, RecvStep::Done(v.blocked))
}

/// Receive more, as far as the application asked for it. Where nothing was
/// received there is no reason to wake it.
pub open spec fn next_recv<W>(v: RecvView<W>, changed: bool) -> (RecvView<W>, RecvStep<W>) {
    if v.max > 0 {
        let (room, buf_capacity) = if v.room == 0 {
            (next_buffer(v.buf_capacity), next_buffer(v.buf_capacity))
        } else {
            (v.room, v.buf_capacity)
        };
        let max = if room <= v.max {
            room
        } else {
            v.max
        };
        (RecvView { room, buf_capacity, ..v }, RecvStep::Recv { max, changed })
    } else if changed {
        woken(v)
    } else {
        (v, RecvStep::Done(None))
    }
}

/// The start of a flush.
pub open spec fn flush_start<W>(v: RecvView<W>) -> (RecvView<W>, RecvStep<W>) {
    if v.reset is Some {
        woken(v)
    } else if v.stop is Some {
        (v, RecvStep::Shutdown { code: v.stop->0 })
    } else {
        next_recv(v, false)
    }
}

/// The state once `data` was received.
pub open spec fn after_data<W>(v: RecvView<W>, data: Seq<u8>) -> RecvView<W> {
    RecvView {
        queued: v.queued.push(data),
        max: (v.max - data.len()) as usize,
        room: (v.room - data.len()) as usize,
        ..v
    }
}

/// The state at the end of the stream.
pub open spec fn finished<W>(v: RecvView<W>) -> RecvView<W> {
    RecvView { fin: true, closed: true, ..v }
}

impl<W> View for RecvState<W> {
    type V = RecvView<W>;

    closed spec fn view(&self) -> RecvView<W> {
        RecvView {
            id: self.id,
            queued: chunks(self.queued@),
            max: self.max,
            blocked: self.blocked,
            fin: self.fin,
            reset: self.reset,
            stop: self.stop,
            room: self.room,
            buf_capacity: self.buf_capacity,
            closed: self.closed,
        }
    }
}

impl<W> RecvState<W> {
    /// A stream that nothing was received on.
    pub fn new(id: u64) -> (r: RecvState<W>)
        ensures
            r@ == (RecvView::<W> {
                id,
                queued: Seq::empty(),
                max: 0,
                blocked: None,
                fin: false,
                reset: None,
                stop: None,
                room: FIRST_BUFFER,
                buf_capacity: FIRST_BUFFER,
                closed: false,
            }),
    {
        let r = RecvState {
            id,
            queued: VecDeque::new(),
            max: 0,
            blocked: None,
            fin: false,
            reset: None,
            stop: None,
            room: FIRST_BUFFER,
            buf_capacity: FIRST_BUFFER,
            closed: false,
        };
        assert(r@.queued =~= Seq::<Seq<u8>>::empty());
        r
    }

    /// The QUIC stream ID.
    pub fn id(&self) -> (r: u64)
        ensures
            r == self@.id,
    {
        self.id
    }

    /// Read a chunk of at most `max` bytes; `None` inside is the end of the
    /// stream. `None` where the caller has to wait: then the driver is to be told
    /// that more is wanted.
    pub fn poll_read_chunk(&mut self, waker: &W, max: usize) -> (r: Option<
        Result<Option<Bytes>, StreamError>,
    >) where W: Clone
        ensures
            match read_outcome(old(self)@, max) {
                ReadOutcome::Failed(failure) => {
                    &&& r == Some(Err::<Option<Bytes>, StreamError>(failure))
                    &&& final(self)@ == old(self)@
                },
                ReadOutcome::Chunk(data) => {
                    &&& r matches Some(Ok(Some(chunk)))
                    &&& contents(chunk) == data
                    &&& final(self)@ == (RecvView {
                        queued: after_read(old(self)@.queued, max),
                        ..old(self)@
                    })
                },
                ReadOutcome::End => {
                    &&& r == Some(Ok::<Option<Bytes>, StreamError>(None))
                    &&& final(self)@ == old(self)@
                },
                ReadOutcome::Wait => {
                    &&& r is None
                    &&& final(self)@.blocked matches Some(w) && cloned(*waker, w)
                    &&& final(self)@ == (RecvView {
                        max,
                        blocked: final(self)@.blocked,
                        ..old(self)@
                    })
                },
            },
    {
        if let Some(code) = self.reset {
            return Some(Err(StreamError::Reset(code)));
        }
        if let Some(code) = self.stop {
            return Some(Err(StreamError::Stop(code)));
        }
        if let Some(mut chunk) = self.queued.pop_front() {
            assert(self@.queued =~= old(self)@.queued.drop_first());
            if chunk.len() > max {
                let head = chunk.split_to(max);
                self.queued.push_front(chunk);
                assert(self@.queued =~= after_read(old(self)@.queued, max));
                return Some(Ok(Some(head)));
            }
            return Some(Ok(Some(chunk)));
        }
        if self.fin {
            return Some(Ok(None));
        }
        if max == 0 {
            return Some(Ok(Some(Bytes::new())));
        }
        self.max = max;
        self.blocked = Some(waker.clone());
        None
    }

    /// Read a chunk on a connection that may have ended: the state of the stream
    /// goes first.
    pub fn poll_read(&mut self, connection: &mut ConnectionClosed<W>, waker: &W, max: usize) -> (r:
        Option<Result<Option<Bytes>, StreamError>>) where W: Clone
        ensures
            match read_outcome(old(self)@, max) {
                ReadOutcome::Failed(failure) => {
                    &&& r == Some(Err::<Option<Bytes>, StreamError>(failure))
                    &&& final(self)@ == old(self)@
                    &&& *final(connection) == *old(connection)
                },
                ReadOutcome::Chunk(data) => {
                    &&& r matches Some(Ok(Some(chunk)))
                    &&& contents(chunk) == data
                    &&& final(self)@ == (RecvView {
                        queued: after_read(old(self)@.queued, max),
                        ..old(self)@
                    })
                    &&& *final(connection) == *old(connection)
                },
                ReadOutcome::End => {
                    &&& r == Some(Ok::<Option<Bytes>, StreamError>(None))
                    &&& final(self)@ == old(self)@
                    &&& *final(connection) == *old(connection)
                },
                ReadOutcome::Wait => {
                    &&& final(self)@.blocked matches Some(w) && cloned(*waker, w)
                    &&& final(self)@ == (RecvView {
                        max,
                        blocked: final(self)@.blocked,
                        ..old(self)@
                    })
                    &&& old(connection)@.err matches Some(e) ==> {
                        &&& r == Some(Err::<Option<Bytes>, StreamError>(StreamError::Connection(e)))
                        &&& *final(connection) == *old(connection)
                    }
                    &&& old(connection)@.err is None ==> {
                        &&& r is None
                        &&& final(connection)@.err is None
                        &&& final(connection)@.wakers.len() == old(connection)@.wakers.len() + 1
                        &&& final(connection)@.wakers.drop_last() == old(connection)@.wakers
                        &&& cloned(*waker, final(connection)@.wakers.last())
                    }
                },
            },
    {
        if let Some(res) = self.poll_read_chunk(waker, max) {
            return Some(res);
        }
        match connection.poll(waker) {
            Some(e) => Some(Err(StreamError::Connection(e))),
            None => None,
        }
    }

    /// Whether the stream is over: everything up to the FIN was read, the peer
    /// reset it, or we stopped it. `None` where the caller has to wait.
    pub fn poll_closed(&mut self, waker: &W) -> (r: Option<Result<(), StreamError>>) where W: Clone
        ensures
            ({
                let v = old(self)@;
                if v.fin && v.queued.len() == 0 {
                    r == Some(Ok::<(), StreamError>(())) && final(self)@ == v
                } else if v.reset is Some {
                    r == Some(Err::<(), StreamError>(StreamError::Reset(v.reset->0)))
                        && final(self)@ == v
                } else if v.stop is Some {
                    r == Some(Err::<(), StreamError>(StreamError::Stop(v.stop->0))) && final(self)@
                        == v
                } else {
                    &&& r is None
                    &&& final(self)@.blocked matches Some(w) && cloned(*waker, w)
                    &&& final(self)@ == (RecvView { blocked: final(self)@.blocked, ..v })
                }
            }),
    {
        if self.fin && self.queued.len() == 0 {
            Some(Ok(()))
        } else if let Some(code) = self.reset {
            Some(Err(StreamError::Reset(code)))
        } else if let Some(code) = self.stop {
            Some(Err(StreamError::Stop(code)))
        } else {
            self.blocked = Some(waker.clone());
            None
        }
    }

    /// End the flush, and hand out who waits for it.
    fn wake(&mut self) -> (r: RecvStep<W>)
        ensures
            (final(self)@, r) == woken(old(self)@),
    {
        RecvStep::Done(self.blocked.take())
    }

    /// Receive more, as far as the application asked for it.
    fn advance(&mut self, changed: bool) -> (r: RecvStep<W>)
        ensures
            (final(self)@, r) == next_recv(old(self)@, changed),
    {
        if self.max > 0 {
            if self.room == 0 {
                self.buf_capacity = if self.buf_capacity <= LARGEST_BUFFER / 2 {
                    self.buf_capacity * 2
                } else {
                    LARGEST_BUFFER
                };
                self.room = self.buf_capacity;
            }
            let max: usize = if self.room <= self.max {
                self.room
            } else {
                self.max
            };
            RecvStep::Recv { max, changed }
        } else if changed {
            self.wake()
        } else {
            RecvStep::Done(None)
        }
    }

    /// Start to flush the stream.
    pub fn flush(&mut self) -> (r: RecvStep<W>)
        ensures
            (final(self)@, r) == flush_start(old(self)@),
    {
        if self.reset.is_some() {
            return self.wake();
        }
        if let Some(code) = self.stop {
            return RecvStep::Shutdown { code };
        }
        self.advance(false)
    }

    /// The reply to [`RecvStep::Shutdown`]. Stopping one stream never ends the
    /// connection because the stream was already gone.
    pub fn on_shutdown<E>(&mut self, reply: ShutdownReply<E>) -> (r: Result<RecvStep<W>, E>)
        ensures
            match reply {
                ShutdownReply::Failed(e) => r == Err::<RecvStep<W>, E>(e) && final(self)@ == old(
                    self,
                )@,
                _ => r matches Ok(step) && (final(self)@, step) == woken(
                    RecvView { closed: true, ..old(self)@ },
                ),
            },
    {
        match reply {
            ShutdownReply::Done | ShutdownReply::Gone => {},
            ShutdownReply::Failed(e) => {
                return Err(e);
            },
        }
        self.closed = true;
        Ok(self.wake())
    }

    /// The reply to [`RecvStep::Recv`], with the `changed` of that step. The
    /// connection hands out no more than was asked for.
    pub fn on_recv<E>(&mut self, changed: bool, reply: RecvReply<E>) -> (r: Result<RecvStep<W>, E>)
        requires
            reply matches RecvReply::Data { data, fin } ==> contents(data).len() <= old(self)@.max
                && contents(data).len() <= old(self)@.room,
        ensures
            match reply {
                RecvReply::Data { data, fin } => {
                    let next = after_data(old(self)@, contents(data));
                    &&& r matches Ok(step)
                    &&& (final(self)@, step) == (if fin {
                        woken(finished(next))
                    } else {
                        next_recv(next, true)
                    })
                },
                RecvReply::Blocked { finished: at_end } => {
                    &&& r matches Ok(step)
                    &&& (final(self)@, step) == (if at_end {
                        woken(finished(old(self)@))
                    } else if changed {
                        woken(old(self)@)
                    } else {
                        (old(self)@, RecvStep::Done(None))
                    })
                },
                RecvReply::Reset(code) => {
                    &&& r matches Ok(step)
                    &&& (final(self)@, step) == woken(
                        RecvView { reset: Some(code), closed: true, ..old(self)@ },
                    )
                },
                RecvReply::Failed(e) => r == Err::<RecvStep<W>, E>(e) && final(self)@ == old(self)@,
            },
    {
        match reply {
            RecvReply::Data { data, fin } => {
                let n: usize = data.len();
                self.queued.push_back(data);
                assert(self@.queued =~= old(self)@.queued.push(contents(data)));
                self.max = self.max - n;
                self.room = self.room - n;
                if fin {
                    self.fin = true;
                    self.closed = true;
                    return Ok(self.wake());
                }
                Ok(self.advance(true))
            },
            RecvReply::Blocked { finished } => {
                if finished {
                    self.fin = true;
                    self.closed = true;
                    return Ok(self.wake());
                }
                if changed {
                    Ok(self.wake())
                } else {
                    Ok(RecvStep::Done(None))
                }
            },
            RecvReply::Reset(code) => {
                self.reset = Some(code);
                self.closed = true;
                Ok(self.wake())
            },
            RecvReply::Failed(e) => Err(e),
        }
    }

    /// Whether the end was received, or the stop was sent.
    pub fn is_closed(&self) -> (r: bool)
        ensures
            r == self@.closed,
    {
        self.closed
    }

    /// Tell the peer to stop sending, with this code. The driver is to be told.
    pub fn stop(&mut self, code: u64)
        ensures
            final(self)@ == (RecvView { stop: Some(code), ..old(self)@ }),
    {
        self.stop = Some(code);
    }

    /// The application let go of the stream: it is stopped, unless it is over
    /// already. Tells whether the driver is to be told.
    pub fn on_drop(&mut self) -> (r: bool)
        ensures
            r == (!old(self)@.fin && old(self)@.reset is None && old(self)@.stop is None),
            final(self)@ == (if r {
                RecvView { stop: Some(DROP_CODE), ..old(self)@ }
            } else {
                old(self)@
            }),
    {
        if !self.fin && self.reset.is_none() && self.stop.is_none() {
            self.stop = Some(DROP_CODE);
            return true;
        }
        false
    }
}

/// Reading a stream to its end, or to a limit.
pub struct ReadAll {
    buf: BytesMut,
    limit: usize,
    done: bool,
}

impl ReadAll {
    /// The bytes read so far.
    pub closed spec fn read(&self) -> Seq<u8> {
        written(self.buf)
    }

    /// How many more may be read.
    pub closed spec fn remaining(&self) -> usize {
        self.limit
    }

    /// Whether the stream gave no more.
    pub closed spec fn ended(&self) -> bool {
        self.done
    }

    /// Nothing was read yet, and at most `max` bytes will be.
    pub fn new(max: usize) -> (r: ReadAll)
        ensures
            r.read() == Seq::<u8>::empty(),
            r.remaining() == max,
            !r.ended(),
    {
        ReadAll { buf: BytesMut::new(), limit: max, done: false }
    }

    /// The most to read next; `None` when reading is over.
    pub fn wanted(&self) -> (r: Option<usize>)
        ensures
            r == (if self.remaining() > 0 && !self.ended() {
                Some(self.remaining())
            } else {
                None
            }),
    {
        if self.limit > 0 && !self.done {
            Some(self.limit)
        } else {
            None
        }
    }

    /// Take what a read gave. The end of the stream and an empty chunk both end
    /// the reading.
    pub fn on_chunk(&mut self, chunk: Option<Bytes>)
        requires
            chunk matches Some(b) ==> contents(b).len() <= old(self).remaining(),
        ensures
            match chunk {
                Some(b) if contents(b).len() > 0 => {
                    &&& final(self).read() == old(self).read() + contents(b)
                    &&& final(self).remaining() == old(self).remaining() - contents(b).len()
                    &&& final(self).ended() == old(self).ended()
                },
                _ => {
                    &&& final(self).read() == old(self).read()
                    &&& final(self).remaining() == old(self).remaining()
                    &&& final(self).ended()
                },
            },
    {
        match chunk {
            Some(b) => {
                if b.is_empty() {
                    self.done = true;
                } else {
                    put_slice(&mut self.buf, as_slice(&b));
                    self.limit = self.limit - b.len();
                }
            },
            None => {
                self.done = true;
            },
        }
    }

    /// Everything that was read.
    pub fn into_bytes(self) -> (r: Bytes)
        ensures
            contents(r) == self.read(),
    {
        self.buf.freeze()
    }
}

/// What a read hands out and what is left are together what was queued, in the
/// same order.
pub proof fn lemma_read_keeps_order<W>(v: RecvView<W>, max: usize)
    requires
        v.reset is None,
        v.stop is None,
    ensures
        read_outcome(v, max) matches ReadOutcome::Chunk(data) ==> {
            &&& data.len() <= max
            &&& data + joined(after_read(v.queued, max)) == joined(v.queued)
        },
        read_outcome(v, max) is End ==> v.fin && joined(v.queued).len() == 0,
{
    if v.queued.len() > 0 {
        let chunk = v.queued[0];
        let rest = v.queued.drop_first();
        if chunk.len() > max {
            lemma_joined_front(rest, chunk.skip(max as int));
            assert(chunk.take(max as int) + (chunk.skip(max as int) + joined(rest)) =~= chunk
                + joined(rest));
        }
    } else {
        assert(joined(v.queued) =~= Seq::<u8>::empty());
        assert(Seq::<u8>::empty() + joined(v.queued) =~= joined(v.queued));
    }
}

/// What is received goes behind everything that was received before, and no more
/// is taken than the application asked for.
pub proof fn lemma_receive_appends<W>(v: RecvView<W>, data: Seq<u8>)
    requires
        data.len() <= v.max,
        data.len() <= v.room,
    ensures
        joined(after_data(v, data).queued) == joined(v.queued) + data,
        after_data(v, data).max + data.len() == v.max,
{
    lemma_joined_push(v.queued, data);
}

/// A step never asks for more than the application wants or the buffer holds.
pub proof fn lemma_receive_within_limits<W>(v: RecvView<W>, changed: bool)
    requires
        v.buf_capacity > 0,
    ensures
        next_recv(v, changed).1 matches RecvStep::Recv { max, changed: _ } ==> {
            &&& 0 < max <= next_recv(v, changed).0.max
            &&& max <= next_recv(v, changed).0.room
            &&& next_recv(v, changed).0.buf_capacity > 0
        },
{
}

/// Law: what a read finds. A stream that was reset or stopped fails with that code.
/// Otherwise data that has arrived is handed out before anything else, no more than
/// is asked for and as much of the first chunk as that; then the end is reported;
/// and only where neither has come does the caller wait.
pub proof fn lemma_read_finds<W>(v: RecvView<W>, max: usize)
    ensures
        v.reset matches Some(code) ==> read_outcome(v, max) == ReadOutcome::Failed(
            StreamError::Reset(code),
        ),
        v.reset is None && v.stop is Some ==> read_outcome(v, max) == ReadOutcome::Failed(
            StreamError::Stop(v.stop->0),
        ),
        v.reset is None && v.stop is None && v.queued.len() > 0 ==> {
            let first = v.queued[0];
            &&& read_outcome(v, max) matches ReadOutcome::Chunk(data)
            &&& data.len() == first.len() || data.len() == max
            &&& data.len() <= first.len() && data.len() <= max
            &&& data == first.take(data.len() as int)
            &&& data + joined(after_read(v.queued, max)) == joined(v.queued)
            &&& after_read(v.queued, max).len() == if data.len() < first.len() {
                v.queued.len()
            } else {
                (v.queued.len() - 1) as nat
            }
        },
        v.reset is None && v.stop is None && v.queued.len() == 0 ==> {
            &&& after_read(v.queued, max).len() == 0
            &&& v.fin ==> read_outcome(v, max) is End
            &&& !v.fin && max > 0 ==> read_outcome(v, max) is Wait
            &&& !v.fin && max == 0 ==> read_outcome(v, max) == ReadOutcome::Chunk(Seq::empty())
        },
{
    if v.reset is None && v.stop is None && v.queued.len() > 0 {
        lemma_read_keeps_order(v, max);
        let first = v.queued[0];
        assert(first.take(first.len() as int) =~= first);
    }
}

/// Law: a flush asks the connection for data wherever the application wants some,
/// with a buffer that has room. A stream that the peer reset ends it, and one that
/// the application stopped is shut down with its code.
pub proof fn lemma_flush_asks<W>(v: RecvView<W>, changed: bool)
    requires
        v.buf_capacity > 0,
    ensures
        v.reset is Some ==> flush_start(v) == (
            RecvView { blocked: None, ..v },
            RecvStep::<W>::Done(v.blocked),
        ),
        v.reset is None && v.stop is Some ==> flush_start(v) == (
            v,
            RecvStep::<W>::Shutdown { code: v.stop->0 },
        ),
        v.reset is None && v.stop is None ==> flush_start(v) == next_recv(v, false),
        v.max > 0 ==> {
            let (t, step) = next_recv(v, changed);
            &&& step matches RecvStep::Recv { max, changed: c }
            &&& c == changed
            &&& 0 < max <= v.max && max <= t.room
            &&& max == v.max || max == t.room
            &&& v.room > 0 ==> t == v
            &&& v.room == 0 ==> {
                &&& t.room == t.buf_capacity
                &&& t.buf_capacity == if v.buf_capacity <= 16384 {
                    2 * v.buf_capacity
                } else {
                    32768
                }
            }
            &&& t == (RecvView { room: t.room, buf_capacity: t.buf_capacity, ..v })
        },
        v.max == 0 && changed ==> next_recv(v, changed) == (
            RecvView { blocked: None, ..v },
            RecvStep::<W>::Done(v.blocked),
        ),
        v.max == 0 && !changed ==> next_recv(v, changed) == (v, RecvStep::<W>::Done(None)),
{
}

/// Law: what is received goes to the end of the queue and counts against what the
/// application asked for. The end of the stream is kept with what came before it,
/// and whoever waits is woken once.
pub proof fn lemma_received<W>(v: RecvView<W>, data: Seq<u8>)
    requires
        data.len() <= v.max,
        data.len() <= v.room,
    ensures
        ({
            let t = after_data(v, data);
            &&& t.queued == v.queued.push(data)
            &&& joined(t.queued) == joined(v.queued) + data
            &&& t.max == v.max - data.len()
            &&& t.room == v.room - data.len()
            &&& t == (RecvView { queued: t.queued, max: t.max, room: t.room, ..v })
        }),
        finished(v) == (RecvView { fin: true, closed: true, ..v }),
        woken(v) == (RecvView { blocked: None, ..v }, RecvStep::<W>::Done(v.blocked)),
{
    lemma_joined_push(v.queued, data);
}

/// Something that happens to the queue of a stream.
pub enum QueueEvent {
    /// These bytes are received.
    Received(Seq<u8>),
    /// The application reads at most so many bytes.
    Read(usize),
}

/// What the application reads over a run of events, and the chunks left after it.
pub open spec fn read_over(queued: Seq<Seq<u8>>, events: Seq<QueueEvent>) -> (
    Seq<u8>,
    Seq<Seq<u8>>,
)
    decreases events.len(),
{
    if events.len() == 0 {
        (Seq::empty(), queued)
    } else {
        match events[0] {
            QueueEvent::Received(data) => read_over(queued.push(data), events.drop_first()),
            QueueEvent::Read(max) => {
                let (more, left) = read_over(after_read(queued, max), events.drop_first());
                if queued.len() == 0 {
                    (more, left)
                } else if queued[0].len() > max {
                    (queued[0].take(max as int) + more, left)
                } else {
                    (queued[0] + more, left)
                }
            },
        }
    }
}

/// What is received over a run of events.
pub open spec fn received_over(events: Seq<QueueEvent>) -> Seq<u8>
    decreases events.len(),
{
    if events.len() == 0 {
        Seq::empty()
    } else {
        match events[0] {
            QueueEvent::Received(data) => data + received_over(events.drop_first()),
            QueueEvent::Read(_) => received_over(events.drop_first()),
        }
    }
}

/// Law: however reads and arrivals alternate, what the application reads and what is
/// left are together what was there and what was received, in order.
pub proof fn lemma_reads_give_what_was_received(
    queued: Seq<Seq<u8>>,
    events: Seq<QueueEvent>,
)
    ensures
        ({
            let (read, left) = read_over(queued, events);
            read + joined(left) == joined(queued) + received_over(events)
        }),
    decreases events.len(),
{
    let (read, left) = read_over(queued, events);
    if events.len() == 0 {
        assert(read + joined(left) =~= joined(queued) + received_over(events));
    } else {
        let rest = events.drop_first();
        match events[0] {
            QueueEvent::Received(data) => {
                lemma_joined_push(queued, data);
                lemma_reads_give_what_was_received(queued.push(data), rest);
                assert(joined(queued) + data + received_over(rest) =~= joined(queued) + (data
                    + received_over(rest)));
            },
            QueueEvent::Read(max) => {
                let next = after_read(queued, max);
                lemma_reads_give_what_was_received(next, rest);
                let more = read_over(next, rest).0;
                if queued.len() > 0 {
                    let first = queued[0];
                    let tail = queued.drop_first();
                    let part = if first.len() > max {
                        first.take(max as int)
                    } else {
                        first
                    };
                    if first.len() > max {
                        lemma_joined_front(tail, first.skip(max as int));
                    }
                    assert(part + joined(next) =~= joined(queued));
                    assert(part + more + joined(left) =~= part + (more + joined(left)));
                    assert(part + (joined(next) + received_over(rest)) =~= joined(queued)
                        + received_over(rest));
                }
            },
        }
    }
}

} // verus!
