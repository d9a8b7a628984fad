//! A stream to receive from, whose reads `stop` interrupts.

use vstd::prelude::*;

use super::error::{
    ErrorView, ReadExactError, ReadToEndError, SessionError, WebTransportError, map_read_error,
    map_read_exact_error, map_read_to_end_error, map_session_error, read_error, read_exact_error,
    read_to_end_error, session_error,
};
use crate::noq::stream::ReadError;

verus! {

/// A stream to receive from.
#[derive(Debug)]
pub struct RecvStream {
    /// Whether the stream was stopped.
    pub cancelled: bool,
    /// The code that it was stopped with.
    pub stop_code: u32,
    /// Whether its end was read.
    pub eof: bool,
}

/// What to do for a read.
#[derive(Debug)]
pub enum RecvStart {
    /// The stream was stopped: tell the peer so with this code, and fail with
    /// [`WebTransportError::StreamClosedLocally`].
    Stop { code: u32 },
    /// The answer is known.
    Ready(Result<Vec<u8>, WebTransportError>),
    /// Read, with this limit.
    Read { max: usize },
}

/// Nothing was read.
pub open spec fn ready_empty(r: RecvStart) -> bool {
    r matches RecvStart::Ready(Ok(v)) && v@.len() == 0
}

impl RecvStream {
    /// A stream that was just accepted.
    pub fn new() -> (r: RecvStream)
        ensures
            r == (RecvStream { cancelled: false, stop_code: 0, eof: false }),
    {
        RecvStream { cancelled: false, stop_code: 0, eof: false }
    }

    /// Read up to `n` bytes. At the end of the stream there are none.
    pub fn read(&self, n: u64) -> (r: RecvStart)
        ensures
            if self.cancelled {
                r == (RecvStart::Stop { code: self.stop_code })
            } else if n == 0 || self.eof {
                ready_empty(r)
            } else {
                r == (RecvStart::Read { max: n as usize })
            },
    {
        if self.cancelled {
            return RecvStart::Stop { code: self.stop_code };
        }
        if n == 0 || self.eof {
            return RecvStart::Ready(Ok(Vec::new()));
        }
        RecvStart::Read {
            max: #[verifier::truncate]
            (n as usize),
        }
    }

    /// What a read gave.
    pub fn on_read(&mut self, result: Result<Option<Vec<u8>>, ReadError<SessionError>>) -> (r:
        Result<Vec<u8>, WebTransportError>)
        ensures
            match result {
                Ok(Some(data)) => r == Ok::<Vec<u8>, WebTransportError>(data) && *final(self)
                    == *old(self),
                Ok(None) => r matches Ok(v) && v@.len() == 0 && *final(self) == (RecvStream {
                    eof: true,
                    ..*old(self)
                }),
                Err(err) => r matches Err(e) && e@ == read_error(err) && *final(self) == *old(self),
            },
    {
        match result {
            Ok(Some(data)) => Ok(data),
            Ok(None) => {
                self.eof = true;
                Ok(Vec::new())
            },
            Err(err) => Err(map_read_error(err)),
        }
    }

    /// Read to the end of the stream, at most `limit` bytes.
    pub fn read_to_end(&self, limit: u64) -> (r: RecvStart)
        ensures
            if self.cancelled {
                r == (RecvStart::Stop { code: self.stop_code })
            } else if self.eof {
                ready_empty(r)
            } else {
                r == (RecvStart::Read { max: limit as usize })
            },
    {
        if self.cancelled {
            return RecvStart::Stop { code: self.stop_code };
        }
        if self.eof {
            return RecvStart::Ready(Ok(Vec::new()));
        }
        RecvStart::Read {
            max: #[verifier::truncate]
            (limit as usize),
        }
    }

    /// What reading to the end gave.
    pub fn on_read_to_end(&mut self, limit: usize, result: Result<Vec<u8>, ReadToEndError>) -> (r:
        Result<Vec<u8>, WebTransportError>)
        ensures
            match result {
                Ok(data) => r == Ok::<Vec<u8>, WebTransportError>(data) && *final(self) == (
                RecvStream { eof: true, ..*old(self) }),
                Err(err) => r matches Err(e) && e@ == read_to_end_error(err, limit) && *final(self)
                    == *old(self),
            },
    {
        match result {
            Ok(data) => {
                self.eof = true;
                Ok(data)
            },
            Err(err) => Err(map_read_to_end_error(err, limit)),
        }
    }

    /// Read exactly `n` bytes. Past the end of the stream that fails.
    pub fn read_exact(&self, n: u64) -> (r: RecvStart)
        ensures
            if self.cancelled {
                r == (RecvStart::Stop { code: self.stop_code })
            } else if n as usize > 0 && self.eof {
                r matches RecvStart::Ready(Err(e)) && e@ == (ErrorView::StreamIncompleteRead {
                    expected: n,
                    got: 0,
                    partial: Seq::empty(),
                })
            } else {
                r == (RecvStart::Read { max: n as usize })
            },
    {
        if self.cancelled {
            return RecvStart::Stop { code: self.stop_code };
        }
        let max: usize = #[verifier::truncate]
        (n as usize);
        if max > 0 && self.eof {
            let partial: Vec<u8> = Vec::new();
            assert(partial@ =~= Seq::<u8>::empty());
            return RecvStart::Ready(
                Err(WebTransportError::StreamIncompleteRead { expected: n, got: 0, partial }),
            );
        }
        RecvStart::Read { max }
    }

    /// What reading into `buf` gave, which has the exact size.
    pub fn on_read_exact(&mut self, buf: Vec<u8>, result: Result<(), ReadExactError>) -> (r: Result<
        Vec<u8>,
        WebTransportError,
    >)
        requires
            result matches Err(ReadExactError::FinishedEarly(n)) ==> n <= buf@.len(),
        ensures
            match result {
                Ok(_) => r == Ok::<Vec<u8>, WebTransportError>(buf) && *final(self) == *old(self),
                Err(err) => {
                    &&& r matches Err(e)
                    &&& e@ == read_exact_error(err, buf.len(), buf@)
                    &&& *final(self) == (RecvStream {
                        eof: old(self).eof || err is FinishedEarly,
                        ..*old(self)
                    })
                },
            },
    {
        match result {
            Ok(_) => Ok(buf),
            Err(err) => {
                match &err {
                    ReadExactError::FinishedEarly(_) => {
                        self.eof = true;
                    },
                    ReadExactError::ReadError(_) => {},
                }
                Err(map_read_exact_error(err, buf.len(), buf.as_slice()))
            },
        }
    }

    /// Stop the stream with this code, and interrupt whatever reads it. That can
    /// be done once.
    pub fn stop(&mut self, error_code: u32) -> (r: Result<(), WebTransportError>)
        ensures
            if old(self).cancelled {
                &&& r matches Err(e)
                &&& e@ == ErrorView::StreamClosedLocally
                &&& *final(self) == *old(self)
            } else {
                &&& r is Ok
                &&& *final(self) == (RecvStream {
                    cancelled: true,
                    stop_code: error_code,
                    ..*old(self)
                })
            },
    {
        if self.cancelled {
            return Err(WebTransportError::StreamClosedLocally);
        }
        self.stop_code = error_code;
        self.cancelled = true;
        Ok(())
    }

    /// The code to tell the peer where the stream was stopped, before anything
    /// waits for its end.
    pub fn wait_closed(&self) -> (r: Option<u32>)
        ensures
            r == (if self.cancelled {
                Some(self.stop_code)
            } else {
                None
            }),
    {
        if self.cancelled {
            Some(self.stop_code)
        } else {
            None
        }
    }

    /// The end of the stream: the code that the peer reset it with, if it did.
    pub fn on_closed(&self, reset: Result<Option<u32>, SessionError>) -> (r: Result<
        Option<u32>,
        WebTransportError,
    >)
        ensures
            match reset {
                Ok(code) => r == Ok::<Option<u32>, WebTransportError>(code),
                Err(err) => r matches Err(e) && e@ == session_error(err),
            },
    {
        match reset {
            Ok(code) => Ok(code),
            Err(err) => Err(map_session_error(err)),
        }
    }
}

} // verus!
