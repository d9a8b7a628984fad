//! A stream to send on, whose writes `reset` interrupts.

use vstd::prelude::*;

use super::error::{
    ErrorView, SessionError, WebTransportError, map_session_error, map_write_error, session_error,
    write_error,
};
use crate::noq::stream::WriteError;

verus! {

/// A stream to send on.
#[derive(Debug)]
pub struct SendStream {
    /// Whether the stream was reset.
    pub cancelled: bool,
    /// The code that it was reset with.
    pub reset_code: u32,
    /// The priority that was asked for.
    pub priority: i32,
    /// The priority that the stream below has.
    pub synced_priority: i32,
}

/// What to do before an operation on the stream.
#[derive(Debug, Clone, Copy, PartialEq, Eq, Structural)]
pub enum SendStart {
    /// The stream was reset: tell the peer so with this code, and fail with
    /// [`WebTransportError::StreamClosedLocally`].
    Reset { code: u32 },
    /// Go on, after setting this priority if there is one.
    Proceed { priority: Option<i32> },
}

impl SendStream {
    /// A stream that was just opened. Its priority is 0 where it cannot be told.
    pub fn new(priority: Option<i32>) -> (r: SendStream)
        ensures
            ({
                let p = match priority {
                    Some(p) => p,
                    None => 0,
                };
                r == (SendStream { cancelled: false, reset_code: 0, priority: p, synced_priority: p })
            }),
    {
        let p: i32 = match priority {
            Some(p) => p,
            None => 0,
        };
        SendStream { cancelled: false, reset_code: 0, priority: p, synced_priority: p }
    }

    /// Start an operation: a priority that the stream below does not have yet is
    /// set first.
    pub fn start(&mut self) -> (r: SendStart)
        ensures
            if old(self).cancelled {
                &&& r == (SendStart::Reset { code: old(self).reset_code })
                &&& *final(self) == *old(self)
            } else {
                &&& r == (SendStart::Proceed {
                    priority: if old(self).priority != old(self).synced_priority {
                        Some(old(self).priority)
                    } else {
                        None
                    },
                })
                &&& *final(self) == (SendStream {
                    synced_priority: old(self).priority,
                    ..*old(self)
                })
            },
    {
        if self.cancelled {
            return SendStart::Reset { code: self.reset_code };
        }
        let desired: i32 = self.priority;
        if desired != self.synced_priority {
            self.synced_priority = desired;
            return SendStart::Proceed { priority: Some(desired) };
        }
        SendStart::Proceed { priority: None }
    }

    /// What a write of everything gave.
    pub fn on_write(&self, result: Result<(), WriteError<SessionError>>) -> (r: Result<
        (),
        WebTransportError,
    >)
        ensures
            match result {
                Ok(_) => r is Ok,
                Err(err) => r matches Err(e) && e@ == write_error(err),
            },
    {
        match result {
            Ok(_) => Ok(()),
            Err(err) => Err(map_write_error(err)),
        }
    }

    /// What a write of some bytes gave.
    pub fn on_write_some(&self, result: Result<usize, WriteError<SessionError>>) -> (r: Result<
        u64,
        WebTransportError,
    >)
        ensures
            match result {
                Ok(n) => r == Ok::<u64, WebTransportError>(n as u64),
                Err(err) => r matches Err(e) && e@ == write_error(err),
            },
    {
        match result {
            Ok(n) => Ok(n as u64),
            Err(err) => Err(map_write_error(err)),
        }
    }

    /// What finishing the stream gave: it fails only where the stream is closed.
    pub fn on_finish(&self, finished: bool) -> (r: Result<(), WebTransportError>)
        ensures
            finished ==> r is Ok,
            !finished ==> (r matches Err(e) && e@ == ErrorView::StreamClosedLocally),
    {
        if finished {
            Ok(())
        } else {
            Err(WebTransportError::StreamClosedLocally)
        }
    }

    /// Reset the stream with this code, and interrupt whatever writes to it. That
    /// can be done once.
    pub fn reset(&mut self, error_code: u32) -> (r: Result<(), WebTransportError>)
        ensures
            if old(self).cancelled {
                &&& r matches Err(e)
                &&& e@ == ErrorView::StreamClosedLocally
                &&& *final(self) == *old(self)
            } else {
                &&& r is Ok
                &&& *final(self) == (SendStream {
                    cancelled: true,
                    reset_code: error_code,
                    ..*old(self)
                })
            },
    {
        if self.cancelled {
            return Err(WebTransportError::StreamClosedLocally);
        }
        self.reset_code = error_code;
        self.cancelled = true;
        Ok(())
    }

    /// The end of the stream: the code that the peer stopped it with, if it did.
    pub fn on_closed(&self, stopped: Result<Option<u32>, SessionError>) -> (r: Result<
        Option<u32>,
        WebTransportError,
    >)
        ensures
            match stopped {
                Ok(code) => r == Ok::<Option<u32>, WebTransportError>(code),
                Err(err) => r matches Err(e) && e@ == session_error(err),
            },
    {
        match stopped {
            Ok(code) => Ok(code),
            Err(err) => Err(map_session_error(err)),
        }
    }

    /// The priority that was asked for: higher is sent first.
    pub fn priority(&self) -> (r: i32)
        ensures
            r == self.priority,
    {
        self.priority
    }

    /// Ask for a priority. Where the stream below is `free` it gets it now, and
    /// otherwise with the next operation.
    pub fn set_priority(&mut self, value: i32, free: bool)
        ensures
            *final(self) == (SendStream {
                priority: value,
                synced_priority: if free {
                    value
                } else {
                    old(self).synced_priority
                },
                ..*old(self)
            }),
    {
        self.priority = value;
        if free {
            self.synced_priority = value;
        }
    }
}

} // verus!
