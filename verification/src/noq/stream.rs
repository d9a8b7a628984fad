//! What streams report. `S` is the error of a session.
//!
//! When the session ends, its streams fail with whatever the connection makes of
//! that. The session remembers why it really ended, and its streams report that
//! instead.

use vstd::pervasive::cloned;
use vstd::prelude::*;

use crate::http3::code::{application_code, error_from_http3, error_to_http3, http3_code};
use crate::qmux::proto::varint::VarInt;

verus! {

/// Why a read failed.
#[derive(Debug)]
pub enum ReadError<S> {
    /// The session ended.
    SessionError(S),
    /// The peer reset the stream with an application code.
    Reset(u32),
    /// The peer reset the stream with a code that is no application code.
    InvalidReset(u64),
    /// The stream was stopped or finished before.
    ClosedStream,
    /// An ordered read after an unordered one.
    IllegalOrderedRead,
}

/// Why a write failed.
#[derive(Debug)]
pub enum WriteError<S> {
    /// The session ended.
    SessionError(S),
    /// The peer stopped the stream with an application code.
    Stopped(u32),
    /// The peer stopped the stream with a code that is no application code.
    InvalidStopped(u64),
    /// The stream was finished or reset before.
    ClosedStream,
}

/// The error of a read, given why the session really ended.
pub fn map_read_error<S: Clone>(reason: Option<&S>, e: ReadError<S>) -> (r: ReadError<S>)
    ensures
        match (reason, e) {
            (Some(known), ReadError::SessionError(_)) => r matches ReadError::SessionError(s)
                && cloned(*known, s),
            _ => r == e,
        },
{
    match (reason, e) {
        (Some(known), ReadError::SessionError(_)) => ReadError::SessionError(known.clone()),
        (_, e) => e,
    }
}

/// The error of a write, given why the session really ended.
pub fn map_write_error<S: Clone>(reason: Option<&S>, e: WriteError<S>) -> (r: WriteError<S>)
    ensures
        match (reason, e) {
            (Some(known), WriteError::SessionError(_)) => r matches WriteError::SessionError(s)
                && cloned(*known, s),
            _ => r == e,
        },
{
    match (reason, e) {
        (Some(known), WriteError::SessionError(_)) => WriteError::SessionError(known.clone()),
        (_, e) => e,
    }
}

/// The code to stop or reset a stream with.
pub fn stream_code(code: u32) -> (r: VarInt)
    ensures
        r@ == http3_code(code),
{
    match VarInt::from_u64(error_to_http3(code)) {
        Ok(v) => v,
        Err(_) => VarInt::from_u32(code),
    }
}

/// The application code of a reset or stop that the peer sent, once there is
/// one, or the session is over. A code that is no application code is not
/// reported.
pub fn peer_code<S: Clone>(reason: Option<&S>, outcome: Result<Option<u64>, S>) -> (r: Result<
    Option<u32>,
    S,
>)
    ensures
        match outcome {
            Ok(Some(code)) => r == Ok::<Option<u32>, S>(application_code(code)),
            Ok(None) => r == Ok::<Option<u32>, S>(None),
            Err(e) => match reason {
                Some(known) => r matches Err(s) && cloned(*known, s),
                None => r == Err::<Option<u32>, S>(e),
            },
        },
{
    match outcome {
        Ok(Some(code)) => Ok(error_from_http3(code)),
        Ok(None) => Ok(None),
        Err(e) => match reason {
            Some(known) => Err(known.clone()),
            None => Err(e),
        },
    }
}

/// How a stream that was written ends: the peer stopped it, or took it all.
pub fn write_closed<S>(stopped: Result<Option<u32>, S>) -> (r: Result<(), WriteError<S>>)
    ensures
        match stopped {
            Ok(Some(code)) => r == Err::<(), WriteError<S>>(WriteError::Stopped(code)),
            Ok(None) => r == Ok::<(), WriteError<S>>(()),
            Err(e) => r == Err::<(), WriteError<S>>(WriteError::SessionError(e)),
        },
{
    match stopped {
        Ok(Some(code)) => Err(WriteError::Stopped(code)),
        Ok(None) => Ok(()),
        Err(e) => Err(WriteError::SessionError(e)),
    }
}

/// How a stream that was read ends: a reset counts as an end like any other.
pub fn read_closed<S>(reset: Result<Option<u32>, S>) -> (r: Result<(), ReadError<S>>)
    ensures
        match reset {
            Ok(_) => r == Ok::<(), ReadError<S>>(()),
            Err(e) => r == Err::<(), ReadError<S>>(ReadError::SessionError(e)),
        },
{
    match reset {
        Ok(_) => Ok(()),
        Err(e) => Err(ReadError::SessionError(e)),
    }
}

} // verus!
