//! The interface to Node.js: handles that hand out what they hold once.

use vstd::prelude::*;

use crate::ffi::error::SessionFault;
use crate::status::status_code;
use crate::url::{ParsedUrl, parsed};

verus! {

/// Why a session was closed.
#[derive(Debug)]
pub struct NapiCloseInfo {
    pub close_code: u32,
    pub reason: String,
}

impl Clone for NapiCloseInfo {
    fn clone(&self) -> (r: NapiCloseInfo)
        ensures
            r == *self,
    {
        NapiCloseInfo { close_code: self.close_code, reason: self.reason.clone() }
    }
}

/// The code and reason of a close, where the peer gave them, and otherwise what
/// went wrong.
pub fn session_error_to_close_info(err: SessionFault) -> (r: NapiCloseInfo)
    ensures
        match err {
            SessionFault::Closed(code, reason) => r == (NapiCloseInfo { close_code: code, reason }),
            SessionFault::Other(message) => r == (NapiCloseInfo { close_code: 0, reason: message }),
        },
{
    match err {
        SessionFault::Closed(code, reason) => NapiCloseInfo { close_code: code, reason },
        SessionFault::Other(message) => NapiCloseInfo { close_code: 0, reason: message },
    }
}

/// Options for connecting to a server.
#[derive(Debug)]
pub struct NapiConnectOptions {
    /// The subprotocols to offer.
    pub protocols: Option<Vec<String>>,
}

/// A request to connect.
#[derive(Debug)]
pub struct ConnectRequest {
    pub url: ParsedUrl,
    pub protocols: Vec<String>,
}

/// The subprotocols that a request offers.
pub open spec fn offered(options: Option<NapiConnectOptions>) -> Seq<String> {
    match options {
        Some(NapiConnectOptions { protocols: Some(names) }) => names@,
        _ => Seq::empty(),
    }
}

/// The request for a URL that was read.
pub fn request_from(url: Result<ParsedUrl, String>, options: Option<NapiConnectOptions>) -> (r:
    Result<ConnectRequest, String>)
    ensures
        match url {
            Ok(u) => r matches Ok(request) && request.url == u && request.protocols@ == offered(
                options,
            ),
            Err(message) => r == Err::<ConnectRequest, String>(message),
        },
{
    let url = url?;
    let protocols: Vec<String> = match options {
        Some(NapiConnectOptions { protocols: Some(names) }) => names,
        _ => Vec::new(),
    };
    Ok(ConnectRequest { url, protocols })
}

/// The request for a URL.
pub fn connect_request(url: &str, options: Option<NapiConnectOptions>) -> (r: Result<
    ConnectRequest,
    String,
>)
    ensures
        match parsed(url@) {
            Ok(view) => r matches Ok(request) && request.url@ == view && request.protocols@
                == offered(options),
            Err(message) => r matches Err(m) && m@ == message,
        },
{
    request_from(ParsedUrl::parse(url), options)
}

/// A server that can be closed. `S` is the server below.
#[derive(Debug)]
pub struct NapiServer<S> {
    pub inner: Option<S>,
}

impl<S> NapiServer<S> {
    /// The server below accepted a request, or found that there will be none: in
    /// that case it is let go of, and nothing is accepted from here on.
    pub fn accepted<Q>(&mut self, request: Option<Q>) -> (r: Option<NapiRequest<Q>>)
        ensures
            match old(self).inner {
                Some(_) => match request {
                    Some(q) => {
                        &&& r == Some(NapiRequest { inner: Some(q) })
                        &&& *final(self) == *old(self)
                    },
                    None => r is None && final(self).inner is None,
                },
                None => r is None && *final(self) == *old(self),
            },
    {
        if self.inner.is_none() {
            return None;
        }
        match request {
            Some(q) => Some(NapiRequest { inner: Some(q) }),
            None => {
                self.inner = None;
                None
            },
        }
    }

    /// Stop accepting.
    pub fn close(&mut self)
        ensures
            final(self).inner is None,
    {
        self.inner = None;
    }
}

/// A request for a session, which can be answered once. `Q` is the request.
#[derive(Debug)]
pub struct NapiRequest<Q> {
    pub inner: Option<Q>,
}

impl<Q> NapiRequest<Q> {
    /// The request, to look at.
    pub fn request(&self) -> (r: Result<&Q, String>)
        ensures
            match self.inner {
                Some(q) => r == Ok::<&Q, String>(&q),
                None => r matches Err(m) && m@ == "request already consumed"@,
            },
    {
        match &self.inner {
            Some(q) => Ok(q),
            None => Err("request already consumed".to_string()),
        }
    }

    /// Accept the request: it is handed out to be answered.
    pub fn ok(&mut self) -> (r: Result<Q, String>)
        ensures
            final(self).inner is None,
            match old(self).inner {
                Some(q) => r == Ok::<Q, String>(q),
                None => r matches Err(m) && m@ == "request already consumed"@,
            },
    {
        match self.inner.take() {
            Some(q) => Ok(q),
            None => Err("request already consumed".to_string()),
        }
    }

    /// Reject the request: it is handed out with the status to answer. A number
    /// that is no status uses the request up all the same.
    pub fn reject(&mut self, code: u16) -> (r: Result<(Q, u16), String>)
        ensures
            final(self).inner is None,
            match old(self).inner {
                Some(q) => if 100 <= code <= 999 {
                    r == Ok::<(Q, u16), String>((q, code))
                } else {
                    r matches Err(m) && m@ == "invalid status code: "@ + "invalid status code"@
                },
                None => r matches Err(m) && m@ == "request already consumed"@,
            },
    {
        let q = self.ok()?;
        let status: u16 = status_code(code)?;
        Ok((q, status))
    }
}

/// How a session ended, once that is known.
#[derive(Debug)]
pub struct NapiSession {
    pub closed: Option<NapiCloseInfo>,
}

impl NapiSession {
    /// A session that is open.
    pub fn new() -> (r: NapiSession)
        ensures
            r.closed is None,
    {
        NapiSession { closed: None }
    }

    /// How the session ended, where somebody waited for that before.
    pub fn closed(&self) -> (r: Option<NapiCloseInfo>)
        ensures
            r == self.closed,
    {
        match &self.closed {
            Some(info) => Some(info.clone()),
            None => None,
        }
    }

    /// The session ended: everybody who asks later is told the same.
    pub fn on_closed(&mut self, err: SessionFault) -> (r: NapiCloseInfo)
        ensures
            final(self).closed == Some(r),
            match err {
                SessionFault::Closed(code, reason) => r == (NapiCloseInfo {
                    close_code: code,
                    reason,
                }),
                SessionFault::Other(message) => r == (NapiCloseInfo {
                    close_code: 0,
                    reason: message,
                }),
            },
    {
        let info = session_error_to_close_info(err);
        self.closed = Some(info.clone());
        info
    }
}

/// A pair of streams, each of which can be taken once.
#[derive(Debug)]
pub struct NapiBiStream<S, R> {
    pub send: Option<S>,
    pub recv: Option<R>,
}

impl<S, R> NapiBiStream<S, R> {
    /// Both streams.
    pub fn new(send: S, recv: R) -> (r: NapiBiStream<S, R>)
        ensures
            r == (NapiBiStream { send: Some(send), recv: Some(recv) }),
    {
        NapiBiStream { send: Some(send), recv: Some(recv) }
    }

    /// Take the stream to send on.
    pub fn take_send(&mut self) -> (r: Result<S, String>)
        ensures
            *final(self) == (NapiBiStream::<S, R> { send: None, recv: old(self).recv }),
            match old(self).send {
                Some(s) => r == Ok::<S, String>(s),
                None => r matches Err(m) && m@ == "send stream already taken"@,
            },
    {
        match self.send.take() {
            Some(s) => Ok(s),
            None => Err("send stream already taken".to_string()),
        }
    }

    /// Take the stream to receive from.
    pub fn take_recv(&mut self) -> (r: Result<R, String>)
        ensures
            *final(self) == (NapiBiStream::<S, R> { send: old(self).send, recv: None }),
            match old(self).recv {
                Some(s) => r == Ok::<R, String>(s),
                None => r matches Err(m) && m@ == "recv stream already taken"@,
            },
    {
        match self.recv.take() {
            Some(s) => Ok(s),
            None => Err("recv stream already taken".to_string()),
        }
    }
}

} // verus!
