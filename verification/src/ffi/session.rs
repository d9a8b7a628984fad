//! A session as callers hold it.

use vstd::pervasive::cloned;
use vstd::prelude::*;

use super::error::{ErrorView, WebTransportError};

verus! {

/// An IP address and a port.
#[derive(Debug)]
pub struct RemoteAddress {
    pub host: String,
    pub port: u16,
}

impl RemoteAddress {
    /// The same address.
    pub fn copy(&self) -> (r: RemoteAddress)
        ensures
            r.host@ == self.host@,
            r.port == self.port,
    {
        RemoteAddress { host: self.host.clone(), port: self.port }
    }
}

/// A session that can be let go of. `S` is the session below.
#[derive(Debug)]
pub struct Session<S> {
    pub inner: Option<S>,
}

impl<S> Session<S> {
    /// A session that is in use.
    pub fn new(session: S) -> (r: Session<S>)
        ensures
            r.inner == Some(session),
    {
        Session { inner: Some(session) }
    }

    /// The session below, unless it was let go of.
    pub fn session(&self) -> (r: Result<S, WebTransportError>) where S: Clone
        ensures
            match self.inner {
                Some(s) => r matches Ok(c) && cloned(s, c),
                None => r matches Err(e) && e@ == ErrorView::SessionClosedLocally,
            },
    {
        match &self.inner {
            Some(s) => Ok(s.clone()),
            None => Err(WebTransportError::SessionClosedLocally),
        }
    }

    /// Let go of the session.
    pub fn release(&mut self) -> (r: Option<S>)
        ensures
            r == old(self).inner,
            final(self).inner is None,
    {
        self.inner.take()
    }
}

} // verus!
