//! When a silent peer is given up.

use vstd::prelude::*;

use crate::qmux::credit::saturating_sum;
use crate::qmux::error::Error;

verus! {

/// When something last arrived, and since when its absence is put up with.
///
/// Instants are nanoseconds since some fixed start.
pub struct IdleTimer {
    last_recv_at: u64,
    suppressed_since: Option<u64>,
}

/// A number of milliseconds in nanoseconds, as far as 64 bits can tell it.
pub open spec fn window_nanos(idle_ms: u64) -> u64 {
    if idle_ms * 1_000_000 <= u64::MAX {
        (idle_ms * 1_000_000) as u64
    } else {
        u64::MAX
    }
}

/// A number of milliseconds in nanoseconds.
fn to_nanos(idle_ms: u64) -> (r: u64)
    ensures
        r == window_nanos(idle_ms),
{
    match idle_ms.checked_mul(1_000_000) {
        Some(n) => n,
        None => u64::MAX,
    }
}

impl IdleTimer {
    /// When something last arrived, or the deadline was last put off.
    pub closed spec fn last(&self) -> u64 {
        self.last_recv_at
    }

    /// Since when the deadline is being put off.
    pub closed spec fn deferring(&self) -> Option<u64> {
        self.suppressed_since
    }

    /// Start counting.
    pub fn new(now: u64) -> (r: IdleTimer)
        ensures
            r.last() == now,
            r.deferring() is None,
    {
        IdleTimer { last_recv_at: now, suppressed_since: None }
    }

    /// Something arrived. Real progress ends any deferral.
    pub fn on_recv(&mut self, now: u64)
        ensures
            final(self).last() == now,
            final(self).deferring() is None,
    {
        self.last_recv_at = now;
        self.suppressed_since = None;
    }

    /// When the peer has been silent for too long, if that matters.
    pub fn deadline(&self, idle_ms: Option<u64>) -> (r: Option<u64>)
        ensures
            r == match idle_ms {
                Some(ms) => Some(saturating_sum(self.last(), window_nanos(ms))),
                None => None::<u64>,
            },
    {
        match idle_ms {
            Some(ms) => Some(self.last_recv_at.saturating_add(to_nanos(ms))),
            None => None,
        }
    }

    /// The deadline passed.
    ///
    /// Where our writer is stuck on transport backpressure, the peer's receive
    /// window is full, which is evidence that it is alive and that we simply can't
    /// get a keep-alive out. Then the close is put off, but for one more idle
    /// window only: a peer that died with our send buffer full must not hang here.
    pub fn on_deadline(&mut self, now: u64, idle_ms: u64, backpressured: bool) -> (r: Result<
        (),
        Error,
    >)
        ensures
            match old(self).deferring() {
                Some(since) => if now < saturating_sum(since, window_nanos(idle_ms)) {
                    &&& r is Ok
                    &&& final(self).last() == now
                    &&& final(self).deferring() == Some(since)
                } else {
                    r matches Err(e) && e is IdleTimeout
                },
                None => if backpressured {
                    &&& r is Ok
                    &&& final(self).last() == now
                    &&& final(self).deferring() == Some(now)
                } else {
                    r matches Err(e) && e is IdleTimeout
                },
            },
    {
        match self.suppressed_since {
            Some(since) => {
                let grace: u64 = to_nanos(idle_ms);
                if now < since.saturating_add(grace) {
                    self.last_recv_at = now;
                    Ok(())
                } else {
                    Err(Error::IdleTimeout)
                }
            },
            None => {
                if backpressured {
                    self.suppressed_since = Some(now);
                    self.last_recv_at = now;
                    Ok(())
                } else {
                    Err(Error::IdleTimeout)
                }
            },
        }
    }
}

} // verus!
