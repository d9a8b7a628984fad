//! Flow control credit: how much of a limit has been used.

use vstd::prelude::*;

use super::error::Error;

verus! {

/// A limit that the receiver of something grants to its sender, and how much of
/// it is in use.
///
/// The sending side claims from it, and the peer raises it. The receiving side
/// counts what arrives against it, and raises it as that is consumed, so that the
/// window stays open.
pub struct Credit {
    used: u64,
    max: u64,
    window: u64,
    consumed: u64,
    closed: bool,
}

/// The smaller of two numbers.
pub open spec fn min(a: u64, b: u64) -> u64 {
    if a <= b {
        a
    } else {
        b
    }
}

/// The sum, as far as 64 bits can tell it.
pub open spec fn saturating_sum(a: u64, b: u64) -> u64 {
    if a + b <= u64::MAX {
        (a + b) as u64
    } else {
        u64::MAX
    }
}

/// A [`Credit`] over plain values.
pub struct CreditView {
    /// How much is in use.
    pub used: u64,
    /// How much may be in use.
    pub max: u64,
    /// How far the limit is kept ahead of what was consumed.
    pub window: u64,
    /// How much was consumed.
    pub consumed: u64,
    /// Whether nobody waits for it any more.
    pub closed: bool,
}

impl CreditView {
    /// A fresh limit.
    pub open spec fn fresh(max: u64) -> CreditView {
        CreditView { used: 0, max, window: max, consumed: 0, closed: false }
    }

    /// Never more than the limit is in use.
    pub open spec fn wf(self) -> bool {
        self.used <= self.max
    }

    /// How much is left.
    pub open spec fn available(self) -> u64 {
        (self.max - self.used) as u64
    }

    /// After `n` more are in use.
    pub open spec fn claimed(self, n: u64) -> CreditView {
        CreditView { used: (self.used + n) as u64, ..self }
    }

    /// After `n` of those in use were given back.
    pub open spec fn released(self, n: u64) -> CreditView {
        CreditView { used: (self.used - min(n, self.used)) as u64, ..self }
    }

    /// Whether `n` more may arrive.
    pub open spec fn admits(self, n: u64) -> bool {
        self.used + n <= self.max
    }

    /// After everything up to `n` is in use.
    pub open spec fn raised_to(self, n: u64) -> CreditView {
        CreditView {
            used: if n > self.used {
                n
            } else {
                self.used
            },
            ..self
        }
    }

    /// The limit that would keep the whole window open once `n` more are consumed.
    pub open spec fn next_max(self, n: u64) -> u64 {
        saturating_sum(saturating_sum(self.consumed, n), self.window)
    }

    /// Whether consuming `n` more moves the limit by at least half the window, so
    /// that it is worth telling.
    pub open spec fn worth_update(self, n: u64) -> bool {
        self.next_max(n) > self.max && self.next_max(n) - self.max >= self.window / 2
    }

    /// After `n` more were consumed.
    pub open spec fn consuming(self, n: u64) -> CreditView {
        CreditView {
            consumed: saturating_sum(self.consumed, n),
            max: if self.worth_update(n) {
                self.next_max(n)
            } else {
                self.max
            },
            ..self
        }
    }

    /// With another limit.
    pub open spec fn with_max(self, max: u64) -> CreditView {
        CreditView { max, ..self }
    }
}

impl View for Credit {
    type V = CreditView;

    closed spec fn view(&self) -> CreditView {
        CreditView {
            used: self.used,
            max: self.max,
            window: self.window,
            consumed: self.consumed,
            closed: self.closed,
        }
    }
}

impl Credit {
    #[verifier::type_invariant]
    spec fn within(self) -> bool {
        self.used <= self.max
    }

    /// A limit of `max`, none of it in use.
    pub fn new(max: u64) -> (r: Credit)
        ensures
            r@ == CreditView::fresh(max),
    {
        Credit { used: 0, max, window: max, consumed: 0, closed: false }
    }

    /// Claim up to `desired`, and return how much was claimed.
    pub fn try_claim(&mut self, desired: u64) -> (n: u64)
        ensures
            old(self)@.wf(),
            n == min(desired, old(self)@.available()),
            final(self)@ == old(self)@.claimed(n),
    {
        proof {
            use_type_invariant(&*self);
        }
        let left: u64 = self.max - self.used;
        let n: u64 = if desired <= left {
            desired
        } else {
            left
        };
        self.used = self.used + n;
        n
    }

    /// Claim up to `desired` if anything is left. `None` means to wait.
    pub fn claim(&mut self, desired: u64) -> (r: Result<Option<u64>, Error>)
        ensures
            old(self)@.wf(),
            if old(self)@.closed {
                &&& r matches Err(e)
                &&& e is Closed
                &&& final(self)@ == old(self)@
            } else if min(desired, old(self)@.available()) == 0 {
                &&& r matches Ok(None)
                &&& final(self)@ == old(self)@
            } else {
                &&& r matches Ok(Some(n))
                &&& n == min(desired, old(self)@.available())
                &&& final(self)@ == old(self)@.claimed(n)
            },
    {
        proof {
            use_type_invariant(&*self);
        }
        if self.closed {
            return Err(Error::Closed);
        }
        let n: u64 = self.try_claim(desired);
        if n == 0 {
            Ok(None)
        } else {
            Ok(Some(n))
        }
    }

    /// Claim one, and return how many were claimed before it. `None` means to
    /// wait.
    pub fn claim_index(&mut self) -> (r: Result<Option<u64>, Error>)
        ensures
            old(self)@.wf(),
            if old(self)@.closed {
                &&& r matches Err(e)
                &&& e is Closed
                &&& final(self)@ == old(self)@
            } else if old(self)@.available() == 0 {
                &&& r matches Ok(None)
                &&& final(self)@ == old(self)@
            } else {
                &&& r matches Ok(Some(n))
                &&& n == old(self)@.used
                &&& final(self)@ == old(self)@.claimed(1)
            },
    {
        let index: u64 = self.used;
        match self.claim(1) {
            Ok(Some(_)) => Ok(Some(index)),
            Ok(None) => Ok(None),
            Err(e) => Err(e),
        }
    }

    /// How much is in use.
    pub fn used(&self) -> (n: u64)
        ensures
            n == self@.used,
            self@.wf(),
    {
        proof {
            use_type_invariant(self);
        }
        self.used
    }

    /// How much is left.
    pub fn available(&self) -> (n: u64)
        ensures
            n == self@.available(),
            self@.wf(),
    {
        proof {
            use_type_invariant(self);
        }
        self.max - self.used
    }

    /// Whether it was closed.
    pub fn is_closed(&self) -> (r: bool)
        ensures
            r == self@.closed,
    {
        self.closed
    }

    /// Give back what was claimed and not used.
    pub fn release(&mut self, amount: u64)
        ensures
            final(self)@ == old(self)@.released(amount),
    {
        proof {
            use_type_invariant(&*self);
        }
        self.used = if amount <= self.used {
            self.used - amount
        } else {
            0
        };
    }

    /// Count `n` that arrived. False where they overrun the limit, which then
    /// stays as it is.
    pub fn receive(&mut self, n: u64) -> (r: bool)
        ensures
            r == old(self)@.admits(n),
            r ==> final(self)@ == old(self)@.claimed(n),
            !r ==> final(self)@ == old(self)@,
    {
        proof {
            use_type_invariant(&*self);
        }
        if n <= self.max - self.used {
            self.used = self.used + n;
            true
        } else {
            false
        }
    }

    /// Count everything up to `n` as arrived. False where that overruns the
    /// limit.
    pub fn receive_up_to(&mut self, n: u64) -> (r: bool)
        ensures
            r == (n <= old(self)@.max),
            r ==> final(self)@ == old(self)@.raised_to(n),
            !r ==> final(self)@ == old(self)@,
    {
        proof {
            use_type_invariant(&*self);
        }
        if n > self.max {
            return false;
        }
        if n > self.used {
            self.used = n;
        }
        true
    }

    /// Count `n` as consumed, and return the new limit where it is worth telling
    /// the peer.
    pub fn consume(&mut self, n: u64) -> (r: Option<u64>)
        ensures
            final(self)@ == old(self)@.consuming(n),
            r == if old(self)@.worth_update(n) {
                Some(old(self)@.next_max(n))
            } else {
                None::<u64>
            },
    {
        proof {
            use_type_invariant(&*self);
        }
        self.consumed = self.consumed.saturating_add(n);
        let next: u64 = self.consumed.saturating_add(self.window);
        if next > self.max && next - self.max >= self.window / 2 {
            self.max = next;
            Some(next)
        } else {
            None
        }
    }

    /// Raise the limit. One that goes backwards is an error.
    pub fn increase_max(&mut self, max: u64) -> (r: Result<(), Error>)
        ensures
            match r {
                Ok(_) => max >= old(self)@.max && final(self)@ == old(self)@.with_max(max),
                Err(e) => max < old(self)@.max && e is FlowControlError && final(self)@ == old(
                    self,
                )@,
            },
    {
        proof {
            use_type_invariant(&*self);
        }
        if max < self.max {
            return Err(Error::FlowControlError);
        }
        self.max = max;
        Ok(())
    }

    /// Let whoever waits for credit know that none will come.
    pub fn close(&mut self)
        ensures
            final(self)@ == (CreditView { closed: true, ..old(self)@ }),
    {
        proof {
            use_type_invariant(&*self);
        }
        self.closed = true;
    }
}

/// Law: no operation brings more into use than the limit allows, and none lowers
/// the limit.
pub proof fn lemma_credit_kept(c: CreditView, n: u64)
    requires
        c.wf(),
    ensures
        c.claimed(min(n, c.available())).wf(),
        c.released(n).wf(),
        c.admits(n) ==> c.claimed(n).wf(),
        n <= c.max ==> c.raised_to(n).wf(),
        c.consuming(n).wf() && c.consuming(n).max >= c.max,
        n >= c.max ==> c.with_max(n).wf(),
{
}

/// Law: giving back what was claimed restores the credit.
pub proof fn lemma_release_undoes_claim(c: CreditView, n: u64)
    requires
        c.wf(),
    ensures
        c.claimed(min(n, c.available())).released(min(n, c.available())) == c,
{
}

/// Law: when everything received was consumed, at least half the window is open
/// again.
pub proof fn lemma_window_reopens(c: CreditView, n: u64)
    requires
        c.wf(),
        c.consumed + n == c.used,
        c.used + c.window <= u64::MAX,
    ensures
        c.consuming(n).max - c.consuming(n).used >= c.window - c.window / 2,
{
}

/// Whether the two ends of a window agree: no more has arrived than was sent, and
/// the sender knows no limit that the receiver did not give.
pub open spec fn in_agreement(sender: CreditView, receiver: CreditView) -> bool {
    &&& sender.wf()
    &&& receiver.used <= sender.used
    &&& sender.max <= receiver.max
}

/// Law: the two ends of a window stay in agreement, so that a sender that keeps to
/// its limit is never refused, and no limit that it is told goes backwards.
pub proof fn lemma_window_ends_agree(sender: CreditView, receiver: CreditView, n: u64)
    requires
        in_agreement(sender, receiver),
    ensures
        in_agreement(CreditView::fresh(n), CreditView::fresh(n)),
        n <= sender.available() ==> in_agreement(sender.claimed(n), receiver),
        receiver.used + n <= sender.used ==> receiver.admits(n) && in_agreement(
            sender,
            receiver.claimed(n),
        ),
        in_agreement(sender, receiver.consuming(n)),
        receiver.worth_update(n) ==> {
            let told = receiver.next_max(n);
            told >= sender.max && in_agreement(sender.with_max(told), receiver.consuming(n))
        },
{
}

/// Law: what each operation on a credit does, in numbers. A claim takes the smaller
/// of what is asked for and what is left; what is consumed moves the limit to a whole
/// window ahead, once that is at least half a window further.
pub proof fn lemma_credit_in_numbers(c: CreditView, n: u64)
    requires
        c.used <= c.max,
    ensures
        CreditView::fresh(n) == (CreditView {
            used: 0,
            max: n,
            window: n,
            consumed: 0,
            closed: false,
        }),
        c.wf(),
        c.available() == c.max - c.used,
        c.used + n <= c.max ==> c.admits(n) && c.claimed(n) == (CreditView {
            used: (c.used + n) as u64,
            ..c
        }),
        c.used + n > c.max ==> !c.admits(n),
        n <= c.used ==> c.released(n) == (CreditView { used: (c.used - n) as u64, ..c }),
        n > c.used ==> c.released(n) == (CreditView { used: 0, ..c }),
        c.raised_to(n) == (CreditView {
            used: if n > c.used {
                n
            } else {
                c.used
            },
            ..c
        }),
        c.with_max(n) == (CreditView { max: n, ..c }),
        c.consumed + n + c.window <= u64::MAX ==> {
            let next = c.consumed + n + c.window;
            &&& c.next_max(n) == next
            &&& c.worth_update(n) == (next > c.max && 2 * (next - c.max) + 1 >= c.window)
            &&& c.consuming(n).consumed == c.consumed + n
            &&& c.consuming(n).used == c.used
            &&& c.consuming(n).window == c.window
            &&& c.consuming(n).closed == c.closed
            &&& c.consuming(n).max == if next > c.max && 2 * (next - c.max) + 1 >= c.window {
                next as u64
            } else {
                c.max
            }
        },
{
}

/// Law: the smaller of two numbers, and a sum that stops at the largest number.
pub proof fn lemma_small_numbers(a: u64, b: u64)
    ensures
        min(a, b) <= a && min(a, b) <= b && (min(a, b) == a || min(a, b) == b),
        a + b <= u64::MAX ==> saturating_sum(a, b) == a + b,
        a + b > u64::MAX ==> saturating_sum(a, b) == u64::MAX,
{
}

} // verus!
