//! Guards that turn a closed channel into a future that never resolves.
use vstd::prelude::*;

verus! {

/// What polling the inner receiver of a guard reported.
pub enum Polled<T> {
    /// A value arrived.
    Ready(T),
    /// Every sender is gone.
    Closed,
    /// Nothing arrived yet.
    Pending,
}

/// What a guarded future reports.
pub enum GuardPoll<T> {
    /// A value arrived.
    Ready(T),
    /// Nothing arrived, or nothing ever will.
    Pending,
}

/// The state of a receiver that yields items until its senders are gone
/// and stays pending from then on, instead of ending.
pub struct ReceiverGuard {
    sender_dropped: bool,
}

impl ReceiverGuard {
    /// Whether the senders of the receiver are known to be gone.
    pub closed spec fn closed(&self) -> bool {
        self.sender_dropped
    }

    /// A guard of a receiver whose senders are alive.
    pub fn new() -> (r: Self)
        ensures
            !r.closed(),
    {
        ReceiverGuard { sender_dropped: false }
    }

    /// Whether the guarded future will never resolve again.
    pub fn is_terminated(&self) -> (r: bool)
        ensures
            r == self.closed(),
    {
        self.sender_dropped
    }

    /// Turns what the inner receiver reported into what the guarded future
    /// reports.  A closed receiver makes the guard pending for good.
    pub fn after_poll<T>(&mut self, polled: Polled<T>) -> (r: GuardPoll<T>)
        requires
            !old(self).closed(),
        ensures
            match polled {
                Polled::Ready(v) => r == GuardPoll::Ready(v) && !final(self).closed(),
                Polled::Closed => r is Pending && final(self).closed(),
                Polled::Pending => r is Pending && !final(self).closed(),
            },
    {
        match polled {
            Polled::Ready(v) => GuardPoll::Ready(v),
            Polled::Closed => {
                self.sender_dropped = true;
                GuardPoll::Pending
            },
            Polled::Pending => GuardPoll::Pending,
        }
    }

    /// Polls through the guard: a closed guard reports pending without
    /// polling; otherwise `poll` is asked and its report is handled by
    /// [`ReceiverGuard::after_poll`].
    pub fn poll_with<T, P: FnOnce() -> Polled<T>>(&mut self, poll: P) -> (r: GuardPoll<T>)
        requires
            call_requires(poll, ()),
        ensures
            old(self).closed() ==> r is Pending && final(self).closed(),
            !old(self).closed() ==> exists|p: Polled<T>| call_ensures(poll, (), p) && match p {
                Polled::Ready(v) => r == GuardPoll::Ready(v) && !final(self).closed(),
                Polled::Closed => r is Pending && final(self).closed(),
                Polled::Pending => r is Pending && !final(self).closed(),
            },
    {
        if self.sender_dropped {
            GuardPoll::Pending
        } else {
            let polled = poll();
            self.after_poll(polled)
        }
    }
}

} // verus!
