//! Callbacks that run once the application has started.
use vstd::prelude::*;

verus! {

/// A registry of callbacks that wait for the application to start.
///
/// Before [`LateInit::take_pending`] has run, registered callbacks wait in
/// the registry; afterwards they are handed back to run at once.
pub struct LateInit<F> {
    pending: Vec<F>,
    started: bool,
}

impl<F> LateInit<F> {
    /// The callbacks that wait, in the order they were registered.
    pub closed spec fn pending(&self) -> Seq<F> {
        self.pending@
    }

    /// Whether the application has started.
    pub closed spec fn started(&self) -> bool {
        self.started
    }

    /// The internal invariant: once started, nothing waits.
    pub closed spec fn wf(&self) -> bool {
        self.started ==> self.pending@.len() == 0
    }

    /// An empty registry of an application that has not started yet.
    pub fn new() -> (r: Self)
        ensures
            r.wf(),
            !r.started(),
            r.pending() == Seq::<F>::empty(),
    {
        LateInit { pending: Vec::new(), started: false }
    }

    /// Registers a callback.  Before the start it waits and [`None`] is
    /// returned; after the start it is returned to be run at once.
    pub fn register(&mut self, func: F) -> (r: Option<F>)
        requires
            old(self).wf(),
        ensures
            final(self).wf(),
            final(self).started() == old(self).started(),
            old(self).started() ==> r == Some(func) && final(self).pending() == old(self).pending(),
            !old(self).started() ==> r is None && final(self).pending() == old(self).pending().push(func),
    {
        if self.started {
            Some(func)
        } else {
            self.pending.push(func);
            None
        }
    }

    /// Marks the application as started and hands out every waiting
    /// callback, in the order they were registered, to be run.
    pub fn take_pending(&mut self) -> (r: Vec<F>)
        requires
            old(self).wf(),
        ensures
            final(self).wf(),
            final(self).started(),
            final(self).pending() == Seq::<F>::empty(),
            r@ == old(self).pending(),
    {
        let mut r: Vec<F> = Vec::new();
        std::mem::swap(&mut r, &mut self.pending);
        self.started = true;
        r
    }
}

} // verus!
