use std::sync::atomic::AtomicUsize;
use std::sync::atomic::Ordering;
use std::sync::Arc;
use vstd::prelude::*;

verus! {

spec fn nat_of(n: usize) -> nat {
    n as nat
}

spec fn nat_pred(n: nat) -> nat {
    (n - 1) as nat
}

/// A dynamic index that updates automatically when items are shifted
/// inside a factory container.
///
/// Cloning a [`DynamicIndex`] shares the underlying slot, so the clone held by a
/// component observes every update made by the factory.
///
/// Besides the shared slot, every handle remembers (as ghost state) the last value
/// written through it.  Only the factory writes, through the handle it keeps, so
/// for that handle this is the value of the slot.
pub struct DynamicIndex {
    inner: Arc<AtomicUsize>,
    written: Ghost<nat>,
}

impl DynamicIndex {
    /// The value last written through this handle.
    pub closed spec fn written(&self) -> nat {
        self.written@
    }

    /// The shared slot this handle reads and writes.  Handles with the same
    /// slot see each other's writes.
    pub closed spec fn slot(&self) -> Arc<AtomicUsize> {
        self.inner
    }

    /// Creates a new index with the given value.
    pub fn new(index: usize) -> (r: Self)
        ensures
            r.written() == index,
    {
        DynamicIndex { inner: Arc::new(AtomicUsize::new(index)), written: Ghost(nat_of(index)) }
    }

    /// Get the current index number.
    ///
    /// The slot is shared by all clones of this index and is updated by the
    /// factory container, so the value read here is only known at run time.
    pub fn current_index(&self) -> usize {
        self.inner.load(Ordering::Relaxed)
    }

    /// Increments the shared index by one.
    pub(crate) fn increment(&mut self)
        requires
            old(self).written() < usize::MAX,
        ensures
            final(self).written() == old(self).written() + 1,
            final(self).slot() == old(self).slot(),
    {
        self.inner.fetch_add(1, Ordering::Relaxed);
        self.written = Ghost(self.written@ + 1);
    }

    /// Decrements the shared index by one.
    pub(crate) fn decrement(&mut self)
        requires
            old(self).written() > 0,
        ensures
            final(self).written() == old(self).written() - 1,
            final(self).slot() == old(self).slot(),
    {
        self.inner.fetch_sub(1, Ordering::Relaxed);
        self.written = Ghost(nat_pred(self.written@));
    }

    /// Overwrites the shared index.
    pub(crate) fn set_value(&mut self, new_value: usize)
        ensures
            final(self).written() == new_value,
            final(self).slot() == old(self).slot(),
    {
        self.inner.store(new_value, Ordering::Relaxed);
        self.written = Ghost(nat_of(new_value));
    }

    /// Creates another handle to the same slot.
    pub fn share(&self) -> (r: Self)
        ensures
            r.written() == self.written(),
            r.slot() == self.slot(),
    {
        DynamicIndex { inner: Arc::clone(&self.inner), written: Ghost(self.written@) }
    }
}

impl Clone for DynamicIndex {
    fn clone(&self) -> (r: Self)
        ensures
            r.written() == self.written(),
            r.slot() == self.slot(),
    {
        self.share()
    }
}

} // verus!
