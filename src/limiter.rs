use vstd::prelude::*;

verus! {

/// A counting permit pool with a first-come-first-served queue of waiters.
///
/// It holds no port data: only how many permits exist, how many are held
/// and how many requests wait for one.
#[derive(Clone, Copy, Debug)]
pub struct Limiter {
    capacity: usize,
    outstanding: usize,
    waiting: usize,
}

/// The abstract state of a [`Limiter`].
pub struct LimiterView {
    pub capacity: nat,
    pub outstanding: nat,
    pub waiting: nat,
}

impl LimiterView {
    /// At least one permit exists, no more are held than exist, and nobody
    /// waits while a permit is free.
    pub open spec fn wf(&self) -> bool {
        &&& self.capacity >= 1
        &&& self.outstanding <= self.capacity
        &&& self.waiting > 0 ==> self.outstanding == self.capacity
    }
}

impl View for Limiter {
    type V = LimiterView;

    closed spec fn view(&self) -> LimiterView {
        LimiterView {
            capacity: self.capacity as nat,
            outstanding: self.outstanding as nat,
            waiting: self.waiting as nat,
        }
    }
}

impl Limiter {
    /// A pool of `capacity` permits, none held, nobody waiting.
    pub fn new(capacity: usize) -> (r: Limiter)
        requires
            capacity >= 1,
        ensures
            r@.wf(),
            r@.capacity == capacity,
            r@.outstanding == 0,
            r@.waiting == 0,
    {
        Limiter { capacity, outstanding: 0, waiting: 0 }
    }

    /// Asks for a permit. Returns `true` when one is granted at once;
    /// otherwise the request joins the end of the queue.
    pub fn acquire(&mut self) -> (granted: bool)
        requires
            old(self)@.wf(),
            old(self)@.waiting < usize::MAX,
        ensures
            final(self)@.wf(),
            final(self)@.capacity == old(self)@.capacity,
            granted == (old(self)@.outstanding < old(self)@.capacity),
            granted ==> final(self)@.outstanding == old(self)@.outstanding + 1 && final(self)@.waiting
                == old(self)@.waiting,
            !granted ==> final(self)@.outstanding == old(self)@.outstanding && final(self)@.waiting
                == old(self)@.waiting + 1,
    {
        if self.outstanding < self.capacity {
            self.outstanding = self.outstanding + 1;
            true
        } else {
            self.waiting = self.waiting + 1;
            false
        }
    }

    /// Gives a held permit back. Returns `true` when it passes straight to
    /// the request at the head of the queue, `false` when it returns to the
    /// pool.
    pub fn release(&mut self) -> (handed_over: bool)
        requires
            old(self)@.wf(),
            old(self)@.outstanding > 0,
        ensures
            final(self)@.wf(),
            final(self)@.capacity == old(self)@.capacity,
            handed_over == (old(self)@.waiting > 0),
            handed_over ==> final(self)@.outstanding == old(self)@.outstanding && final(self)@.waiting
                == old(self)@.waiting - 1,
            !handed_over ==> final(self)@.outstanding == old(self)@.outstanding - 1
                && final(self)@.waiting == 0,
    {
        if self.waiting > 0 {
            self.waiting = self.waiting - 1;
            true
        } else {
            self.outstanding = self.outstanding - 1;
            false
        }
    }

    /// The number of permits in the pool.
    pub fn capacity(&self) -> (r: usize)
        ensures
            r == self@.capacity,
    {
        self.capacity
    }

    /// The number of permits currently held.
    pub fn outstanding(&self) -> (r: usize)
        ensures
            r == self@.outstanding,
    {
        self.outstanding
    }

    /// The number of requests waiting for a permit.
    pub fn waiting(&self) -> (r: usize)
        ensures
            r == self@.waiting,
    {
        self.waiting
    }
}

} // verus!
