//! The scheduler's book-keeping: at most the connection bound's worth of
//! fetches in flight at once, and the merge may begin only when every
//! fetch has completed, success and failure alike.

use vstd::prelude::*;

verus! {

/// Progress of a bounded worker pool running one fetch per part.
/// `started - finished` is the number of fetches currently in flight.
#[derive(Debug, Clone, Copy, PartialEq, Eq, Structural)]
pub struct Scheduler {
    pub total: usize,
    pub bound: i32,
    pub started: usize,
    pub finished: usize,
}

impl Scheduler {
    /// The pool's invariant: no fetch finishes before it starts, no fetch
    /// starts that was never planned, and never more than `bound` are in
    /// flight.
    pub open spec fn wf(&self) -> bool {
        &&& 1 <= self.bound <= 8
        &&& self.finished <= self.started <= self.total
        &&& self.started - self.finished <= self.bound
    }

    /// A pool for `total` parts over at most `bound` connections.
    pub fn new(total: usize, bound: i32) -> (s: Scheduler)
        requires
            1 <= bound <= 8,
        ensures
            s.wf(),
            s.total == total,
            s.bound == bound,
            s.started == 0,
            s.finished == 0,
    {
        Scheduler { total, bound, started: 0, finished: 0 }
    }

    /// Whether another fetch may be handed to the pool: a part remains
    /// unstarted and a connection is free.
    pub fn can_start(&self) -> (r: bool)
        requires
            self.wf(),
        ensures
            r == (self.started < self.total && self.started - self.finished < self.bound),
    {
        self.started < self.total && self.started - self.finished < (self.bound as usize)
    }

    /// Hand one more fetch to the pool; the bound still holds afterwards.
    pub fn start_one(&mut self)
        requires
            old(self).wf(),
            old(self).started < old(self).total,
            old(self).started - old(self).finished < old(self).bound,
        ensures
            final(self).wf(),
            final(self).started == old(self).started + 1,
            final(self).finished == old(self).finished,
            final(self).total == old(self).total,
            final(self).bound == old(self).bound,
    {
        self.started = self.started + 1;
    }

    /// Record one completed fetch, successful or failed alike: a failed
    /// segment's partial bytes are still valid resume state, so it counts
    /// as done and its siblings run on.
    pub fn finish_one(&mut self)
        requires
            old(self).wf(),
            old(self).finished < old(self).started,
        ensures
            final(self).wf(),
            final(self).finished == old(self).finished + 1,
            final(self).started == old(self).started,
            final(self).total == old(self).total,
            final(self).bound == old(self).bound,
    {
        self.finished = self.finished + 1;
    }

    /// Whether the merge may begin: every planned fetch has completed,
    /// not merely the bound's worth of them.
    pub fn all_done(&self) -> (r: bool)
        requires
            self.wf(),
        ensures
            r == (self.finished == self.total),
    {
        self.finished == self.total
    }
}

} // verus!
