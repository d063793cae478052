//! The global job queue: every host pulls its next unit from here.
use vstd::prelude::*;

verus! {

/// One indivisible piece of work: a chunk file and its place in the split order.
pub struct JobUnit {
    pub ordinal: usize,
    pub path: String,
}

impl JobUnit {
    pub fn new(ordinal: usize, path: String) -> (r: JobUnit)
        ensures
            r.ordinal == ordinal,
            r.path@ == path@,
    {
        JobUnit { ordinal, path }
    }

    /// A copy of the unit with the same ordinal and path.
    pub fn duplicate(&self) -> (r: JobUnit)
        ensures
            r == *self,
    {
        JobUnit { ordinal: self.ordinal, path: self.path.clone() }
    }
}

/// What a consumer gets when it asks the queue for work.
pub enum Pull {
    /// The next unit, now owned by the caller alone.
    Unit(JobUnit),
    /// Nothing yet, but more may come: the queue is not sealed.
    Pending,
    /// The queue is sealed and drained: no unit will ever come.
    Exhausted,
}

/// The abstract state of a queue: every unit ever loaded, how many have been
/// handed out (always the oldest ones), and whether loading is over.
pub struct QueueView {
    pub units: Seq<JobUnit>,
    pub next: nat,
    pub sealed: bool,
}

/// A multi-consumer, single-shot work queue. Units are handed out in the order
/// they were loaded, each to one consumer only.
pub struct JobQueue {
    units: Vec<JobUnit>,
    next: usize,
    sealed: bool,
}

impl View for JobQueue {
    type V = QueueView;

    closed spec fn view(&self) -> QueueView {
        QueueView { units: self.units@, next: self.next as nat, sealed: self.sealed }
    }
}

/// The queue after one pull, and what that pull returned.
pub open spec fn pull_spec(q: QueueView) -> (QueueView, Option<JobUnit>) {
    if q.next < q.units.len() {
        (QueueView { next: q.next + 1, ..q }, Some(q.units[q.next as int]))
    } else {
        (q, None)
    }
}

impl JobQueue {
    pub closed spec fn wf(&self) -> bool {
        self.next <= self.units.len()
    }

    /// An open, empty queue.
    pub fn new() -> (r: JobQueue)
        ensures
            r.wf(),
            r@.units.len() == 0,
            r@.next == 0,
            !r@.sealed,
    {
        JobQueue { units: Vec::new(), next: 0, sealed: false }
    }

    /// A sealed queue that holds `units`, in their order.
    pub fn loaded(units: Vec<JobUnit>) -> (r: JobQueue)
        ensures
            r.wf(),
            r@.units == units@,
            r@.next == 0,
            r@.sealed,
    {
        JobQueue { units, next: 0, sealed: true }
    }

    /// Appends a unit behind those already loaded.
    pub fn enqueue(&mut self, unit: JobUnit)
        requires
            old(self).wf(),
            !old(self)@.sealed,
        ensures
            final(self).wf(),
            final(self)@ == (QueueView { units: old(self)@.units.push(unit), ..old(self)@ }),
    {
        self.units.push(unit);
    }

    /// Declares that no further unit will be loaded.
    pub fn seal(&mut self)
        requires
            old(self).wf(),
        ensures
            final(self).wf(),
            final(self)@ == (QueueView { sealed: true, ..old(self)@ }),
    {
        self.sealed = true;
    }

    pub fn is_sealed(&self) -> (r: bool)
        ensures
            r == self@.sealed,
    {
        self.sealed
    }

    /// Number of units not handed out yet.
    pub fn len(&self) -> (r: usize)
        requires
            self.wf(),
        ensures
            r == self@.units.len() - self@.next,
    {
        self.units.len() - self.next
    }

    /// Hands out the oldest unit not handed out yet. Once the queue is sealed
    /// and drained, every further call says so.
    pub fn dequeue(&mut self) -> (r: Pull)
        requires
            old(self).wf(),
        ensures
            final(self).wf(),
            final(self)@ == pull_spec(old(self)@).0,
            match r {
                Pull::Unit(u) => pull_spec(old(self)@).1 == Some(u),
                Pull::Pending => pull_spec(old(self)@).1 is None && !old(self)@.sealed,
                Pull::Exhausted => pull_spec(old(self)@).1 is None && old(self)@.sealed,
            },
    {
        if self.next < self.units.len() {
            let unit = self.units[self.next].duplicate();
            self.next = self.next + 1;
            Pull::Unit(unit)
        } else if self.sealed {
            Pull::Exhausted
        } else {
            Pull::Pending
        }
    }
}

} // verus!
