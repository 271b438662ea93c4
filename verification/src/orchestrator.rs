//! The workers of one run, side by side.
//!
//! Every worker has a slot. What happens on one connection is delivered to
//! the worker of that slot and to no other.

use vstd::prelude::*;
use crate::worker::{Action, Event, Phase, Worker, WorkerResult};

verus! {

/// The workers of one run.
pub struct Orchestrator {
    workers: Vec<Worker>,
}

impl Orchestrator {
    /// The workers, by slot.
    pub closed spec fn workers(&self) -> Seq<Worker> {
        self.workers@
    }

    /// Every worker is well-formed.
    pub open spec fn wf(&self) -> bool {
        forall|slot: int| 0 <= slot < self.workers().len() ==> (#[trigger] self.workers()[slot]).wf()
    }

    /// A run without workers.
    pub fn new() -> (run: Orchestrator)
        ensures
            run.wf(),
            run.workers().len() == 0,
    {
        Orchestrator { workers: Vec::new() }
    }

    /// Gives `worker` the next free slot and says which it is.
    pub fn spawn(&mut self, worker: Worker) -> (slot: usize)
        requires
            old(self).wf(),
            worker.wf(),
        ensures
            final(self).wf(),
            slot == old(self).workers().len(),
            final(self).workers() == old(self).workers().push(worker),
    {
        let slot = self.workers.len();
        self.workers.push(worker);
        proof {
            assert forall|at: int| 0 <= at < self.workers().len() implies (
            #[trigger] self.workers()[at]).wf() by {
                if at < slot {
                    assert(self.workers()[at] == old(self).workers()[at]);
                }
            }
        }
        slot
    }

    /// Number of slots.
    pub fn len(&self) -> (n: usize)
        ensures
            n == self.workers().len(),
    {
        self.workers.len()
    }

    /// Steps the worker of `slot` on `event`. Every other worker stays as
    /// it is: its phase, its counters, its codec and its random generator.
    pub fn deliver(&mut self, slot: usize, event: Event) -> (action: Action)
        requires
            old(self).wf(),
            slot < old(self).workers().len(),
            old(self).workers()[slot as int]@.encoded < u64::MAX,
        ensures
            final(self).wf(),
            final(self).workers().len() == old(self).workers().len(),
            final(self).workers()[slot as int]@ == old(self).workers()[slot as int]@.next(event),
            old(self).workers()[slot as int]@.answers(event, action),
            forall|other: int|
                0 <= other < old(self).workers().len() && other != slot ==> final(self).workers()[other]
                    == old(self).workers()[other],
    {
        self.workers[slot].step(event)
    }

    /// What the worker of `slot` reported when it ended; `None` while it
    /// runs.
    pub fn result(&self, slot: usize) -> (r: Option<WorkerResult>)
        requires
            slot < self.workers().len(),
        ensures
            r == match self.workers()[slot as int]@.phase {
                Phase::Terminated(cause) => Some(self.workers()[slot as int]@.result(cause)),
                _ => None,
            },
    {
        self.workers[slot].result()
    }

    /// Tells whether every worker has ended.
    pub fn finished(&self) -> (r: bool)
        ensures
            r <==> forall|slot: int|
                0 <= slot < self.workers().len() ==> (#[trigger] self.workers()[slot])@.phase is Terminated,
    {
        let mut slot: usize = 0;
        while slot < self.workers.len()
            invariant
                slot <= self.workers.len(),
                forall|seen: int|
                    0 <= seen < slot ==> (#[trigger] self.workers()[seen])@.phase is Terminated,
            decreases self.workers.len() - slot,
        {
            match self.workers[slot].phase() {
                Phase::Terminated(_) => {},
                _ => {
                    return false;
                },
            }
            slot += 1;
        }
        true
    }
}

} // verus!
