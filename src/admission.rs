use vstd::prelude::*;

use crate::report::{lemma_tally_counts_every_outcome, tally};
use crate::outcome::Outcome;

verus! {

/// Admission control for a run of `count` sessions with at most `parallel`
/// of them in flight: a pool of `parallel` tokens, handed out in spawn order.
#[derive(Clone, Copy, Debug)]
pub struct Admission {
    pub count: usize,
    pub parallel: usize,
    /// Ordinal (from 0) of the next session to admit.
    pub next: usize,
    /// Sessions admitted and not yet finished, each holding a token.
    pub in_flight: usize,
    /// Sessions that finished and gave their token back.
    pub finished: usize,
}

impl Admission {
    pub open spec fn wf(self) -> bool {
        &&& self.parallel > 0
        &&& self.in_flight <= self.parallel
        &&& self.next <= self.count
        &&& self.finished + self.in_flight == self.next
    }

    pub fn new(count: usize, parallel: usize) -> (r: Admission)
        requires
            parallel > 0,
        ensures
            r.wf(),
            r.count == count,
            r.parallel == parallel,
            r.next == 0,
            r.in_flight == 0,
            r.finished == 0,
    {
        Admission { count, parallel, next: 0, in_flight: 0, finished: 0 }
    }

    /// Whether the session with spawn ordinal `index` belongs to the first
    /// wave, whose starts are staggered by the ramp delay.
    pub fn ramps(&self, index: usize) -> (r: bool)
        ensures
            r == (index < self.parallel),
    {
        index < self.parallel
    }

    /// Hands a token to the next session when one is free and sessions are
    /// left to spawn, and gives its ordinal; otherwise changes nothing.
    pub fn try_admit(&mut self) -> (r: Option<usize>)
        requires
            old(self).wf(),
        ensures
            final(self).wf(),
            final(self).count == old(self).count,
            final(self).parallel == old(self).parallel,
            final(self).finished == old(self).finished,
            old(self).next < old(self).count && old(self).in_flight < old(self).parallel ==> (
            r == Some(old(self).next) && final(self).next == old(self).next + 1
                && final(self).in_flight == old(self).in_flight + 1),
            !(old(self).next < old(self).count && old(self).in_flight < old(self).parallel) ==> (
            r is None && *final(self) == *old(self)),
    {
        if self.next < self.count && self.in_flight < self.parallel {
            let i = self.next;
            self.next = self.next + 1;
            self.in_flight = self.in_flight + 1;
            Some(i)
        } else {
            None
        }
    }

    /// A session finished: its token returns to the pool.
    pub fn release(&mut self)
        requires
            old(self).wf(),
            old(self).in_flight > 0,
        ensures
            final(self).wf(),
            *final(self) == (Admission {
                in_flight: (old(self).in_flight - 1) as usize,
                finished: (old(self).finished + 1) as usize,
                ..*old(self)
            }),
    {
        self.in_flight = self.in_flight - 1;
        self.finished = self.finished + 1;
    }

    /// Whether every session of the run has finished.
    pub fn is_done(&self) -> (r: bool)
        requires
            self.wf(),
        ensures
            r == (self.finished == self.count),
            r ==> self.in_flight == 0 && self.next == self.count,
    {
        self.finished == self.count
    }
}

/// At no point are more sessions in flight than there are tokens.
pub proof fn lemma_in_flight_bounded(a: Admission)
    requires
        a.wf(),
    ensures
        a.in_flight <= a.parallel,
        a.finished <= a.next <= a.count,
{
}

/// Once a run is done and the outcome of each finished session has been
/// taken in, errors, timeouts and successes add up to the session count.
pub proof fn lemma_run_accounts_for_every_session<T>(a: Admission, outcomes: Seq<Outcome<T>>)
    requires
        a.wf(),
        a.finished == a.count,
        outcomes.len() == a.finished,
    ensures
        tally(outcomes).0 + tally(outcomes).1 + tally(outcomes).2.len() == a.count,
{
    lemma_tally_counts_every_outcome(outcomes);
}

/// The handles of the most recent sessions, at most `capacity` of them: a
/// new handle takes a free slot while there is one, and then overwrites the
/// slot of its ordinal modulo the capacity.
pub struct HandleTable<H> {
    slots: Vec<H>,
    capacity: usize,
}

impl<H> HandleTable<H> {
    pub closed spec fn slots_view(&self) -> Seq<H> {
        self.slots@
    }

    pub closed spec fn capacity_spec(&self) -> nat {
        self.capacity as nat
    }

    pub open spec fn wf(&self) -> bool {
        &&& self.capacity_spec() > 0
        &&& self.slots_view().len() <= self.capacity_spec()
    }

    pub fn new(capacity: usize) -> (r: HandleTable<H>)
        requires
            capacity > 0,
        ensures
            r.wf(),
            r.capacity_spec() == capacity,
            r.slots_view() == Seq::<H>::empty(),
    {
        HandleTable { slots: Vec::new(), capacity }
    }

    /// Keeps the handle of the session with ordinal `index`.
    pub fn put(&mut self, index: usize, handle: H)
        requires
            old(self).wf(),
        ensures
            final(self).wf(),
            final(self).capacity_spec() == old(self).capacity_spec(),
            old(self).slots_view().len() < old(self).capacity_spec() ==> final(self).slots_view()
                == old(self).slots_view().push(handle),
            old(self).slots_view().len() >= old(self).capacity_spec() ==> final(self).slots_view()
                == old(self).slots_view().update(
                (index as nat % old(self).capacity_spec()) as int,
                handle,
            ),
    {
        if self.slots.len() < self.capacity {
            self.slots.push(handle);
        } else {
            let slot = index % self.capacity;
            self.slots[slot] = handle;
        }
    }

    pub fn len(&self) -> (r: usize)
        ensures
            r == self.slots_view().len(),
    {
        self.slots.len()
    }

    /// The handles kept, to be awaited at the end of the run.
    pub fn into_handles(self) -> (r: Vec<H>)
        ensures
            r@ == self.slots_view(),
    {
        self.slots
    }
}

} // verus!
