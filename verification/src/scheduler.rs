//! The bounded, self-feeding work queue and its fixed-width worker pool,
//! as state. Workers are also producers: a running unit may enqueue
//! further units onto the same queue. The queue's capacity throttles
//! recursive fan-out — an enqueue onto a full queue does not go through —
//! and the pool's width caps how many units run at once. Work is done
//! exactly when nothing waits and nothing runs.

use vstd::prelude::*;
use crate::scraper_job::ScraperJob;
use crate::url_parts::UrlParts;

verus! {

/// One ready-to-run unit of work: a job about to execute its request
/// plan against one URL.
pub struct WorkUnit {
    pub job: ScraperJob,
    pub url: UrlParts,
}

/// The scheduler's state: the units waiting in the queue, the queue's
/// capacity, the pool's width, and how many units run right now.
pub struct Scheduler {
    pending: Vec<WorkUnit>,
    capacity: usize,
    width: usize,
    in_flight: usize,
}

impl Scheduler {
    /// The scheduler's invariant: never more units waiting than the
    /// queue's capacity, never more running than the pool's width.
    pub closed spec fn wf(&self) -> bool {
        self.pending@.len() <= self.capacity && self.in_flight <= self.width
    }

    /// The units waiting, in queue order.
    pub closed spec fn spec_pending(&self) -> Seq<WorkUnit> {
        self.pending@
    }

    /// The queue's capacity.
    pub closed spec fn spec_capacity(&self) -> usize {
        self.capacity
    }

    /// The pool's width.
    pub closed spec fn spec_width(&self) -> usize {
        self.width
    }

    /// How many units run right now.
    pub closed spec fn spec_in_flight(&self) -> usize {
        self.in_flight
    }

    /// A well-formed scheduler never holds more than its capacity in
    /// waiting units nor more than its width in running units.
    pub proof fn lemma_scheduler_bounds(&self)
        requires
            self.wf(),
        ensures
            self.spec_pending().len() <= self.spec_capacity(),
            self.spec_in_flight() <= self.spec_width(),
    {
    }

    /// An empty scheduler with the given queue capacity and pool width.
    pub fn new(capacity: usize, width: usize) -> (r: Scheduler)
        requires
            1 <= capacity,
            1 <= width,
        ensures
            r.wf(),
            r.spec_pending() == Seq::<WorkUnit>::empty(),
            r.spec_capacity() == capacity,
            r.spec_width() == width,
            r.spec_in_flight() == 0,
    {
        Scheduler { pending: Vec::new(), capacity, width, in_flight: 0 }
    }

    /// Offers one unit to the queue. A full queue does not take it: the
    /// unit comes back to its producer, which must wait — this is the
    /// backpressure that throttles recursive fan-out.
    pub fn try_enqueue(&mut self, unit: WorkUnit) -> (r: Result<(), WorkUnit>)
        requires
            old(self).wf(),
        ensures
            final(self).wf(),
            final(self).spec_capacity() == old(self).spec_capacity(),
            final(self).spec_width() == old(self).spec_width(),
            final(self).spec_in_flight() == old(self).spec_in_flight(),
            old(self).spec_pending().len() < old(self).spec_capacity() <==> r is Ok,
            r is Ok ==> final(self).spec_pending() == old(self).spec_pending().push(unit),
            r matches Err(back) ==> back == unit && final(self).spec_pending() == old(
                self).spec_pending(),
    {
        if self.pending.len() < self.capacity {
            self.pending.push(unit);
            Ok(())
        } else {
            Err(unit)
        }
    }

    /// Hands the unit at the head of the queue to a free worker: only
    /// where one waits and the pool has room.
    pub fn start_unit(&mut self) -> (r: Option<WorkUnit>)
        requires
            old(self).wf(),
        ensures
            final(self).wf(),
            final(self).spec_capacity() == old(self).spec_capacity(),
            final(self).spec_width() == old(self).spec_width(),
            (old(self).spec_pending().len() > 0 && old(self).spec_in_flight() < old(
                self).spec_width()) <==> r is Some,
            r matches Some(unit) ==> {
                &&& unit == old(self).spec_pending()[0]
                &&& final(self).spec_pending() == old(self).spec_pending().drop_first()
                &&& final(self).spec_in_flight() == old(self).spec_in_flight() + 1
            },
            r is None ==> final(self).spec_pending() == old(self).spec_pending() && final(
                self).spec_in_flight() == old(self).spec_in_flight(),
    {
        if self.pending.len() > 0 && self.in_flight < self.width {
            let unit = self.pending.remove(0);
            self.in_flight = self.in_flight + 1;
            Some(unit)
        } else {
            None
        }
    }

    /// Records that one running unit finished.
    pub fn finish_unit(&mut self)
        requires
            old(self).wf(),
            old(self).spec_in_flight() > 0,
        ensures
            final(self).wf(),
            final(self).spec_capacity() == old(self).spec_capacity(),
            final(self).spec_width() == old(self).spec_width(),
            final(self).spec_pending() == old(self).spec_pending(),
            final(self).spec_in_flight() == old(self).spec_in_flight() - 1,
    {
        self.in_flight = self.in_flight - 1;
    }

    /// Whether all work is done: nothing waits and nothing runs. This is
    /// the explicit shutdown condition — the queue has no other end of
    /// stream.
    pub fn is_done(&self) -> (r: bool)
        ensures
            r == (self.spec_pending().len() == 0 && self.spec_in_flight() == 0),
    {
        self.pending.len() == 0 && self.in_flight == 0
    }

    /// How many units wait in the queue.
    pub fn pending_len(&self) -> (r: usize)
        ensures
            r == self.spec_pending().len(),
    {
        self.pending.len()
    }

    /// How many units run right now.
    pub fn in_flight_count(&self) -> (r: usize)
        ensures
            r == self.spec_in_flight(),
    {
        self.in_flight
    }
}

} // verus!
