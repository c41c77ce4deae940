//! A bounded first-in-first-out queue of accepted jobs.

use vstd::prelude::*;
use crate::error::Error;
use crate::job::{JobId, PrintJobRequest};

verus! {

/// Bounded queue of jobs that were admitted and not yet handed to a worker.
///
/// Its occupancy is the length of its contents, so the count can never
/// drift from what the queue holds.
pub struct JobQueue {
    items: Vec<PrintJobRequest>,
    max_size: usize,
    total_pushed: u64,
    total_popped: u64,
    peak_size: usize,
}

/// A snapshot of a queue's figures.
#[derive(Debug, Clone, Copy, PartialEq, Eq, Structural)]
pub struct QueueStatistics {
    pub current_size: usize,
    pub max_size: usize,
    /// Jobs ever admitted, saturating at `u64::MAX`.
    pub total_pushed: u64,
    /// Jobs ever handed out, saturating at `u64::MAX`.
    pub total_popped: u64,
    /// The largest occupancy seen.
    pub peak_size: usize,
}

impl View for JobQueue {
    type V = Seq<PrintJobRequest>;

    closed spec fn view(&self) -> Seq<PrintJobRequest> {
        self.items@
    }
}

/// The first position in `s` that holds the job `id`, if any.
pub open spec fn first_index_of(s: Seq<PrintJobRequest>, id: JobId) -> int
    recommends
        exists|i: int| 0 <= i < s.len() && s[i].job_id == id,
{
    choose|i: int| 0 <= i < s.len() && s[i].job_id == id && forall|j: int| 0 <= j < i ==> s[j].job_id != id
}

impl JobQueue {
    /// The capacity the queue was made with.
    pub closed spec fn spec_max_size(&self) -> usize {
        self.max_size
    }

    /// Occupancy never exceeds the capacity, which is positive.
    pub closed spec fn wf(&self) -> bool {
        &&& 0 < self.max_size
        &&& self.items.len() <= self.max_size
        &&& self.items.len() <= self.peak_size <= self.max_size
    }

    pub open spec fn spec_is_full(&self) -> bool {
        self@.len() >= self.spec_max_size()
    }

    /// An empty queue that holds at most `max_size` jobs.
    pub fn new(max_size: usize) -> (r: Result<JobQueue, Error>)
        ensures
            r is Err <==> max_size == 0,
            r matches Err(e) ==> e is InvalidConfiguration,
            r matches Ok(q) ==> q.wf() && q@ == Seq::<PrintJobRequest>::empty() && q.spec_max_size()
                == max_size,
    {
        if max_size == 0 {
            return Err(Error::InvalidConfiguration(String::from_str("queue size must be greater than 0")));
        }
        Ok(JobQueue { items: Vec::new(), max_size, total_pushed: 0, total_popped: 0, peak_size: 0 })
    }

    /// Appends a job at the tail, or fails with `QueueFull` when the queue
    /// already holds `max_size` jobs.
    pub fn push(&mut self, request: PrintJobRequest) -> (r: Result<(), Error>)
        requires
            old(self).wf(),
        ensures
            final(self).wf(),
            final(self).spec_max_size() == old(self).spec_max_size(),
            r is Err <==> old(self).spec_is_full(),
            r matches Err(e) ==> e is QueueFull,
            r is Ok ==> final(self)@ == old(self)@.push(request),
            r is Err ==> final(self)@ == old(self)@,
    {
        if self.items.len() >= self.max_size {
            return Err(Error::QueueFull);
        }
        self.items.push(request);
        self.total_pushed = self.total_pushed.saturating_add(1);
        if self.items.len() > self.peak_size {
            self.peak_size = self.items.len();
        }
        Ok(())
    }

    /// Takes the job at the head, the oldest one, if the queue holds any.
    pub fn pop(&mut self) -> (r: Option<PrintJobRequest>)
        requires
            old(self).wf(),
        ensures
            final(self).wf(),
            final(self).spec_max_size() == old(self).spec_max_size(),
            old(self)@.len() == 0 ==> r is None && final(self)@ == old(self)@,
            old(self)@.len() > 0 ==> r == Some(old(self)@[0]) && final(self)@ == old(self)@.drop_first(),
    {
        if self.items.len() == 0 {
            return None;
        }
        let first = self.items.remove(0);
        self.total_popped = self.total_popped.saturating_add(1);
        assert(self.items@ =~= old(self)@.drop_first());
        Some(first)
    }

    /// The first position of job `id` in the queue.
    fn position(&self, id: JobId) -> (r: Option<usize>)
        ensures
            r is None <==> !(exists|i: int| 0 <= i < self@.len() && self@[i].job_id == id),
            r matches Some(i) ==> i == first_index_of(self@, id) && i < self@.len(),
    {
        let mut i: usize = 0;
        while i < self.items.len()
            invariant
                0 <= i <= self.items.len(),
                forall|j: int| 0 <= j < i ==> self.items@[j].job_id != id,
            decreases self.items.len() - i,
        {
            if self.items[i].job_id == id {
                proof {
                    let k = first_index_of(self@, id);
                    assert(0 <= k < self@.len() && self@[k].job_id == id && forall|j: int| 0 <= j < k ==> self@[j].job_id != id);
                    assert(k == i as int) by {
                        if k < i as int {
                        } else if k > i as int {
                        }
                    }
                }
                return Some(i);
            }
            i = i + 1;
        }
        None
    }

    /// Takes the job `id` out of the queue, wherever it stands.
    pub fn remove_job(&mut self, id: JobId) -> (r: Option<PrintJobRequest>)
        requires
            old(self).wf(),
        ensures
            final(self).wf(),
            final(self).spec_max_size() == old(self).spec_max_size(),
            r is Some <==> exists|i: int| 0 <= i < old(self)@.len() && old(self)@[i].job_id == id,
            r is None ==> *final(self) == *old(self),
            r is Some ==> r == Some(old(self)@[first_index_of(old(self)@, id)])
                && final(self)@ == old(self)@.remove(first_index_of(old(self)@, id)),
    {
        match self.position(id) {
            Some(i) => Some(self.items.remove(i)),
            None => None,
        }
    }

    /// Drops every pending job; jobs already handed to a worker are not
    /// affected.
    pub fn clear(&mut self)
        requires
            old(self).wf(),
        ensures
            final(self).wf(),
            final(self).spec_max_size() == old(self).spec_max_size(),
            final(self)@ == Seq::<PrintJobRequest>::empty(),
    {
        self.items.clear();
    }

    /// How many jobs are waiting.
    pub fn size(&self) -> (r: usize)
        ensures
            r == self@.len(),
    {
        self.items.len()
    }

    /// Whether no job is waiting.
    pub fn is_empty(&self) -> (r: bool)
        ensures
            r == (self@.len() == 0),
    {
        self.items.len() == 0
    }

    /// Whether a `push` would fail for want of room.
    pub fn is_full(&self) -> (r: bool)
        ensures
            r == self.spec_is_full(),
    {
        self.items.len() >= self.max_size
    }

    /// The capacity.
    pub fn max_size(&self) -> (r: usize)
        ensures
            r == self.spec_max_size(),
    {
        self.max_size
    }

    /// The queue's figures.
    pub fn get_statistics(&self) -> (r: QueueStatistics)
        requires
            self.wf(),
        ensures
            r.current_size == self@.len(),
            r.max_size == self.spec_max_size(),
            r.current_size <= r.peak_size <= r.max_size,
    {
        QueueStatistics {
            current_size: self.items.len(),
            max_size: self.max_size,
            total_pushed: self.total_pushed,
            total_popped: self.total_popped,
            peak_size: self.peak_size,
        }
    }
}

/// Capacity law: a queue that holds as many jobs as its capacity refuses
/// the next push, and once one job has been popped from it, it accepts a
/// push again.
pub proof fn lemma_capacity(full: JobQueue, popped: JobQueue)
    requires
        full.wf(),
        full@.len() == full.spec_max_size(),
        popped.spec_max_size() == full.spec_max_size(),
        popped@ == full@.drop_first(),
    ensures
        full.spec_is_full(),
        !popped.spec_is_full(),
{
}

} // verus!
