//! The job processor: the authoritative job-id to status map, the lifecycle
//! state machine, and the decisions a worker takes. The workers themselves,
//! which wait on the queue and run the document pipeline, live outside the
//! library and call in here for every step.

use vstd::prelude::*;
use crate::error::Error;
use crate::job::{JobId, JobStatistics, JobStatus, PrintJobRequest};
use crate::queue::{first_index_of, JobQueue};
use vstd::pervasive::VecAdditionalExecFns;

verus! {

/// What the document pipeline reported for a job that was processing.
#[derive(Debug, Clone)]
pub enum JobOutcome {
    /// The pipeline finished the job.
    Completed(JobStatistics),
    /// The pipeline failed with this error.
    Failed(Error),
    /// The job outlived the configured per-job timeout.
    TimedOut,
}

/// Everything the processor records of one job.
struct JobRecord {
    job_id: JobId,
    status: JobStatus,
    cancel_requested: bool,
    error: Option<Error>,
    statistics: Option<JobStatistics>,
    document: Vec<u8>,
    document_closed: bool,
}

/// Owns the job queue and the status of every job it admitted.
pub struct JobProcessor {
    queue: JobQueue,
    held: Vec<PrintJobRequest>,
    max_concurrent: usize,
    worker_threads: usize,
    jobs: Vec<JobRecord>,
    active: usize,
}

spec fn distinct_ids(s: Seq<JobRecord>) -> bool {
    forall|i: int, j: int| 0 <= i < s.len() && 0 <= j < s.len() && i != j ==> s[i].job_id != s[j].job_id
}

spec fn has_id(s: Seq<JobRecord>, id: JobId) -> bool {
    exists|i: int| 0 <= i < s.len() && s[i].job_id == id
}

spec fn index_of(s: Seq<JobRecord>, id: JobId) -> int {
    choose|i: int| 0 <= i < s.len() && s[i].job_id == id
}

spec fn count_processing(s: Seq<JobRecord>) -> nat
    decreases s.len(),
{
    if s.len() == 0 {
        0
    } else {
        count_processing(s.drop_last()) + if s.last().status is Processing { 1nat } else { 0nat }
    }
}

spec fn processing_ind(r: JobRecord) -> nat {
    if r.status is Processing { 1 } else { 0 }
}

proof fn lemma_index_of_at(s: Seq<JobRecord>, i: int)
    requires
        distinct_ids(s),
        0 <= i < s.len(),
    ensures
        has_id(s, s[i].job_id),
        index_of(s, s[i].job_id) == i,
{
    assert(has_id(s, s[i].job_id));
}

proof fn lemma_update(s: Seq<JobRecord>, i: int, r: JobRecord)
    requires
        distinct_ids(s),
        0 <= i < s.len(),
        r.job_id == s[i].job_id,
    ensures
        distinct_ids(s.update(i, r)),
        forall|x: JobId| has_id(s.update(i, r), x) == has_id(s, x),
        forall|x: JobId| has_id(s, x) ==> index_of(s.update(i, r), x) == index_of(s, x),
        forall|x: JobId| x != r.job_id && has_id(s, x) ==> #[trigger] s.update(i, r)[index_of(s, x)] == s[index_of(s, x)],
        index_of(s, r.job_id) == i,
        count_processing(s.update(i, r)) + processing_ind(s[i]) == count_processing(s) + processing_ind(r),
{
    lemma_index_of_at(s, i);
    let t = s.update(i, r);
    assert forall|x: JobId| has_id(t, x) == has_id(s, x) by {
        if has_id(s, x) {
            let k = choose|k: int| 0 <= k < s.len() && s[k].job_id == x;
            assert(t[k].job_id == x);
        }
        if has_id(t, x) {
            let k = choose|k: int| 0 <= k < t.len() && t[k].job_id == x;
            assert(s[k].job_id == x);
        }
    }
    assert forall|x: JobId| has_id(s, x) implies index_of(t, x) == index_of(s, x) by {
        let k = index_of(s, x);
        lemma_index_of_at(s, k);
        lemma_index_of_at(t, k);
    }
    lemma_count_update(s, i, r);
}

proof fn lemma_count_update(s: Seq<JobRecord>, i: int, r: JobRecord)
    requires
        0 <= i < s.len(),
    ensures
        count_processing(s.update(i, r)) + processing_ind(s[i]) == count_processing(s) + processing_ind(r),
    decreases s.len(),
{
    let t = s.update(i, r);
    if i == s.len() - 1 {
        assert(t.drop_last() =~= s.drop_last());
    } else {
        assert(t.drop_last() =~= s.drop_last().update(i, r));
        lemma_count_update(s.drop_last(), i, r);
    }
}

proof fn lemma_push(s: Seq<JobRecord>, r: JobRecord)
    requires
        distinct_ids(s),
        !has_id(s, r.job_id),
    ensures
        distinct_ids(s.push(r)),
        forall|x: JobId| has_id(s.push(r), x) == (has_id(s, x) || x == r.job_id),
        forall|x: JobId| has_id(s, x) ==> index_of(s.push(r), x) == index_of(s, x),
        index_of(s.push(r), r.job_id) == s.len(),
        count_processing(s.push(r)) == count_processing(s) + processing_ind(r),
{
    let t = s.push(r);
    assert forall|i: int, j: int| 0 <= i < t.len() && 0 <= j < t.len() && i != j implies t[i].job_id
        != t[j].job_id by {
        if i == s.len() {
            assert(!(s[j].job_id == r.job_id && 0 <= j < s.len()));
        } else if j == s.len() {
            assert(!(s[i].job_id == r.job_id && 0 <= i < s.len()));
        }
    }
    assert forall|x: JobId| has_id(t, x) == (has_id(s, x) || x == r.job_id) by {
        if has_id(s, x) {
            let k = choose|k: int| 0 <= k < s.len() && s[k].job_id == x;
            assert(t[k].job_id == x);
        }
        if x == r.job_id {
            assert(t[s.len() as int].job_id == x);
        }
        if has_id(t, x) && x != r.job_id {
            let k = choose|k: int| 0 <= k < t.len() && t[k].job_id == x;
            assert(s[k].job_id == x);
        }
    }
    assert forall|x: JobId| has_id(s, x) implies index_of(t, x) == index_of(s, x) by {
        let k = index_of(s, x);
        lemma_index_of_at(s, k);
        lemma_index_of_at(t, k);
    }
    lemma_index_of_at(t, s.len() as int);
    assert(t.drop_last() =~= s);
}

spec fn queue_ids_distinct(q: Seq<PrintJobRequest>) -> bool {
    forall|k: int, l: int| 0 <= k < q.len() && 0 <= l < q.len() && k != l ==> q[k].job_id != q[l].job_id
}

proof fn lemma_queue_remove(q: Seq<PrintJobRequest>, k: int)
    requires
        queue_ids_distinct(q),
        0 <= k < q.len(),
    ensures
        queue_ids_distinct(q.remove(k)),
        forall|m: int| 0 <= m < q.remove(k).len() ==> #[trigger] q.remove(k)[m] == q[if m < k { m } else { m + 1 }],
        forall|m: int| 0 <= m < q.remove(k).len() ==> #[trigger] q.remove(k)[m].job_id != q[k].job_id,
{
    let r = q.remove(k);
    assert forall|m: int| 0 <= m < r.len() implies #[trigger] r[m] == q[if m < k { m } else { m + 1 }] by {}
    assert forall|m: int| 0 <= m < r.len() implies #[trigger] r[m].job_id != q[k].job_id by {
        assert(r[m] == q[if m < k { m } else { m + 1 }]);
    }
    assert forall|a: int, b: int| 0 <= a < r.len() && 0 <= b < r.len() && a != b implies r[a].job_id != r[b].job_id by {
        assert(r[a] == q[if a < k { a } else { a + 1 }]);
        assert(r[b] == q[if b < k { b } else { b + 1 }]);
    }
}

/// The number of jobs in `entries` whose status is not terminal.
pub open spec fn unfinished_in(entries: Seq<(JobId, JobStatus)>) -> nat
    decreases entries.len(),
{
    if entries.len() == 0 {
        0
    } else {
        unfinished_in(entries.drop_last()) + if entries.last().1.spec_is_terminal() { 0nat } else { 1nat }
    }
}

/// The lookup of one job in a list of (job, status) pairs.
pub open spec fn lookup(entries: Seq<(JobId, JobStatus)>, id: JobId) -> Option<JobStatus> {
    if exists|i: int| 0 <= i < entries.len() && entries[i].0 == id {
        Some(entries[choose|i: int| 0 <= i < entries.len() && entries[i].0 == id].1)
    } else {
        None
    }
}

/// What `cancel_job` makes of a job's status: a queued job is cancelled, a
/// processing one stays so until its pipeline stops, any other is left as
/// it is.
pub open spec fn cancel_transition(s: JobStatus) -> JobStatus {
    match s {
        JobStatus::Queued => JobStatus::Cancelled,
        _ => s,
    }
}

/// What the processor records when the pipeline of a processing job
/// reports `outcome`.
pub open spec fn finish_transition(cancel_requested: bool, outcome: JobOutcome) -> JobStatus {
    if cancel_requested {
        JobStatus::Cancelled
    } else {
        match outcome {
            JobOutcome::Completed(_) => JobStatus::Completed,
            _ => JobStatus::Failed,
        }
    }
}

impl JobProcessor {
    /// The jobs in the order they were admitted, with their statuses.
    pub closed spec fn entries(&self) -> Seq<(JobId, JobStatus)> {
        Seq::new(self.jobs@.len(), |i: int| (self.jobs@[i].job_id, self.jobs@[i].status))
    }

    /// The status of job `id`, or `None` for a job never admitted.
    pub closed spec fn status_of(&self, id: JobId) -> Option<JobStatus> {
        if has_id(self.jobs@, id) {
            Some(self.jobs@[index_of(self.jobs@, id)].status)
        } else {
            None
        }
    }

    /// Whether a cancellation was asked for while job `id` was processing.
    pub closed spec fn is_cancel_requested(&self, id: JobId) -> bool {
        has_id(self.jobs@, id) && self.jobs@[index_of(self.jobs@, id)].cancel_requested
    }

    /// The last error recorded for job `id`.
    pub closed spec fn error_of(&self, id: JobId) -> Option<Error> {
        if has_id(self.jobs@, id) {
            self.jobs@[index_of(self.jobs@, id)].error
        } else {
            None
        }
    }

    /// The statistics recorded when job `id` completed.
    pub closed spec fn statistics_of(&self, id: JobId) -> Option<JobStatistics> {
        if has_id(self.jobs@, id) {
            self.jobs@[index_of(self.jobs@, id)].statistics
        } else {
            None
        }
    }

    /// The document bytes received so far for job `id`.
    pub closed spec fn document_of(&self, id: JobId) -> Seq<u8> {
        if has_id(self.jobs@, id) {
            self.jobs@[index_of(self.jobs@, id)].document@
        } else {
            Seq::empty()
        }
    }

    /// Whether the document transfer of job `id` was closed.
    pub closed spec fn is_document_closed(&self, id: JobId) -> bool {
        has_id(self.jobs@, id) && self.jobs@[index_of(self.jobs@, id)].document_closed
    }

    /// The jobs admitted and not yet handed to a worker, oldest first.
    pub closed spec fn pending(&self) -> Seq<PrintJobRequest> {
        self.queue@
    }

    /// The jobs held out of the queue by an operator, oldest first.
    pub closed spec fn held_jobs(&self) -> Seq<PrintJobRequest> {
        self.held@
    }

    /// The capacity of the queue.
    pub closed spec fn queue_capacity(&self) -> usize {
        self.queue.spec_max_size()
    }

    /// How many jobs are processing.
    pub closed spec fn active_count(&self) -> nat {
        count_processing(self.jobs@)
    }

    pub closed spec fn spec_worker_threads(&self) -> usize {
        self.worker_threads
    }

    pub closed spec fn spec_max_concurrent(&self) -> usize {
        self.max_concurrent
    }

    /// The processor's invariant: job ids are unique, every pending job is
    /// recorded as queued and pending once, and no more jobs are processing
    /// than there are workers.
    pub closed spec fn wf(&self) -> bool {
        &&& self.queue.wf()
        &&& self.worker_threads > 0
        &&& self.max_concurrent > 0
        &&& distinct_ids(self.jobs@)
        &&& forall|k: int| 0 <= k < self.queue@.len() ==> #[trigger] self.status_of(self.queue@[k].job_id)
            == Some(JobStatus::Queued)
        &&& queue_ids_distinct(self.queue@)
        &&& count_processing(self.jobs@) == self.active
        &&& self.active <= self.worker_threads
        &&& forall|k: int| 0 <= k < self.held@.len() ==> #[trigger] self.status_of(self.held@[k].job_id)
            == Some(JobStatus::Held)
        &&& queue_ids_distinct(self.held@)
    }

    /// The queue's capacity and both limits are the same in `before` and
    /// `after`.
    pub open spec fn same_limits(before: &JobProcessor, after: &JobProcessor) -> bool {
        &&& after.queue_capacity() == before.queue_capacity()
        &&& after.spec_worker_threads() == before.spec_worker_threads()
        &&& after.spec_max_concurrent() == before.spec_max_concurrent()
    }

    /// Every job but `id` is recorded alike in `before` and `after`.
    pub open spec fn others_unchanged(before: &JobProcessor, after: &JobProcessor, id: JobId) -> bool {
        forall|x: JobId| x != id ==> {
            &&& #[trigger] after.status_of(x) == before.status_of(x)
            &&& after.is_cancel_requested(x) == before.is_cancel_requested(x)
            &&& after.error_of(x) == before.error_of(x)
            &&& after.statistics_of(x) == before.statistics_of(x)
            &&& after.document_of(x) == before.document_of(x)
            &&& after.is_document_closed(x) == before.is_document_closed(x)
        }
    }

    /// Whether a new job would find room: the queue is not full, and fewer
    /// jobs than `max_concurrent` are unfinished.
    pub open spec fn has_room(p: &JobProcessor) -> bool {
        p.pending().len() < p.queue_capacity() && unfinished_in(p.entries()) < p.spec_max_concurrent()
    }

    /// Every status change between `before` and `after` is a step of the
    /// lifecycle, no job is forgotten, and a new job starts as queued.
    pub open spec fn lifecycle_respected(before: &JobProcessor, after: &JobProcessor) -> bool {
        forall|id: JobId| match (#[trigger] before.status_of(id), after.status_of(id)) {
            (Some(s), Some(t)) => s == t || s.spec_can_transition(t),
            (Some(_), None) => false,
            (None, Some(t)) => t is Queued,
            (None, None) => true,
        }
    }

    proof fn lemma_entries_lookup(&self)
        requires
            distinct_ids(self.jobs@),
        ensures
            forall|id: JobId| #[trigger] lookup(self.entries(), id) == self.status_of(id),
    {
        let e = self.entries();
        assert forall|id: JobId| #[trigger] lookup(e, id) == self.status_of(id) by {
            if has_id(self.jobs@, id) {
                let k = index_of(self.jobs@, id);
                assert(e[k].0 == id);
                let c = choose|i: int| 0 <= i < e.len() && e[i].0 == id;
                lemma_index_of_at(self.jobs@, c);
            } else {
                if exists|i: int| 0 <= i < e.len() && e[i].0 == id {
                    let c = choose|i: int| 0 <= i < e.len() && e[i].0 == id;
                    assert(self.jobs@[c].job_id == id);
                }
            }
        }
    }

    /// A processor with no jobs, on top of `queue`, which it empties: jobs
    /// enter only through `add_job`. Fails when either limit is zero.
    pub fn new(queue: JobQueue, max_concurrent: usize, worker_threads: usize) -> (r: Result<JobProcessor, Error>)
        requires
            queue.wf(),
        ensures
            r is Err <==> max_concurrent == 0 || worker_threads == 0,
            r matches Err(e) ==> e is InvalidConfiguration,
            r matches Ok(p) ==> {
                &&& p.wf()
                &&& p.entries() == Seq::<(JobId, JobStatus)>::empty()
                &&& p.pending() == Seq::<PrintJobRequest>::empty()
                &&& p.held_jobs() == Seq::<PrintJobRequest>::empty()
                &&& p.active_count() == 0
                &&& p.queue_capacity() == queue.spec_max_size()
                &&& p.spec_worker_threads() == worker_threads
                &&& p.spec_max_concurrent() == max_concurrent
                &&& forall|id: JobId| p.status_of(id) is None
            },
    {
        if max_concurrent == 0 {
            return Err(Error::InvalidConfiguration(String::from_str("max concurrent jobs must be greater than 0")));
        }
        if worker_threads == 0 {
            return Err(Error::InvalidConfiguration(String::from_str("worker threads must be greater than 0")));
        }
        let mut queue = queue;
        queue.clear();
        let p = JobProcessor { queue, max_concurrent, worker_threads, jobs: Vec::new(), active: 0, held: Vec::new() };
        assert(p.entries() =~= Seq::<(JobId, JobStatus)>::empty());
        assert forall|id: JobId| p.status_of(id) is None by {
            assert(!has_id(p.jobs@, id));
        }
        Ok(p)
    }

    /// The position of job `id` among the records.
    fn find(&self, id: JobId) -> (r: Option<usize>)
        requires
            distinct_ids(self.jobs@),
        ensures
            r is None <==> !has_id(self.jobs@, id),
            r matches Some(i) ==> i == index_of(self.jobs@, id) && i < self.jobs@.len() && self.jobs@[i as int].job_id == id,
    {
        let mut i: usize = 0;
        while i < self.jobs.len()
            invariant
                0 <= i <= self.jobs.len(),
                distinct_ids(self.jobs@),
                forall|j: int| 0 <= j < i ==> self.jobs@[j].job_id != id,
            decreases self.jobs.len() - i,
        {
            if self.jobs[i].job_id == id {
                proof {
                    lemma_index_of_at(self.jobs@, i as int);
                }
                return Some(i);
            }
            i = i + 1;
        }
        None
    }

    /// The current status of job `id`, or `None` for an unknown job.
    pub fn get_status(&self, id: JobId) -> (r: Option<JobStatus>)
        requires
            self.wf(),
        ensures
            r == self.status_of(id),
    {
        match self.find(id) {
            Some(i) => Some(self.jobs[i].status),
            None => None,
        }
    }

    /// Every job admitted, with its status, in the order of admission.
    pub fn get_all_jobs(&self) -> (r: Vec<(JobId, JobStatus)>)
        requires
            self.wf(),
        ensures
            r@ == self.entries(),
    {
        let mut out: Vec<(JobId, JobStatus)> = Vec::new();
        let mut i: usize = 0;
        while i < self.jobs.len()
            invariant
                0 <= i <= self.jobs.len(),
                out@ == self.entries().subrange(0, i as int),
            decreases self.jobs.len() - i,
        {
            out.push((self.jobs[i].job_id, self.jobs[i].status));
            i = i + 1;
            assert(out@ =~= self.entries().subrange(0, i as int));
        }
        assert(out@ =~= self.entries());
        out
    }

    /// How many jobs are processing.
    pub fn active_jobs(&self) -> (r: usize)
        requires
            self.wf(),
        ensures
            r == self.active_count(),
    {
        self.active
    }

    /// How many jobs wait in the queue.
    pub fn queue_size(&self) -> (r: usize)
        requires
            self.wf(),
        ensures
            r == self.pending().len(),
    {
        self.queue.size()
    }

    /// The number of workers.
    pub fn worker_threads(&self) -> (r: usize)
        ensures
            r == self.spec_worker_threads(),
    {
        self.worker_threads
    }

    /// The admission limit on concurrent jobs.
    pub fn max_concurrent(&self) -> (r: usize)
        ensures
            r == self.spec_max_concurrent(),
    {
        self.max_concurrent
    }

    /// How many admitted jobs have not reached a terminal status.
    pub fn unfinished_jobs(&self) -> (r: usize)
        ensures
            r == unfinished_in(self.entries()),
    {
        let ghost e = self.entries();
        let mut n: usize = 0;
        let mut i: usize = 0;
        while i < self.jobs.len()
            invariant
                e == self.entries(),
                0 <= i <= self.jobs@.len(),
                n == unfinished_in(e.subrange(0, i as int)),
                n <= i,
            decreases self.jobs@.len() - i,
        {
            assert(e.subrange(0, i + 1).drop_last() =~= e.subrange(0, i as int));
            if !self.jobs[i].status.is_terminal() {
                n = n + 1;
            }
            i = i + 1;
        }
        assert(e.subrange(0, i as int) =~= e);
        n
    }

    /// Admits a job: checks its options, records it as queued and appends it
    /// to the queue. Fails, with nothing changed, on invalid options, on an
    /// id already known, when the queue is full, or when as many jobs as
    /// `max_concurrent` allows are admitted and unfinished.
    pub fn add_job(&mut self, request: PrintJobRequest) -> (r: Result<(), Error>)
        requires
            old(self).wf(),
        ensures
            final(self).wf(),
            JobProcessor::same_limits(old(self), final(self)),
            JobProcessor::lifecycle_respected(old(self), final(self)),
            r is Ok <==> request.options.spec_valid() && old(self).status_of(request.job_id) is None
                && old(self).pending().len() < old(self).queue_capacity() && unfinished_in(old(self).entries())
                < old(self).spec_max_concurrent(),
            !request.options.spec_valid() ==> (r matches Err(e) && e is InvalidOptions),
            request.options.spec_valid() && old(self).status_of(request.job_id) is Some ==> (r matches Err(e)
                && e is Validation),
            request.options.spec_valid() && old(self).status_of(request.job_id) is None
                && old(self).pending().len() >= old(self).queue_capacity() ==> r == Err::<(), Error>(Error::QueueFull),
            request.options.spec_valid() && old(self).status_of(request.job_id) is None
                && old(self).pending().len() < old(self).queue_capacity() && unfinished_in(old(self).entries())
                >= old(self).spec_max_concurrent() ==> r == Err::<(), Error>(Error::TooManyJobs),
            r is Err ==> *final(self) == *old(self),
            r is Ok ==> {
                &&& final(self).entries() == old(self).entries().push((request.job_id, JobStatus::Queued))
                &&& final(self).pending() == old(self).pending().push(request)
                &&& final(self).status_of(request.job_id) == Some(JobStatus::Queued)
                &&& !final(self).is_cancel_requested(request.job_id)
                &&& final(self).error_of(request.job_id) is None
                &&& final(self).statistics_of(request.job_id) is None
                &&& final(self).document_of(request.job_id) == Seq::<u8>::empty()
                &&& !final(self).is_document_closed(request.job_id)
                &&& final(self).active_count() == old(self).active_count()
                &&& JobProcessor::others_unchanged(old(self), final(self), request.job_id)
            },
    {
        match request.options.validate() {
            Ok(()) => {}
            Err(e) => {
                return Err(e);
            }
        }
        let id = request.job_id;
        if self.find(id).is_some() {
            return Err(Error::Validation(String::from_str("a job with this id already exists")));
        }
        if self.queue.is_full() {
            return Err(Error::QueueFull);
        }
        if self.unfinished_jobs() >= self.max_concurrent {
            return Err(Error::TooManyJobs);
        }
        let ghost before = *self;
        match self.queue.push(request) {
            Ok(()) => {}
            Err(e) => {
                return Err(e);
            }
        }
        let record = JobRecord {
            job_id: id,
            status: JobStatus::Queued,
            cancel_requested: false,
            error: None,
            statistics: None,
            document: Vec::new(),
            document_closed: false,
        };
        proof {
            lemma_push(before.jobs@, record);
        }
        self.jobs.push(record);
        proof {
            let s = before.jobs@;
            let t = self.jobs@;
            assert(self.entries() =~= before.entries().push((id, JobStatus::Queued)));
            assert forall|k: int| 0 <= k < self.queue@.len() implies #[trigger] self.status_of(self.queue@[k].job_id)
                == Some(JobStatus::Queued) by {
                if k < before.queue@.len() {
                    assert(before.status_of(before.queue@[k].job_id) == Some(JobStatus::Queued));
                }
            }
            assert forall|x: JobId| x != id implies {
                &&& #[trigger] self.status_of(x) == before.status_of(x)
                &&& self.is_cancel_requested(x) == before.is_cancel_requested(x)
                &&& self.error_of(x) == before.error_of(x)
                &&& self.statistics_of(x) == before.statistics_of(x)
                &&& self.document_of(x) == before.document_of(x)
                &&& self.is_document_closed(x) == before.is_document_closed(x)
            } by {
                if has_id(s, x) {
                    assert(t[index_of(s, x)] == s[index_of(s, x)]);
                }
            }
            assert forall|x: JobId| match (#[trigger] before.status_of(x), self.status_of(x)) {
                (Some(a), Some(b)) => a == b || a.spec_can_transition(b),
                (Some(_), None) => false,
                (None, Some(b)) => b is Queued,
                (None, None) => true,
            } by {
                if has_id(s, x) {
                    assert(t[index_of(s, x)] == s[index_of(s, x)]);
                }
            }
        }
        Ok(())
    }

    /// What replacing record `i` by one of the same job does to the views.
    proof fn lemma_replace(before: JobProcessor, after: JobProcessor, i: int)
        requires
            distinct_ids(before.jobs@),
            0 <= i < before.jobs@.len(),
            after.jobs@ == before.jobs@.update(i, after.jobs@[i]),
            after.jobs@[i].job_id == before.jobs@[i].job_id,
        ensures
            distinct_ids(after.jobs@),
            JobProcessor::others_unchanged(&before, &after, before.jobs@[i].job_id),
            before.status_of(before.jobs@[i].job_id) == Some(before.jobs@[i].status),
            after.status_of(before.jobs@[i].job_id) == Some(after.jobs@[i].status),
            after.is_cancel_requested(before.jobs@[i].job_id) == after.jobs@[i].cancel_requested,
            before.is_cancel_requested(before.jobs@[i].job_id) == before.jobs@[i].cancel_requested,
            after.error_of(before.jobs@[i].job_id) == after.jobs@[i].error,
            before.error_of(before.jobs@[i].job_id) == before.jobs@[i].error,
            after.statistics_of(before.jobs@[i].job_id) == after.jobs@[i].statistics,
            before.statistics_of(before.jobs@[i].job_id) == before.jobs@[i].statistics,
            after.document_of(before.jobs@[i].job_id) == after.jobs@[i].document@,
            before.document_of(before.jobs@[i].job_id) == before.jobs@[i].document@,
            after.is_document_closed(before.jobs@[i].job_id) == after.jobs@[i].document_closed,
            before.is_document_closed(before.jobs@[i].job_id) == before.jobs@[i].document_closed,
            count_processing(after.jobs@) + processing_ind(before.jobs@[i]) == count_processing(before.jobs@)
                + processing_ind(after.jobs@[i]),
            after.entries() == before.entries().update(i, (before.jobs@[i].job_id, after.jobs@[i].status)),
    {
        let s = before.jobs@;
        let r = after.jobs@[i];
        lemma_update(s, i, r);
        lemma_index_of_at(s, i);
        lemma_index_of_at(after.jobs@, i);
        assert forall|x: JobId| x != s[i].job_id implies {
            &&& #[trigger] after.status_of(x) == before.status_of(x)
            &&& after.is_cancel_requested(x) == before.is_cancel_requested(x)
            &&& after.error_of(x) == before.error_of(x)
            &&& after.statistics_of(x) == before.statistics_of(x)
            &&& after.document_of(x) == before.document_of(x)
            &&& after.is_document_closed(x) == before.is_document_closed(x)
        } by {
            if has_id(s, x) {
                assert(s.update(i, r)[index_of(s, x)] == s[index_of(s, x)]);
            }
        }
        assert(after.entries() =~= before.entries().update(i, (s[i].job_id, r.status)));
    }

    /// A record replaced in place, with the queue untouched, keeps the
    /// invariant and the lifecycle when its status takes a lawful step and a
    /// queued job stays queued.
    proof fn lemma_step(before: JobProcessor, after: JobProcessor, i: int)
        requires
            before.wf(),
            0 <= i < before.jobs@.len(),
            after.jobs@ == before.jobs@.update(i, after.jobs@[i]),
            after.jobs@[i].job_id == before.jobs@[i].job_id,
            after.queue == before.queue,
            after.held == before.held,
            after.worker_threads == before.worker_threads,
            after.max_concurrent == before.max_concurrent,
            after.active == count_processing(after.jobs@),
            after.active <= after.worker_threads,
            before.jobs@[i].status is Queued ==> after.jobs@[i].status is Queued,
            before.jobs@[i].status is Held <==> after.jobs@[i].status is Held,
            before.jobs@[i].status == after.jobs@[i].status || before.jobs@[i].status.spec_can_transition(
                after.jobs@[i].status,
            ),
        ensures
            after.wf(),
            JobProcessor::lifecycle_respected(&before, &after),
    {
        let id = before.jobs@[i].job_id;
        JobProcessor::lemma_replace(before, after, i);
        assert forall|m: int| 0 <= m < after.queue@.len() implies #[trigger] after.status_of(after.queue@[m].job_id)
            == Some(JobStatus::Queued) by {
            assert(before.status_of(before.queue@[m].job_id) == Some(JobStatus::Queued));
        }
        assert forall|m: int| 0 <= m < after.held@.len() implies #[trigger] after.status_of(after.held@[m].job_id)
            == Some(JobStatus::Held) by {
            assert(before.status_of(before.held@[m].job_id) == Some(JobStatus::Held));
        }
        assert forall|x: JobId| match (#[trigger] before.status_of(x), after.status_of(x)) {
            (Some(a), Some(b)) => a == b || a.spec_can_transition(b),
            (Some(_), None) => false,
            (None, Some(b)) => b is Queued,
            (None, None) => true,
        } by {
            if x != id {
                assert(after.status_of(x) == before.status_of(x));
            }
        }
    }

    /// The worker's step: when a worker is free and a job waits, hands out
    /// the oldest job and records it as processing.
    pub fn start_next(&mut self) -> (r: Option<PrintJobRequest>)
        requires
            old(self).wf(),
        ensures
            final(self).wf(),
            JobProcessor::same_limits(old(self), final(self)),
            JobProcessor::lifecycle_respected(old(self), final(self)),
            r is Some <==> old(self).pending().len() > 0 && old(self).active_count() < old(self).spec_worker_threads(),
            r is None ==> *final(self) == *old(self),
            r matches Some(req) ==> {
                &&& req == old(self).pending()[0]
                &&& final(self).pending() == old(self).pending().drop_first()
                &&& old(self).status_of(req.job_id) == Some(JobStatus::Queued)
                &&& final(self).status_of(req.job_id) == Some(JobStatus::Processing)
                &&& final(self).active_count() == old(self).active_count() + 1
                &&& final(self).document_of(req.job_id) == old(self).document_of(req.job_id)
                &&& final(self).is_document_closed(req.job_id) == old(self).is_document_closed(req.job_id)
                &&& final(self).is_cancel_requested(req.job_id) == old(self).is_cancel_requested(req.job_id)
                &&& final(self).error_of(req.job_id) == old(self).error_of(req.job_id)
                &&& final(self).statistics_of(req.job_id) == old(self).statistics_of(req.job_id)
                &&& JobProcessor::others_unchanged(old(self), final(self), req.job_id)
            },
    {
        if self.active >= self.worker_threads {
            return None;
        }
        if self.queue.is_empty() {
            return None;
        }
        let ghost before = *self;
        let head = match self.queue.pop() {
            Some(h) => h,
            None => {
                return None;
            }
        };
        proof {
            assert(before.status_of(before.queue@[0].job_id) == Some(JobStatus::Queued));
        }
        let i = match self.find(head.job_id) {
            Some(i) => i,
            None => {
                proof {
                    assert(false);
                }
                return None;
            }
        };
        let mut rec = JobRecord {
            job_id: head.job_id,
            status: JobStatus::Processing,
            cancel_requested: false,
            error: None,
            statistics: None,
            document: Vec::new(),
            document_closed: false,
        };
        self.jobs.set_and_swap(i, &mut rec);
        rec.status = JobStatus::Processing;
        self.jobs.set(i, rec);
        self.active = self.active + 1;
        proof {
            assert(self.jobs@ =~= before.jobs@.update(i as int, self.jobs@[i as int]));
            JobProcessor::lemma_replace(before, *self, i as int);
            let id = head.job_id;
            assert forall|k: int| 0 <= k < self.queue@.len() implies #[trigger] self.status_of(self.queue@[k].job_id)
                == Some(JobStatus::Queued) by {
                assert(self.queue@[k] == before.queue@[k + 1]);
                assert(before.status_of(before.queue@[k + 1].job_id) == Some(JobStatus::Queued));
            }
            assert forall|x: JobId| match (#[trigger] before.status_of(x), self.status_of(x)) {
                (Some(a), Some(b)) => a == b || a.spec_can_transition(b),
                (Some(_), None) => false,
                (None, Some(b)) => b is Queued,
                (None, None) => true,
            } by {
                if x != id {
                    assert(self.status_of(x) == before.status_of(x));
                }
            }
        }
        Some(head)
    }

    /// Records what the pipeline reported for job `id`, which must be
    /// processing, and frees its worker. A job whose cancellation was asked
    /// for ends cancelled, whatever the outcome.
    pub fn finish_job(&mut self, id: JobId, outcome: JobOutcome) -> (r: Result<JobStatus, Error>)
        requires
            old(self).wf(),
        ensures
            final(self).wf(),
            JobProcessor::same_limits(old(self), final(self)),
            JobProcessor::lifecycle_respected(old(self), final(self)),
            old(self).status_of(id) is None ==> (r matches Err(e) && e is NotFound),
            old(self).status_of(id) matches Some(s) && !(s is Processing) ==> (r matches Err(e) && e is Job),
            r is Err ==> *final(self) == *old(self),
            old(self).status_of(id) == Some(JobStatus::Processing) ==> {
                &&& r == Ok::<JobStatus, Error>(finish_transition(old(self).is_cancel_requested(id), outcome))
                &&& final(self).status_of(id) == Some(finish_transition(old(self).is_cancel_requested(id), outcome))
                &&& final(self).active_count() + 1 == old(self).active_count()
                &&& final(self).active_count() < final(self).spec_worker_threads()
                &&& final(self).pending() == old(self).pending()
                &&& JobProcessor::others_unchanged(old(self), final(self), id)
                &&& !old(self).is_cancel_requested(id) ==> match outcome {
                    JobOutcome::Completed(st) => final(self).statistics_of(id) == Some(st),
                    JobOutcome::Failed(e) => final(self).error_of(id) == Some(e),
                    JobOutcome::TimedOut => (final(self).error_of(id) matches Some(e) && e is Timeout),
                }
            },
    {
        let i = match self.find(id) {
            Some(i) => i,
            None => {
                return Err(Error::NotFound(String::from_str("no job with this id")));
            }
        };
        if self.jobs[i].status != JobStatus::Processing {
            return Err(Error::Job(String::from_str("the job is not processing")));
        }
        let ghost before = *self;
        proof {
            let s = before.jobs@;
            assert(s =~= s.update(i as int, s[i as int]));
            JobProcessor::lemma_replace(before, before, i as int);
            let idle = JobRecord {
                job_id: s[i as int].job_id,
                status: JobStatus::Queued,
                cancel_requested: s[i as int].cancel_requested,
                error: s[i as int].error,
                statistics: s[i as int].statistics,
                document: s[i as int].document,
                document_closed: s[i as int].document_closed,
            };
            lemma_count_update(s, i as int, idle);
        }
        let mut rec = JobRecord {
            job_id: id,
            status: JobStatus::Processing,
            cancel_requested: false,
            error: None,
            statistics: None,
            document: Vec::new(),
            document_closed: false,
        };
        self.jobs.set_and_swap(i, &mut rec);
        let status = if rec.cancel_requested {
            JobStatus::Cancelled
        } else {
            match outcome {
                JobOutcome::Completed(stats) => {
                    rec.statistics = Some(stats);
                    JobStatus::Completed
                }
                JobOutcome::Failed(e) => {
                    rec.error = Some(e);
                    JobStatus::Failed
                }
                JobOutcome::TimedOut => {
                    rec.error = Some(Error::Timeout(String::from_str("the job outlived its time limit")));
                    JobStatus::Failed
                }
            }
        };
        rec.status = status;
        self.jobs.set(i, rec);
        self.active = self.active - 1;
        proof {
            assert(self.jobs@ =~= before.jobs@.update(i as int, self.jobs@[i as int]));
            JobProcessor::lemma_replace(before, *self, i as int);
            JobProcessor::lemma_step(before, *self, i as int);
        }
        Ok(status)
    }

    /// Takes the queued job at record `i` out of the queue and cancels it.
    fn cancel_queued(&mut self, i: usize, id: JobId)
        requires
            old(self).wf(),
            i < old(self).jobs@.len(),
            old(self).jobs@[i as int].job_id == id,
            old(self).jobs@[i as int].status is Queued,
        ensures
            final(self).wf(),
            JobProcessor::same_limits(old(self), final(self)),
            JobProcessor::lifecycle_respected(old(self), final(self)),
            final(self).status_of(id) == Some(JobStatus::Cancelled),
            final(self).active_count() == old(self).active_count(),
            JobProcessor::others_unchanged(old(self), final(self), id),
            (exists|k: int| 0 <= k < old(self).pending().len() && old(self).pending()[k].job_id == id)
                ==> final(self).pending() == old(self).pending().remove(first_index_of(old(self).pending(), id)),
            !(exists|k: int| 0 <= k < old(self).pending().len() && old(self).pending()[k].job_id == id)
                ==> final(self).pending() == old(self).pending(),
    {
        let ghost before = *self;
        proof {
            let s = before.jobs@;
            assert(s =~= s.update(i as int, s[i as int]));
            JobProcessor::lemma_replace(before, before, i as int);
        }
        let removed = self.queue.remove_job(id);
        let mut rec = JobRecord {
            job_id: id,
            status: JobStatus::Cancelled,
            cancel_requested: false,
            error: None,
            statistics: None,
            document: Vec::new(),
            document_closed: false,
        };
        self.jobs.set_and_swap(i, &mut rec);
        rec.status = JobStatus::Cancelled;
        self.jobs.set(i, rec);
        proof {
            assert(self.jobs@ =~= before.jobs@.update(i as int, self.jobs@[i as int]));
            JobProcessor::lemma_replace(before, *self, i as int);
            let q0 = before.queue@;
            let q1 = self.queue@;
            if removed is Some {
                let k = first_index_of(q0, id);
                lemma_queue_remove(q0, k);
                assert forall|m: int| 0 <= m < q1.len() implies #[trigger] self.status_of(q1[m].job_id)
                    == Some(JobStatus::Queued) by {
                    let n = if m < k { m } else { m + 1 };
                    assert(q1[m] == q0[n]);
                    assert(before.status_of(q0[n].job_id) == Some(JobStatus::Queued));
                }
            } else {
                assert forall|m: int| 0 <= m < q1.len() implies #[trigger] self.status_of(q1[m].job_id)
                    == Some(JobStatus::Queued) by {
                    assert(before.status_of(q0[m].job_id) == Some(JobStatus::Queued));
                }
            }
            assert forall|x: JobId| match (#[trigger] before.status_of(x), self.status_of(x)) {
                (Some(a), Some(b)) => a == b || a.spec_can_transition(b),
                (Some(_), None) => false,
                (None, Some(b)) => b is Queued,
                (None, None) => true,
            } by {
                if x != id {
                    assert(self.status_of(x) == before.status_of(x));
                }
            }
        }
    }

    /// Holds job `id`: a queued job leaves the queue, keeps its place among
    /// the held jobs, and waits there until it is released. Fails, with
    /// nothing changed, for an unknown job and for one that is not pending in
    /// the queue.
    #[verifier::rlimit(50)]
    pub fn hold_job(&mut self, id: JobId) -> (r: Result<(), Error>)
        requires
            old(self).wf(),
        ensures
            final(self).wf(),
            JobProcessor::same_limits(old(self), final(self)),
            JobProcessor::lifecycle_respected(old(self), final(self)),
            old(self).status_of(id) is None ==> (r matches Err(e) && e is NotFound),
            r is Ok <==> old(self).status_of(id) == Some(JobStatus::Queued) && exists|k: int|
                0 <= k < old(self).pending().len() && old(self).pending()[k].job_id == id,
            old(self).status_of(id) is Some ==> (r is Ok || (r matches Err(e) && e is Job)),
            r is Err ==> *final(self) == *old(self),
            r is Ok ==> {
                &&& final(self).status_of(id) == Some(JobStatus::Held)
                &&& final(self).pending() == old(self).pending().remove(first_index_of(old(self).pending(), id))
                &&& final(self).held_jobs() == old(self).held_jobs().push(
                    old(self).pending()[first_index_of(old(self).pending(), id)],
                )
                &&& final(self).active_count() == old(self).active_count()
                &&& JobProcessor::others_unchanged(old(self), final(self), id)
            },
    {
        let i = match self.find(id) {
            Some(i) => i,
            None => {
                return Err(Error::NotFound(String::from_str("no job with this id")));
            },
        };
        if self.jobs[i].status != JobStatus::Queued {
            return Err(Error::Job(String::from_str("only a queued job can be held")));
        }
        let ghost before = *self;
        proof {
            let s = before.jobs@;
            assert(s =~= s.update(i as int, s[i as int]));
            JobProcessor::lemma_replace(before, before, i as int);
        }
        let request = match self.queue.remove_job(id) {
            Some(r) => r,
            None => {
                return Err(Error::Job(String::from_str("the job is not pending")));
            },
        };
        let ghost q0 = before.queue@;
        let ghost k = first_index_of(q0, id);
        self.held.push(request);
        let mut rec = JobRecord {
            job_id: id,
            status: JobStatus::Held,
            cancel_requested: false,
            error: None,
            statistics: None,
            document: Vec::new(),
            document_closed: false,
        };
        self.jobs.set_and_swap(i, &mut rec);
        rec.status = JobStatus::Held;
        self.jobs.set(i, rec);
        proof {
            assert(self.jobs@ =~= before.jobs@.update(i as int, self.jobs@[i as int]));
            JobProcessor::lemma_replace(before, *self, i as int);
            let q1 = self.queue@;
            lemma_queue_remove(q0, k);
            assert forall|m: int| 0 <= m < q1.len() implies #[trigger] self.status_of(q1[m].job_id)
                == Some(JobStatus::Queued) by {
                let n = if m < k { m } else { m + 1 };
                assert(q1[m] == q0[n]);
                assert(before.status_of(q0[n].job_id) == Some(JobStatus::Queued));
            }
            let h0 = before.held@;
            let h1 = self.held@;
            assert forall|m: int| 0 <= m < h1.len() implies #[trigger] self.status_of(h1[m].job_id)
                == Some(JobStatus::Held) by {
                if m < h0.len() {
                    assert(h1[m] == h0[m]);
                    assert(before.status_of(h0[m].job_id) == Some(JobStatus::Held));
                }
            }
            assert forall|a: int, b: int| 0 <= a < h1.len() && 0 <= b < h1.len() && a != b implies h1[a].job_id
                != h1[b].job_id by {
                if a < h0.len() && b < h0.len() {
                } else if a < h0.len() {
                    assert(before.status_of(h0[a].job_id) == Some(JobStatus::Held));
                } else if b < h0.len() {
                    assert(before.status_of(h0[b].job_id) == Some(JobStatus::Held));
                }
            }
            assert forall|x: JobId| match (#[trigger] before.status_of(x), self.status_of(x)) {
                (Some(a), Some(b)) => a == b || a.spec_can_transition(b),
                (Some(_), None) => false,
                (None, Some(b)) => b is Queued,
                (None, None) => true,
            } by {
                if x != id {
                    assert(self.status_of(x) == before.status_of(x));
                }
            }
        }
        Ok(())
    }

    /// Releases held job `id` back to the tail of the queue. Fails, with
    /// nothing changed, for an unknown job, for one that is not held, and
    /// when the queue is full.
    #[verifier::rlimit(50)]
    pub fn release_job(&mut self, id: JobId) -> (r: Result<(), Error>)
        requires
            old(self).wf(),
        ensures
            final(self).wf(),
            JobProcessor::same_limits(old(self), final(self)),
            JobProcessor::lifecycle_respected(old(self), final(self)),
            old(self).status_of(id) is None ==> (r matches Err(e) && e is NotFound),
            old(self).status_of(id) is Some && old(self).status_of(id) != Some(JobStatus::Held) ==> (r matches Err(e)
                && e is Job),
            old(self).status_of(id) == Some(JobStatus::Held) && (exists|k: int|
                0 <= k < old(self).held_jobs().len() && old(self).held_jobs()[k].job_id == id) ==> (r is Ok
                <==> old(self).pending().len() < old(self).queue_capacity()),
            r is Err ==> *final(self) == *old(self),
            r is Ok ==> {
                &&& final(self).status_of(id) == Some(JobStatus::Queued)
                &&& final(self).held_jobs() == old(self).held_jobs().remove(first_index_of(old(self).held_jobs(), id))
                &&& final(self).pending() == old(self).pending().push(
                    old(self).held_jobs()[first_index_of(old(self).held_jobs(), id)],
                )
                &&& final(self).active_count() == old(self).active_count()
                &&& JobProcessor::others_unchanged(old(self), final(self), id)
            },
    {
        let i = match self.find(id) {
            Some(i) => i,
            None => {
                return Err(Error::NotFound(String::from_str("no job with this id")));
            },
        };
        if self.jobs[i].status != JobStatus::Held {
            return Err(Error::Job(String::from_str("only a held job can be released")));
        }
        let ghost before = *self;
        proof {
            let s = before.jobs@;
            assert(s =~= s.update(i as int, s[i as int]));
            JobProcessor::lemma_replace(before, before, i as int);
        }
        let mut k: usize = 0;
        let mut found = false;
        while k < self.held.len() && !found
            invariant
                self.held@ == before.held@,
                0 <= k <= self.held@.len(),
                forall|j: int| 0 <= j < k ==> self.held@[j].job_id != id,
                found ==> k < self.held@.len() && self.held@[k as int].job_id == id,
            decreases self.held@.len() - k + (if found { 0int } else { 1int }),
        {
            if self.held[k].job_id == id {
                found = true;
            } else {
                k = k + 1;
            }
        }
        if !found {
            return Err(Error::Job(String::from_str("the job is not held")));
        }
        if self.queue.is_full() {
            return Err(Error::QueueFull);
        }
        proof {
            let h = before.held@;
            assert(0 <= k < h.len() && h[k as int].job_id == id && forall|j: int| 0 <= j < k ==> h[j].job_id != id);
            let f = first_index_of(h, id);
            assert(f == k) by {
                if f < k {
                    assert(h[f].job_id != id);
                } else if f > k {
                    assert(h[k as int].job_id != id);
                }
            }
        }
        let request = self.held.remove(k);
        let ghost h0 = before.held@;
        let ghost moved = request;
        match self.queue.push(request) {
            Ok(()) => {},
            Err(_) => {
                proof {
                    assert(false);
                }
                return Err(Error::QueueFull);
            },
        }
        let mut rec = JobRecord {
            job_id: id,
            status: JobStatus::Queued,
            cancel_requested: false,
            error: None,
            statistics: None,
            document: Vec::new(),
            document_closed: false,
        };
        self.jobs.set_and_swap(i, &mut rec);
        rec.status = JobStatus::Queued;
        self.jobs.set(i, rec);
        proof {
            assert(self.jobs@ =~= before.jobs@.update(i as int, self.jobs@[i as int]));
            JobProcessor::lemma_replace(before, *self, i as int);
            lemma_queue_remove(h0, k as int);
            let h1 = self.held@;
            assert forall|m: int| 0 <= m < h1.len() implies #[trigger] self.status_of(h1[m].job_id)
                == Some(JobStatus::Held) by {
                let n = if m < k { m } else { m + 1 };
                assert(h1[m] == h0[n]);
                assert(before.status_of(h0[n].job_id) == Some(JobStatus::Held));
            }
            let q0 = before.queue@;
            let q1 = self.queue@;
            assert forall|m: int| 0 <= m < q1.len() implies #[trigger] self.status_of(q1[m].job_id)
                == Some(JobStatus::Queued) by {
                if m < q0.len() {
                    assert(q1[m] == q0[m]);
                    assert(before.status_of(q0[m].job_id) == Some(JobStatus::Queued));
                }
            }
            assert forall|a: int, b: int| 0 <= a < q1.len() && 0 <= b < q1.len() && a != b implies q1[a].job_id
                != q1[b].job_id by {
                if a < q0.len() && b < q0.len() {
                } else if a < q0.len() {
                    assert(before.status_of(q0[a].job_id) == Some(JobStatus::Queued));
                } else if b < q0.len() {
                    assert(before.status_of(q0[b].job_id) == Some(JobStatus::Queued));
                }
            }
            assert forall|x: JobId| match (#[trigger] before.status_of(x), self.status_of(x)) {
                (Some(a), Some(b)) => a == b || a.spec_can_transition(b),
                (Some(_), None) => false,
                (None, Some(b)) => b is Queued,
                (None, None) => true,
            } by {
                if x != id {
                    assert(self.status_of(x) == before.status_of(x));
                }
            }
        }
        Ok(())
    }

    /// Cancels job `id`. A queued job leaves the queue and is cancelled at
    /// once; a processing job is flagged, and ends cancelled when its
    /// pipeline stops; any other job is left as it is. The status reported is
    /// the one the job has afterwards. Fails only for an unknown job.
    pub fn cancel_job(&mut self, id: JobId) -> (r: Result<JobStatus, Error>)
        requires
            old(self).wf(),
        ensures
            final(self).wf(),
            JobProcessor::same_limits(old(self), final(self)),
            JobProcessor::lifecycle_respected(old(self), final(self)),
            old(self).status_of(id) is None ==> (r matches Err(e) && e is NotFound) && *final(self) == *old(self),
            old(self).status_of(id) matches Some(s) ==> {
                &&& r == Ok::<JobStatus, Error>(cancel_transition(s))
                &&& final(self).status_of(id) == Some(cancel_transition(s))
                &&& final(self).active_count() == old(self).active_count()
                &&& JobProcessor::others_unchanged(old(self), final(self), id)
            },
            old(self).status_of(id) == Some(JobStatus::Queued) ==> {
                &&& (exists|k: int| 0 <= k < old(self).pending().len() && old(self).pending()[k].job_id == id)
                    ==> final(self).pending() == old(self).pending().remove(first_index_of(old(self).pending(), id))
                &&& !(exists|k: int| 0 <= k < old(self).pending().len() && old(self).pending()[k].job_id == id)
                    ==> final(self).pending() == old(self).pending()
            },
            old(self).status_of(id) == Some(JobStatus::Processing) ==> {
                &&& final(self).is_cancel_requested(id)
                &&& final(self).pending() == old(self).pending()
            },
            old(self).status_of(id) matches Some(s) && !(s is Queued) && !(s is Processing) ==> *final(self)
                == *old(self),
    {
        let i = match self.find(id) {
            Some(i) => i,
            None => {
                return Err(Error::NotFound(String::from_str("no job with this id")));
            }
        };
        let status = self.jobs[i].status;
        let ghost before = *self;
        proof {
            let s = before.jobs@;
            assert(s =~= s.update(i as int, s[i as int]));
            JobProcessor::lemma_replace(before, before, i as int);
        }
        match status {
            JobStatus::Queued => {
                self.cancel_queued(i, id);
                Ok(JobStatus::Cancelled)
            },
            JobStatus::Processing => {
                let mut rec = JobRecord {
                    job_id: id,
                    status: JobStatus::Processing,
                    cancel_requested: true,
                    error: None,
                    statistics: None,
                    document: Vec::new(),
                    document_closed: false,
                };
                self.jobs.set_and_swap(i, &mut rec);
                rec.cancel_requested = true;
                self.jobs.set(i, rec);
                proof {
                    assert(self.jobs@ =~= before.jobs@.update(i as int, self.jobs@[i as int]));
                    JobProcessor::lemma_replace(before, *self, i as int);
                    JobProcessor::lemma_step(before, *self, i as int);
                }
                Ok(JobStatus::Processing)
            },
            _ => Ok(status),
        }
    }

    /// Appends `data` to the document of job `id`. Fails, with nothing
    /// changed, for an unknown job, for one whose transfer was closed, and
    /// when the document would grow past `max_job_size` bytes.
    pub fn append_document(&mut self, id: JobId, data: Vec<u8>, max_job_size: usize) -> (r: Result<(), Error>)
        requires
            old(self).wf(),
        ensures
            final(self).wf(),
            JobProcessor::same_limits(old(self), final(self)),
            JobProcessor::lifecycle_respected(old(self), final(self)),
            old(self).status_of(id) is None ==> (r matches Err(e) && e is NotFound),
            old(self).status_of(id) is Some && old(self).is_document_closed(id) ==> (r matches Err(e) && e is Job),
            old(self).status_of(id) is Some && !old(self).is_document_closed(id) ==> (r is Err <==> old(self).document_of(id).len()
                + data@.len() > max_job_size),
            old(self).status_of(id) is Some && !old(self).is_document_closed(id) && old(self).document_of(id).len()
                + data@.len() > max_job_size ==> r == Err::<(), Error>(Error::DocumentTooLarge),
            r is Err ==> *final(self) == *old(self),
            r is Ok ==> {
                &&& final(self).document_of(id) == old(self).document_of(id) + data@
                &&& final(self).status_of(id) == old(self).status_of(id)
                &&& final(self).is_document_closed(id) == old(self).is_document_closed(id)
                &&& final(self).entries() == old(self).entries()
                &&& final(self).pending() == old(self).pending()
                &&& final(self).active_count() == old(self).active_count()
                &&& JobProcessor::others_unchanged(old(self), final(self), id)
            },
    {
        let i = match self.find(id) {
            Some(i) => i,
            None => {
                return Err(Error::NotFound(String::from_str("no job with this id")));
            }
        };
        let ghost before = *self;
        proof {
            let s = before.jobs@;
            assert(s =~= s.update(i as int, s[i as int]));
            JobProcessor::lemma_replace(before, before, i as int);
        }
        if self.jobs[i].document_closed {
            return Err(Error::Job(String::from_str("the document of this job was closed")));
        }
        if data.len() > max_job_size || self.jobs[i].document.len() > max_job_size - data.len() {
            return Err(Error::DocumentTooLarge);
        }
        let mut data = data;
        let mut rec = JobRecord {
            job_id: id,
            status: JobStatus::Queued,
            cancel_requested: false,
            error: None,
            statistics: None,
            document: Vec::new(),
            document_closed: false,
        };
        self.jobs.set_and_swap(i, &mut rec);
        rec.document.append(&mut data);
        self.jobs.set(i, rec);
        proof {
            assert(self.jobs@ =~= before.jobs@.update(i as int, self.jobs@[i as int]));
            JobProcessor::lemma_replace(before, *self, i as int);
            JobProcessor::lemma_step(before, *self, i as int);
            assert(self.entries() =~= before.entries());
        }
        Ok(())
    }

    /// Marks the document transfer of job `id` complete. Closing twice is
    /// harmless. Fails only for an unknown job.
    pub fn close_document(&mut self, id: JobId) -> (r: Result<(), Error>)
        requires
            old(self).wf(),
        ensures
            final(self).wf(),
            JobProcessor::same_limits(old(self), final(self)),
            JobProcessor::lifecycle_respected(old(self), final(self)),
            r is Err <==> old(self).status_of(id) is None,
            r matches Err(e) ==> e is NotFound,
            r is Err ==> *final(self) == *old(self),
            r is Ok ==> {
                &&& final(self).is_document_closed(id)
                &&& final(self).document_of(id) == old(self).document_of(id)
                &&& final(self).status_of(id) == old(self).status_of(id)
                &&& final(self).entries() == old(self).entries()
                &&& final(self).pending() == old(self).pending()
                &&& final(self).active_count() == old(self).active_count()
                &&& JobProcessor::others_unchanged(old(self), final(self), id)
            },
    {
        let i = match self.find(id) {
            Some(i) => i,
            None => {
                return Err(Error::NotFound(String::from_str("no job with this id")));
            }
        };
        let ghost before = *self;
        proof {
            let s = before.jobs@;
            assert(s =~= s.update(i as int, s[i as int]));
            JobProcessor::lemma_replace(before, before, i as int);
        }
        let mut rec = JobRecord {
            job_id: id,
            status: JobStatus::Queued,
            cancel_requested: false,
            error: None,
            statistics: None,
            document: Vec::new(),
            document_closed: false,
        };
        self.jobs.set_and_swap(i, &mut rec);
        rec.document_closed = true;
        self.jobs.set(i, rec);
        proof {
            assert(self.jobs@ =~= before.jobs@.update(i as int, self.jobs@[i as int]));
            JobProcessor::lemma_replace(before, *self, i as int);
            JobProcessor::lemma_step(before, *self, i as int);
            assert(self.entries() =~= before.entries());
        }
        Ok(())
    }

    /// The statistics recorded when job `id` completed.
    pub fn get_statistics(&self, id: JobId) -> (r: Option<JobStatistics>)
        requires
            self.wf(),
        ensures
            r == self.statistics_of(id),
    {
        match self.find(id) {
            Some(i) => self.jobs[i].statistics,
            None => None,
        }
    }

    /// The last error recorded for job `id`.
    pub fn last_error(&self, id: JobId) -> (r: Option<&Error>)
        requires
            self.wf(),
        ensures
            r is None <==> self.error_of(id) is None,
            r matches Some(e) ==> self.error_of(id) == Some(*e),
    {
        match self.find(id) {
            Some(i) => match &self.jobs[i].error {
                Some(e) => Some(e),
                None => None,
            },
            None => None,
        }
    }

    /// The size of the document received so far for job `id`.
    pub fn document_len(&self, id: JobId) -> (r: Option<usize>)
        requires
            self.wf(),
        ensures
            r is None <==> self.status_of(id) is None,
            r matches Some(n) ==> n == self.document_of(id).len(),
    {
        match self.find(id) {
            Some(i) => Some(self.jobs[i].document.len()),
            None => None,
        }
    }
}

/// The number of processing jobs in a list of (job, status) pairs.
pub open spec fn processing_in(entries: Seq<(JobId, JobStatus)>) -> nat
    decreases entries.len(),
{
    if entries.len() == 0 {
        0
    } else {
        processing_in(entries.drop_last()) + if entries.last().1 is Processing { 1nat } else { 0nat }
    }
}

proof fn lemma_processing_in(s: Seq<JobRecord>)
    ensures
        processing_in(Seq::new(s.len(), |i: int| (s[i].job_id, s[i].status))) == count_processing(s),
    decreases s.len(),
{
    if s.len() > 0 {
        let e = Seq::new(s.len(), |i: int| (s[i].job_id, s[i].status));
        let d = s.drop_last();
        assert(e.drop_last() =~= Seq::new(d.len(), |i: int| (d[i].job_id, d[i].status)));
        lemma_processing_in(d);
    }
}

/// Lifecycle law: a job is completed or failed only after processing, and
/// processing only after being queued; nothing leaves a terminal status.
pub proof fn lemma_lifecycle_history(s: JobStatus, t: JobStatus)
    requires
        s.spec_can_transition(t),
    ensures
        t is Completed || t is Failed ==> s is Processing,
        t is Processing ==> s is Queued,
        !s.spec_is_terminal(),
{
}

/// Cancellation law: cancelling twice leaves a job as cancelling once does,
/// and a job in a terminal status keeps it.
pub proof fn lemma_cancel_idempotent(s: JobStatus)
    ensures
        cancel_transition(cancel_transition(s)) == cancel_transition(s),
        s.spec_is_terminal() ==> cancel_transition(s) == s,
{
}

/// Concurrency law: in every reachable state, no more jobs are processing
/// than there are workers.
pub proof fn lemma_processing_bounded(p: JobProcessor)
    requires
        p.wf(),
    ensures
        processing_in(p.entries()) <= p.spec_worker_threads(),
        p.active_count() == processing_in(p.entries()),
{
    lemma_processing_in(p.jobs@);
}

/// Every entry of the job list gives its job's status, and every known job
/// has an entry.
pub proof fn lemma_entries_agree(p: JobProcessor, id: JobId)
    requires
        p.wf(),
    ensures
        p.status_of(id) == lookup(p.entries(), id),
{
    p.lemma_entries_lookup();
}

/// Whatever the pipeline reports for a processing job, and whether or not
/// its cancellation was asked for, the job ends in a terminal status.
pub proof fn lemma_finish_is_terminal(cancel_requested: bool, outcome: JobOutcome)
    ensures
        finish_transition(cancel_requested, outcome).spec_is_terminal(),
        JobStatus::Processing.spec_can_transition(finish_transition(cancel_requested, outcome)),
{
}

/// A job has one status at a time: no job appears twice in the job list.
pub proof fn lemma_one_status_per_job(p: JobProcessor, i: int, j: int)
    requires
        p.wf(),
        0 <= i < p.entries().len(),
        0 <= j < p.entries().len(),
        i != j,
    ensures
        p.entries()[i].0 != p.entries()[j].0,
{
}

} // verus!
