use vstd::prelude::*;
use crate::message::queued_count;
use crate::message::term_count;
use crate::pool::ThreadPool;
use crate::worker::Worker;
use crate::worker::WorkerStatus;
use crate::worker::count_id;
use crate::worker::invoked;
use crate::worker::live_count;

verus! {

/// A well-formed pool's workers carry distinct identifiers, each below
/// the pool's size: the identifier of the worker at position `i` is `i`.
pub proof fn lemma_worker_ids_distinct(p: ThreadPool, i: int, k: int)
    requires
        p.wf(),
        0 <= i < p.workers@.len(),
        0 <= k < p.workers@.len(),
        i != k,
    ensures
        p.workers@[i].id != p.workers@[k].id,
        p.workers@[i].id < p.workers@.len(),
{
}

/// Conservation of jobs: in every well-formed pool state, each token is
/// accounted for exactly as often as it was submitted — it is still in
/// the queue, or held by a worker that claimed it, finished it, or went
/// down with it. No job is duplicated and none is silently dropped.
pub proof fn lemma_job_conservation(p: ThreadPool, job: u64)
    requires
        p.wf(),
    ensures
        count_id(p.submitted@, job) == queued_count(p.queue@, job) + invoked(p.workers@, job),
{
}

/// A worker runs at most one job at a time: two jobs it is running at
/// the same moment are the same job.
pub proof fn lemma_one_job_at_a_time(w: Worker, j1: u64, j2: u64)
    requires
        w.status == WorkerStatus::Busy(j1),
        w.status == WorkerStatus::Busy(j2),
    ensures
        j1 == j2,
{
}

/// Once shutdown has begun, the queue holds at least one terminate
/// message for every worker that is still live, so no worker is left
/// waiting for a signal that another worker swallowed: this is what the
/// send-all-terminates-then-wait order of the shutdown protocol buys.
pub proof fn lemma_no_worker_waits_forever(p: ThreadPool)
    requires
        p.wf(),
        p.shutdown_begun,
    ensures
        term_count(p.queue@) >= live_count(p.workers@),
{
}

} // verus!
