use vstd::prelude::*;
use std::collections::VecDeque;
use crate::message::Message;
use crate::message::queued_count;
use crate::message::job_count;
use crate::message::term_count;
use crate::message::terminates_last;
use crate::message::lemma_counts_push;
use crate::message::lemma_job_count_zero;
use crate::message::lemma_term_count_zero;
use crate::message::lemma_queued_le_job;
use crate::message::lemma_term_le_len;
use crate::worker::Worker;
use crate::worker::WorkerStatus;
use crate::worker::count_id;
use crate::worker::lemma_count_id_push;
use crate::worker::invoked;
use crate::worker::live_count;
use crate::worker::busy_count;
use crate::worker::terminated_count;
use crate::worker::crashed_count;
use crate::worker::lemma_counts_update;
use crate::worker::lemma_invoked_zero;
use crate::worker::lemma_live_zero;
use crate::worker::lemma_terminated_zero;
use crate::worker::lemma_crashed_zero;
use crate::worker::lemma_live_le_len;
use crate::worker::lemma_status_partition;

verus! {

/// A fixed-size worker pool over a single FIFO dispatch queue.
///
/// The pool is a state machine: callers enqueue jobs with `execute`,
/// and each step of a worker — claiming the front message, finishing
/// the job it runs, or going down with a faulting job — is one
/// transition. Shutdown enqueues one terminate message per worker and
/// then steps the workers until none is live.
///
/// `submitted` records every job token ever passed to `execute`, and
/// `completion_order` every finished job in the order of finishing;
/// together with each worker's own log they tie the pool to its
/// central guarantee: no submitted job is ever lost or run twice.
pub struct ThreadPool {
    pub workers: Vec<Worker>,
    pub queue: VecDeque<Message>,
    pub submitted: Vec<u64>,
    pub completion_order: Vec<u64>,
    pub shutdown_begun: bool,
}

impl ThreadPool {
    /// The pool's invariant.
    ///
    /// - the pool has at least one worker, and worker identifiers are
    ///   their positions, so they are distinct;
    /// - conservation: each submitted token is accounted for exactly as
    ///   often as it was submitted, either still queued or held by
    ///   exactly one worker (claimed, finished, or crashed on);
    /// - terminate messages sit behind all job messages, appear only
    ///   once shutdown has begun, and from then on at least one waits
    ///   for every live worker, so no worker can wait forever;
    /// - while no worker has crashed, terminate messages and live
    ///   workers match exactly, and once the terminates are gone no job
    ///   message is left behind.
    pub open spec fn wf(self) -> bool {
        &&& self.workers@.len() >= 1
        &&& forall|i: int| 0 <= i < self.workers@.len() ==> (#[trigger] self.workers@[i]).id == i
        &&& forall|job: u64| #[trigger] count_id(self.submitted@, job)
                == queued_count(self.queue@, job) + invoked(self.workers@, job)
        &&& terminates_last(self.queue@)
        &&& (!self.shutdown_begun ==> term_count(self.queue@) == 0)
        &&& (!self.shutdown_begun ==> terminated_count(self.workers@) == 0)
        &&& (self.shutdown_begun ==> term_count(self.queue@) >= live_count(self.workers@))
        &&& (self.shutdown_begun && crashed_count(self.workers@) == 0
                ==> term_count(self.queue@) == live_count(self.workers@))
        &&& (self.shutdown_begun && term_count(self.queue@) == 0 ==> job_count(self.queue@) == 0)
    }

    /// Create a pool of exactly `size` workers, with distinct
    /// identifiers assigned in order starting at zero, all idle, over
    /// an empty queue.
    ///
    /// A pool of zero workers is a fatal precondition violation in the
    /// running system; here the precondition rules it out.
    pub fn new(size: usize) -> (pool: ThreadPool)
        requires
            size >= 1,
        ensures
            pool.wf(),
            pool.workers@.len() == size,
            forall|i: int| 0 <= i < size ==> (#[trigger] pool.workers@[i]).id == i,
            forall|i: int| 0 <= i < size ==> (#[trigger] pool.workers@[i]).status is Idle,
            forall|i: int| 0 <= i < size
                ==> (#[trigger] pool.workers@[i]).completed@ == Seq::<u64>::empty(),
            pool.queue@ == Seq::<Message>::empty(),
            pool.submitted@ == Seq::<u64>::empty(),
            pool.completion_order@ == Seq::<u64>::empty(),
            !pool.shutdown_begun,
    {
        let mut workers: Vec<Worker> = Vec::new();
        let mut id: usize = 0;
        while id < size
            invariant
                id <= size,
                workers@.len() == id,
                forall|i: int| 0 <= i < id ==> (#[trigger] workers@[i]).id == i,
                forall|i: int| 0 <= i < id ==> (#[trigger] workers@[i]).status is Idle,
                forall|i: int| 0 <= i < id
                    ==> (#[trigger] workers@[i]).completed@ == Seq::<u64>::empty(),
            decreases size - id,
        {
            workers.push(Worker::new(id));
            id = id + 1;
        }
        let pool = ThreadPool {
            workers,
            queue: VecDeque::new(),
            submitted: Vec::new(),
            completion_order: Vec::new(),
            shutdown_begun: false,
        };
        proof {
            assert forall|job: u64| #[trigger] count_id(pool.submitted@, job)
                == queued_count(pool.queue@, job) + invoked(pool.workers@, job) by {
                assert forall|i: int| 0 <= i < pool.workers@.len()
                    implies (#[trigger] pool.workers@[i]).holds_count(job) == 0 by {
                    assert(count_id(pool.workers@[i].completed@, job) == 0);
                }
                lemma_invoked_zero(pool.workers@, job);
            }
            lemma_terminated_zero(pool.workers@);
        }
        pool
    }

    /// Submit a job, named by the caller's token: enqueue it at the back
    /// of the dispatch queue, fire and forget.
    ///
    /// In the running system a submission after shutdown has begun is an
    /// unrecoverable fault; here the precondition rules it out.
    pub fn execute(&mut self, job: u64)
        requires
            old(self).wf(),
            !old(self).shutdown_begun,
        ensures
            final(self).wf(),
            final(self).queue@ == old(self).queue@.push(Message::NewJob(job)),
            final(self).submitted@ == old(self).submitted@.push(job),
            final(self).workers == old(self).workers,
            final(self).completion_order == old(self).completion_order,
            !final(self).shutdown_begun,
    {
        self.queue.push_back(Message::NewJob(job));
        self.submitted.push(job);
        proof {
            let q0 = old(self).queue@;
            let m = Message::NewJob(job);
            assert forall|j: u64| #[trigger] count_id(self.submitted@, j)
                == queued_count(self.queue@, j) + invoked(self.workers@, j) by {
                lemma_counts_push(q0, m, j);
                lemma_count_id_push(old(self).submitted@, job, j);
            }
            lemma_counts_push(q0, m, job);
            lemma_term_count_zero(q0);
            assert forall|i: int, k: int|
                0 <= i < k < self.queue@.len() && self.queue@[i] is Terminate
                implies self.queue@[k] is Terminate by {
                assert(!(q0[i] is Terminate));
            }
        }
    }
    /// Begin shutdown: enqueue exactly one terminate message per worker,
    /// all of them before any worker is waited for.
    ///
    /// Sending every terminate first is what keeps shutdown from
    /// hanging: any worker may claim any terminate message, so as long
    /// as one message per worker is in the queue, no worker can be left
    /// waiting for a signal another worker swallowed.
    pub fn begin_shutdown(&mut self)
        requires
            old(self).wf(),
            !old(self).shutdown_begun,
        ensures
            final(self).wf(),
            final(self).shutdown_begun,
            final(self).workers == old(self).workers,
            final(self).submitted == old(self).submitted,
            final(self).completion_order == old(self).completion_order,
            final(self).queue@.len() == old(self).queue@.len() + old(self).workers@.len(),
            final(self).queue@.subrange(0, old(self).queue@.len() as int) == old(self).queue@,
            forall|i: int| old(self).queue@.len() <= i < final(self).queue@.len()
                ==> (#[trigger] final(self).queue@[i]) is Terminate,
            term_count(final(self).queue@) == old(self).workers@.len(),
            forall|job: u64| #[trigger] queued_count(final(self).queue@, job)
                == queued_count(old(self).queue@, job),
    {
        let size = self.workers.len();
        let ghost q0 = self.queue@;
        let mut k: usize = 0;
        while k < size
            invariant
                k <= size,
                self.workers == old(self).workers,
                self.submitted == old(self).submitted,
                self.completion_order == old(self).completion_order,
                self.shutdown_begun == old(self).shutdown_begun,
                size == self.workers@.len(),
                self.queue@.len() == q0.len() + k,
                self.queue@.subrange(0, q0.len() as int) == q0,
                forall|i: int| q0.len() <= i < self.queue@.len()
                    ==> (#[trigger] self.queue@[i]) is Terminate,
                term_count(self.queue@) == term_count(q0) + k,
                job_count(self.queue@) == job_count(q0),
                forall|job: u64| #[trigger] queued_count(self.queue@, job) == queued_count(q0, job),
                terminates_last(self.queue@),
            decreases size - k,
        {
            let ghost qk = self.queue@;
            self.queue.push_back(Message::Terminate);
            k = k + 1;
            proof {
                assert(self.queue@.subrange(0, q0.len() as int)
                    =~= qk.subrange(0, q0.len() as int));
                lemma_counts_push(qk, Message::Terminate, 0);
                assert forall|job: u64| #[trigger] queued_count(self.queue@, job)
                    == queued_count(q0, job) by {
                    lemma_counts_push(qk, Message::Terminate, job);
                }
            }
        }
        self.shutdown_begun = true;
        proof {
            lemma_live_le_len(self.workers@);
            lemma_status_partition(self.workers@);
            assert(term_count(q0) == 0);
            assert forall|job: u64| #[trigger] count_id(self.submitted@, job)
                == queued_count(self.queue@, job) + invoked(self.workers@, job) by {
                assert(count_id(old(self).submitted@, job)
                    == queued_count(q0, job) + invoked(old(self).workers@, job));
            }
        }
    }

    /// An idle worker claims the message at the front of the queue,
    /// under the mutual exclusion the shared receiving end provides:
    /// each message is taken by exactly one worker. A job message puts
    /// the worker to work on that job; a terminate message stops it for
    /// good. Only an idle worker can claim — a worker running a job asks
    /// for its next message only after the job is done.
    pub fn claim(&mut self, wi: usize) -> (m: Message)
        requires
            old(self).wf(),
            wi < old(self).workers@.len(),
            old(self).workers@[wi as int].status is Idle,
            old(self).queue@.len() > 0,
        ensures
            final(self).wf(),
            m == old(self).queue@[0],
            final(self).queue@ == old(self).queue@.drop_first(),
            final(self).submitted == old(self).submitted,
            final(self).completion_order == old(self).completion_order,
            final(self).shutdown_begun == old(self).shutdown_begun,
            final(self).workers@.len() == old(self).workers@.len(),
            (match m {
                Message::NewJob(j) => final(self).workers@[wi as int].status == WorkerStatus::Busy(j),
                Message::Terminate => final(self).workers@[wi as int].status is Terminated,
            }),
            final(self).workers@[wi as int].id == old(self).workers@[wi as int].id,
            final(self).workers@[wi as int].completed == old(self).workers@[wi as int].completed,
            forall|i: int| 0 <= i < old(self).workers@.len() && i != wi
                ==> final(self).workers@[i] == old(self).workers@[i],
            live_count(final(self).workers@) + (if m is Terminate { 1nat } else { 0nat })
                == live_count(old(self).workers@),
            busy_count(final(self).workers@)
                == busy_count(old(self).workers@) + (if m is NewJob { 1nat } else { 0nat }),
            crashed_count(final(self).workers@) == crashed_count(old(self).workers@),
    {
        let m = match self.queue.pop_front() {
            Some(m) => m,
            None => unreached(),
        };
        let w = &mut self.workers[wi];
        match m {
            Message::NewJob(j) => {
                w.status = WorkerStatus::Busy(j);
            },
            Message::Terminate => {
                w.status = WorkerStatus::Terminated;
            },
        }
        proof {
            let q0 = old(self).queue@;
            let ws0 = old(self).workers@;
            let w0 = ws0[wi as int];
            let w1 = self.workers@[wi as int];
            assert(self.queue@ =~= q0.drop_first());
            assert(self.workers@ =~= ws0.update(wi as int, w1));
            lemma_counts_update(ws0, wi as int, w1, 0);
            assert forall|job: u64| #[trigger] count_id(self.submitted@, job)
                == queued_count(self.queue@, job) + invoked(self.workers@, job) by {
                lemma_counts_update(ws0, wi as int, w1, job);
                assert(count_id(old(self).submitted@, job)
                    == queued_count(q0, job) + invoked(ws0, job));
                assert(queued_count(q0, job) == (match q0[0] {
                    Message::NewJob(x) => if x == job { 1nat } else { 0nat },
                    Message::Terminate => 0nat,
                }) + queued_count(q0.drop_first(), job));
            }
            assert forall|i: int, k: int|
                0 <= i < k < self.queue@.len() && self.queue@[i] is Terminate
                implies self.queue@[k] is Terminate by {
                assert(q0[i + 1] is Terminate);
            }
            if m is Terminate {
                lemma_term_count_zero(q0);
                assert(self.shutdown_begun);
                assert forall|i: int| 0 <= i < self.queue@.len()
                    implies !((#[trigger] self.queue@[i]) is NewJob) by {
                    assert(q0[i + 1] is Terminate);
                }
                lemma_job_count_zero(self.queue@);
            }
        }
        m
    }

    /// A busy worker runs its claimed job to completion: the job is
    /// appended to the worker's own log and to the pool-wide completion
    /// order, and the worker goes back to waiting for the next message.
    pub fn finish(&mut self, wi: usize) -> (job: u64)
        requires
            old(self).wf(),
            wi < old(self).workers@.len(),
            old(self).workers@[wi as int].status is Busy,
        ensures
            final(self).wf(),
            old(self).workers@[wi as int].status == WorkerStatus::Busy(job),
            final(self).queue == old(self).queue,
            final(self).submitted == old(self).submitted,
            final(self).completion_order@ == old(self).completion_order@.push(job),
            final(self).shutdown_begun == old(self).shutdown_begun,
            final(self).workers@.len() == old(self).workers@.len(),
            final(self).workers@[wi as int].status is Idle,
            final(self).workers@[wi as int].id == old(self).workers@[wi as int].id,
            final(self).workers@[wi as int].completed@
                == old(self).workers@[wi as int].completed@.push(job),
            forall|i: int| 0 <= i < old(self).workers@.len() && i != wi
                ==> final(self).workers@[i] == old(self).workers@[i],
            live_count(final(self).workers@) == live_count(old(self).workers@),
            busy_count(final(self).workers@) + 1nat == busy_count(old(self).workers@),
            crashed_count(final(self).workers@) == crashed_count(old(self).workers@),
    {
        let w = &mut self.workers[wi];
        let job = match w.status {
            WorkerStatus::Busy(j) => j,
            _ => unreached(),
        };
        w.status = WorkerStatus::Idle;
        w.completed.push(job);
        self.completion_order.push(job);
        proof {
            let ws0 = old(self).workers@;
            let w0 = ws0[wi as int];
            let w1 = self.workers@[wi as int];
            assert(self.workers@ =~= ws0.update(wi as int, w1));
            lemma_counts_update(ws0, wi as int, w1, 0);
            assert forall|j: u64| #[trigger] count_id(self.submitted@, j)
                == queued_count(self.queue@, j) + invoked(self.workers@, j) by {
                lemma_counts_update(ws0, wi as int, w1, j);
                lemma_count_id_push(w0.completed@, job, j);
                assert(count_id(old(self).submitted@, j)
                    == queued_count(old(self).queue@, j) + invoked(ws0, j));
            }
        }
        job
    }

    /// A busy worker goes down with its job: the job's own fault ends
    /// the worker's thread. The pool does not catch the fault, does not
    /// log the job as completed, and does not replace the worker — a
    /// crashed worker claims no further message, and whatever is queued
    /// for it waits forever. This mirrors the running system's explicit
    /// lack of panic isolation.
    pub fn crash(&mut self, wi: usize) -> (job: u64)
        requires
            old(self).wf(),
            wi < old(self).workers@.len(),
            old(self).workers@[wi as int].status is Busy,
        ensures
            final(self).wf(),
            old(self).workers@[wi as int].status == WorkerStatus::Busy(job),
            final(self).queue == old(self).queue,
            final(self).submitted == old(self).submitted,
            final(self).completion_order == old(self).completion_order,
            final(self).shutdown_begun == old(self).shutdown_begun,
            final(self).workers@.len() == old(self).workers@.len(),
            final(self).workers@[wi as int].status == WorkerStatus::Crashed(job),
            final(self).workers@[wi as int].id == old(self).workers@[wi as int].id,
            final(self).workers@[wi as int].completed == old(self).workers@[wi as int].completed,
            forall|i: int| 0 <= i < old(self).workers@.len() && i != wi
                ==> final(self).workers@[i] == old(self).workers@[i],
            live_count(final(self).workers@) + 1nat == live_count(old(self).workers@),
            busy_count(final(self).workers@) + 1nat == busy_count(old(self).workers@),
            crashed_count(final(self).workers@) == crashed_count(old(self).workers@) + 1nat,
    {
        let w = &mut self.workers[wi];
        let job = match w.status {
            WorkerStatus::Busy(j) => j,
            _ => unreached(),
        };
        w.status = WorkerStatus::Crashed(job);
        proof {
            let ws0 = old(self).workers@;
            let w1 = self.workers@[wi as int];
            assert(self.workers@ =~= ws0.update(wi as int, w1));
            lemma_counts_update(ws0, wi as int, w1, 0);
            assert forall|j: u64| #[trigger] count_id(self.submitted@, j)
                == queued_count(self.queue@, j) + invoked(self.workers@, j) by {
                lemma_counts_update(ws0, wi as int, w1, j);
                assert(count_id(old(self).submitted@, j)
                    == queued_count(old(self).queue@, j) + invoked(ws0, j));
            }
        }
        job
    }

    /// Find a worker that is still live, if any: one still waiting for
    /// a message or running a job.
    pub fn find_live(&self) -> (r: Option<usize>)
        ensures
            (match r {
                Some(wi) => wi < self.workers@.len() && self.workers@[wi as int].is_live(),
                None => live_count(self.workers@) == 0,
            }),
    {
        let n = self.workers.len();
        let mut k: usize = 0;
        while k < n
            invariant
                k <= n,
                n == self.workers@.len(),
                forall|i: int| 0 <= i < k ==> !(#[trigger] self.workers@[i]).is_live(),
            decreases n - k,
        {
            match self.workers[k].status {
                WorkerStatus::Idle => { return Some(k); },
                WorkerStatus::Busy(_) => { return Some(k); },
                _ => {},
            }
            k = k + 1;
        }
        proof {
            lemma_live_zero(self.workers@);
        }
        None
    }

    /// Wait until every worker has stopped, stepping the workers until
    /// none is live. This models the join phase of shutdown: the call
    /// provably terminates — each step either consumes a queued message
    /// or finishes a running job — and when it returns, no worker is
    /// live any more.
    ///
    /// If no worker has crashed, every submitted job has then been run
    /// exactly once: the terminate messages sit behind every job in the
    /// FIFO queue, so no worker can stop while a job is still queued.
    pub fn drain(&mut self)
        requires
            old(self).wf(),
            old(self).shutdown_begun,
        ensures
            final(self).wf(),
            final(self).shutdown_begun,
            live_count(final(self).workers@) == 0,
            final(self).workers@.len() == old(self).workers@.len(),
            final(self).submitted == old(self).submitted,
            crashed_count(final(self).workers@) == crashed_count(old(self).workers@),
            crashed_count(old(self).workers@) == 0 ==> forall|i: int|
                0 <= i < final(self).workers@.len()
                    ==> (#[trigger] final(self).workers@[i]).status is Terminated,
            crashed_count(old(self).workers@) == 0 ==> forall|job: u64|
                #[trigger] invoked(final(self).workers@, job)
                    == count_id(final(self).submitted@, job),
    {
        loop
            invariant
                self.wf(),
                self.shutdown_begun,
                self.workers@.len() == old(self).workers@.len(),
                self.submitted == old(self).submitted,
                crashed_count(self.workers@) == crashed_count(old(self).workers@),
            ensures
                live_count(self.workers@) == 0,
            decreases 2 * self.queue@.len() + busy_count(self.workers@),
        {
            let next = self.find_live();
            match next {
                None => { break; },
                Some(wi) => {
                    let busy = match self.workers[wi].status {
                        WorkerStatus::Busy(_) => true,
                        _ => false,
                    };
                    if busy {
                        self.finish(wi);
                    } else {
                        proof {
                            lemma_live_zero(self.workers@);
                            lemma_term_le_len(self.queue@);
                        }
                        self.claim(wi);
                    }
                },
            }
        }
        proof {
            if crashed_count(old(self).workers@) == 0 {
                lemma_queue_empty_after_drain(*self);
                lemma_live_zero(self.workers@);
                lemma_crashed_zero(self.workers@);
            }
        }
    }

    /// The full shutdown protocol, as the pool's owner triggers it when
    /// the pool goes out of scope: first one terminate message per
    /// worker is enqueued — all of them, before any waiting — then the
    /// workers are waited for until every one has stopped.
    pub fn shutdown(&mut self)
        requires
            old(self).wf(),
            !old(self).shutdown_begun,
        ensures
            final(self).wf(),
            final(self).shutdown_begun,
            live_count(final(self).workers@) == 0,
            final(self).workers@.len() == old(self).workers@.len(),
            final(self).submitted == old(self).submitted,
            crashed_count(final(self).workers@) == crashed_count(old(self).workers@),
            crashed_count(old(self).workers@) == 0 ==> forall|i: int|
                0 <= i < final(self).workers@.len()
                    ==> (#[trigger] final(self).workers@[i]).status is Terminated,
            crashed_count(old(self).workers@) == 0 ==> forall|job: u64|
                #[trigger] invoked(final(self).workers@, job)
                    == count_id(final(self).submitted@, job),
    {
        self.begin_shutdown();
        self.drain();
    }

}

/// In a well-formed pool whose shutdown has begun, once no worker is
/// live and none has crashed, the queue holds no job message, so the
/// conservation invariant leaves every submitted job with the workers:
/// each was run exactly as often as it was submitted.
pub proof fn lemma_queue_empty_after_drain(p: ThreadPool)
    requires
        p.wf(),
        p.shutdown_begun,
        live_count(p.workers@) == 0,
        crashed_count(p.workers@) == 0,
    ensures
        job_count(p.queue@) == 0,
        forall|job: u64| #[trigger] invoked(p.workers@, job) == count_id(p.submitted@, job),
{
    assert(term_count(p.queue@) == live_count(p.workers@));
    assert(job_count(p.queue@) == 0);
    assert forall|job: u64| #[trigger] invoked(p.workers@, job) == count_id(p.submitted@, job) by {
        lemma_queued_le_job(p.queue@, job);
    }
}

} // verus!
