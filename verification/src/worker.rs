use vstd::prelude::*;

verus! {

/// What a worker is doing right now.
///
/// `Busy` and `Crashed` carry the token of the job the worker claimed.
/// `Crashed` records a job whose own fault took the worker's thread
/// down: the pool neither catches the fault nor replaces the worker,
/// so a crashed worker never claims another message.
#[derive(PartialEq, Eq, Structural, Debug, Clone, Copy)]
pub enum WorkerStatus {
    Idle,
    Busy(u64),
    Terminated,
    Crashed(u64),
}

/// One worker of the pool: an identifier, unique within the pool, the
/// worker's current status, and the jobs it has run to completion, in
/// the order it finished them.
pub struct Worker {
    pub id: usize,
    pub status: WorkerStatus,
    pub completed: Vec<u64>,
}

/// How many entries of this sequence equal the given token.
pub open spec fn count_id(s: Seq<u64>, job: u64) -> nat
    decreases s.len(),
{
    if s.len() == 0 {
        0
    } else {
        count_id(s.drop_last(), job) + if s.last() == job { 1nat } else { 0nat }
    }
}

/// Appending one token raises its own count by one and no other count.
pub proof fn lemma_count_id_push(s: Seq<u64>, x: u64, job: u64)
    ensures
        count_id(s.push(x), job) == count_id(s, job) + if x == job { 1nat } else { 0nat },
{
    assert(s.push(x).drop_last() =~= s);
}

impl Worker {
    /// How many times this worker accounts for the given token: once for
    /// each completed run, plus once if the token is the job it is
    /// running now or the job it crashed on.
    pub open spec fn holds_count(self, job: u64) -> nat {
        count_id(self.completed@, job) + match self.status {
            WorkerStatus::Busy(j) => if j == job { 1nat } else { 0nat },
            WorkerStatus::Crashed(j) => if j == job { 1nat } else { 0nat },
            _ => 0nat,
        }
    }

    /// A live worker still takes part in the protocol: it is waiting
    /// for a message or running a job.
    pub open spec fn is_live(self) -> bool {
        self.status is Idle || self.status is Busy
    }

    /// A fresh worker: idle, with nothing completed yet.
    pub fn new(id: usize) -> (w: Worker)
        ensures
            w.id == id,
            w.status is Idle,
            w.completed@ == Seq::<u64>::empty(),
    {
        Worker { id, status: WorkerStatus::Idle, completed: Vec::new() }
    }
}

/// How many times the workers together account for the given token.
pub open spec fn invoked(ws: Seq<Worker>, job: u64) -> nat
    decreases ws.len(),
{
    if ws.len() == 0 {
        0
    } else {
        invoked(ws.drop_last(), job) + ws.last().holds_count(job)
    }
}

/// How many workers are still live.
pub open spec fn live_count(ws: Seq<Worker>) -> nat
    decreases ws.len(),
{
    if ws.len() == 0 {
        0
    } else {
        live_count(ws.drop_last()) + if ws.last().is_live() { 1nat } else { 0nat }
    }
}

/// How many workers are running a job right now.
pub open spec fn busy_count(ws: Seq<Worker>) -> nat
    decreases ws.len(),
{
    if ws.len() == 0 {
        0
    } else {
        busy_count(ws.drop_last()) + if ws.last().status is Busy { 1nat } else { 0nat }
    }
}

/// How many workers have observed a terminate message and stopped.
pub open spec fn terminated_count(ws: Seq<Worker>) -> nat
    decreases ws.len(),
{
    if ws.len() == 0 {
        0
    } else {
        terminated_count(ws.drop_last()) + if ws.last().status is Terminated { 1nat } else { 0nat }
    }
}

/// How many workers went down with a faulting job.
pub open spec fn crashed_count(ws: Seq<Worker>) -> nat
    decreases ws.len(),
{
    if ws.len() == 0 {
        0
    } else {
        crashed_count(ws.drop_last()) + if ws.last().status is Crashed { 1nat } else { 0nat }
    }
}

/// Replacing the worker at one position shifts every count by the
/// difference between the new and the old contribution at that position.
pub proof fn lemma_counts_update(ws: Seq<Worker>, i: int, w: Worker, job: u64)
    requires
        0 <= i < ws.len(),
    ensures
        invoked(ws.update(i, w), job) + ws[i].holds_count(job) == invoked(ws, job) + w.holds_count(job),
        live_count(ws.update(i, w)) + (if ws[i].is_live() { 1nat } else { 0nat })
            == live_count(ws) + (if w.is_live() { 1nat } else { 0nat }),
        busy_count(ws.update(i, w)) + (if ws[i].status is Busy { 1nat } else { 0nat })
            == busy_count(ws) + (if w.status is Busy { 1nat } else { 0nat }),
        terminated_count(ws.update(i, w)) + (if ws[i].status is Terminated { 1nat } else { 0nat })
            == terminated_count(ws) + (if w.status is Terminated { 1nat } else { 0nat }),
        crashed_count(ws.update(i, w)) + (if ws[i].status is Crashed { 1nat } else { 0nat })
            == crashed_count(ws) + (if w.status is Crashed { 1nat } else { 0nat }),
    decreases ws.len(),
{
    if i == ws.len() - 1 {
        assert(ws.update(i, w).drop_last() =~= ws.drop_last());
        assert(ws.update(i, w).last() == w);
    } else {
        assert(ws.update(i, w).drop_last() =~= ws.drop_last().update(i, w));
        assert(ws.update(i, w).last() == ws.last());
        lemma_counts_update(ws.drop_last(), i, w, job);
    }
}

/// The workers together account for a token zero times exactly when each
/// worker on its own accounts for it zero times.
pub proof fn lemma_invoked_zero(ws: Seq<Worker>, job: u64)
    ensures
        invoked(ws, job) == 0 <==> (forall|i: int|
            0 <= i < ws.len() ==> (#[trigger] ws[i]).holds_count(job) == 0),
    decreases ws.len(),
{
    if ws.len() > 0 {
        lemma_invoked_zero(ws.drop_last(), job);
        if invoked(ws, job) == 0 {
            assert forall|i: int| 0 <= i < ws.len() implies (#[trigger] ws[i]).holds_count(job) == 0 by {
                if i < ws.len() - 1 {
                    assert(ws.drop_last()[i] == ws[i]);
                }
            }
        } else {
            if ws.last().holds_count(job) == 0 {
                let k = choose|k: int|
                    0 <= k < ws.drop_last().len() && (#[trigger] ws.drop_last()[k]).holds_count(job) != 0;
                assert(ws[k].holds_count(job) != 0);
            } else {
                assert(ws[ws.len() - 1].holds_count(job) != 0);
            }
        }
    }
}

/// No worker is live exactly when the live count is zero.
pub proof fn lemma_live_zero(ws: Seq<Worker>)
    ensures
        live_count(ws) == 0 <==> (forall|i: int| 0 <= i < ws.len() ==> !(#[trigger] ws[i]).is_live()),
    decreases ws.len(),
{
    if ws.len() > 0 {
        lemma_live_zero(ws.drop_last());
        if live_count(ws) == 0 {
            assert forall|i: int| 0 <= i < ws.len() implies !(#[trigger] ws[i]).is_live() by {
                if i < ws.len() - 1 {
                    assert(ws.drop_last()[i] == ws[i]);
                }
            }
        } else {
            if !ws.last().is_live() {
                let k = choose|k: int|
                    0 <= k < ws.drop_last().len() && (#[trigger] ws.drop_last()[k]).is_live();
                assert(ws[k].is_live());
            } else {
                assert(ws[ws.len() - 1].is_live());
            }
        }
    }
}

/// No worker is terminated exactly when the terminated count is zero.
pub proof fn lemma_terminated_zero(ws: Seq<Worker>)
    ensures
        terminated_count(ws) == 0 <==> (forall|i: int|
            0 <= i < ws.len() ==> !((#[trigger] ws[i]).status is Terminated)),
    decreases ws.len(),
{
    if ws.len() > 0 {
        lemma_terminated_zero(ws.drop_last());
        if terminated_count(ws) == 0 {
            assert forall|i: int| 0 <= i < ws.len() implies !((#[trigger] ws[i]).status is Terminated) by {
                if i < ws.len() - 1 {
                    assert(ws.drop_last()[i] == ws[i]);
                }
            }
        } else {
            if !(ws.last().status is Terminated) {
                let k = choose|k: int|
                    0 <= k < ws.drop_last().len() && (#[trigger] ws.drop_last()[k]).status is Terminated;
                assert(ws[k].status is Terminated);
            } else {
                assert(ws[ws.len() - 1].status is Terminated);
            }
        }
    }
}

/// No worker is crashed exactly when the crashed count is zero.
pub proof fn lemma_crashed_zero(ws: Seq<Worker>)
    ensures
        crashed_count(ws) == 0 <==> (forall|i: int|
            0 <= i < ws.len() ==> !((#[trigger] ws[i]).status is Crashed)),
    decreases ws.len(),
{
    if ws.len() > 0 {
        lemma_crashed_zero(ws.drop_last());
        if crashed_count(ws) == 0 {
            assert forall|i: int| 0 <= i < ws.len() implies !((#[trigger] ws[i]).status is Crashed) by {
                if i < ws.len() - 1 {
                    assert(ws.drop_last()[i] == ws[i]);
                }
            }
        } else {
            if !(ws.last().status is Crashed) {
                let k = choose|k: int|
                    0 <= k < ws.drop_last().len() && (#[trigger] ws.drop_last()[k]).status is Crashed;
                assert(ws[k].status is Crashed);
            } else {
                assert(ws[ws.len() - 1].status is Crashed);
            }
        }
    }
}

/// At most every worker is live.
pub proof fn lemma_live_le_len(ws: Seq<Worker>)
    ensures
        live_count(ws) <= ws.len(),
    decreases ws.len(),
{
    if ws.len() > 0 {
        lemma_live_le_len(ws.drop_last());
    }
}

/// Every worker is live, terminated, or crashed, so the three counts
/// partition the pool.
pub proof fn lemma_status_partition(ws: Seq<Worker>)
    ensures
        live_count(ws) + terminated_count(ws) + crashed_count(ws) == ws.len(),
    decreases ws.len(),
{
    if ws.len() > 0 {
        lemma_status_partition(ws.drop_last());
    }
}

} // verus!
