use vstd::prelude::*;

verus! {

/// A message carried by the dispatch channel: either a job to run,
/// identified by the token its submitter chose, or an order telling
/// one worker to shut down.
#[derive(PartialEq, Eq, Structural, Debug, Clone, Copy)]
pub enum Message {
    NewJob(u64),
    Terminate,
}

/// How many job messages with this exact token the queue holds.
pub open spec fn queued_count(q: Seq<Message>, job: u64) -> nat
    decreases q.len(),
{
    if q.len() == 0 {
        0
    } else {
        (match q[0] {
            Message::NewJob(j) => if j == job { 1nat } else { 0nat },
            Message::Terminate => 0nat,
        }) + queued_count(q.drop_first(), job)
    }
}

/// How many job messages of any token the queue holds.
pub open spec fn job_count(q: Seq<Message>) -> nat
    decreases q.len(),
{
    if q.len() == 0 {
        0
    } else {
        (match q[0] {
            Message::NewJob(_) => 1nat,
            Message::Terminate => 0nat,
        }) + job_count(q.drop_first())
    }
}

/// How many terminate messages the queue holds.
pub open spec fn term_count(q: Seq<Message>) -> nat
    decreases q.len(),
{
    if q.len() == 0 {
        0
    } else {
        (match q[0] {
            Message::Terminate => 1nat,
            Message::NewJob(_) => 0nat,
        }) + term_count(q.drop_first())
    }
}

/// Terminate messages form a suffix of the queue: jobs are only enqueued
/// while no terminate message is pending, so every job message sits in
/// front of every terminate message.
pub open spec fn terminates_last(q: Seq<Message>) -> bool {
    forall|i: int, k: int|
        0 <= i < k < q.len() && q[i] is Terminate ==> q[k] is Terminate
}

/// Enqueueing one message at the back raises each count by that
/// message's own contribution and leaves the other counts unchanged.
pub proof fn lemma_counts_push(q: Seq<Message>, m: Message, job: u64)
    ensures
        queued_count(q.push(m), job) == queued_count(q, job) + (match m {
            Message::NewJob(j) => if j == job { 1nat } else { 0nat },
            Message::Terminate => 0nat,
        }),
        job_count(q.push(m)) == job_count(q) + (match m {
            Message::NewJob(_) => 1nat,
            Message::Terminate => 0nat,
        }),
        term_count(q.push(m)) == term_count(q) + (match m {
            Message::Terminate => 1nat,
            Message::NewJob(_) => 0nat,
        }),
    decreases q.len(),
{
    if q.len() == 0 {
        assert(q.push(m).drop_first() =~= Seq::<Message>::empty());
        assert(q.push(m)[0] == m);
        assert(queued_count(Seq::<Message>::empty(), job) == 0);
        assert(job_count(Seq::<Message>::empty()) == 0);
        assert(term_count(Seq::<Message>::empty()) == 0);
    } else {
        lemma_counts_push(q.drop_first(), m, job);
        assert(q.push(m).drop_first() =~= q.drop_first().push(m));
    }
}

/// A queue holds no job message exactly when its job count is zero.
pub proof fn lemma_job_count_zero(q: Seq<Message>)
    ensures
        job_count(q) == 0 <==> (forall|i: int| 0 <= i < q.len() ==> !((#[trigger] q[i]) is NewJob)),
    decreases q.len(),
{
    if q.len() > 0 {
        lemma_job_count_zero(q.drop_first());
        if job_count(q) == 0 {
            assert forall|i: int| 0 <= i < q.len() implies !((#[trigger] q[i]) is NewJob) by {
                if i > 0 {
                    assert(q.drop_first()[i - 1] == q[i]);
                }
            }
        } else {
            if !(q[0] is NewJob) {
                let k = choose|k: int| 0 <= k < q.drop_first().len() && (#[trigger] q.drop_first()[k]) is NewJob;
                assert(q[k + 1] is NewJob);
            }
        }
    }
}

/// A queue holds no terminate message exactly when its terminate count is zero.
pub proof fn lemma_term_count_zero(q: Seq<Message>)
    ensures
        term_count(q) == 0 <==> (forall|i: int| 0 <= i < q.len() ==> !((#[trigger] q[i]) is Terminate)),
    decreases q.len(),
{
    if q.len() > 0 {
        lemma_term_count_zero(q.drop_first());
        if term_count(q) == 0 {
            assert forall|i: int| 0 <= i < q.len() implies !((#[trigger] q[i]) is Terminate) by {
                if i > 0 {
                    assert(q.drop_first()[i - 1] == q[i]);
                }
            }
        } else {
            if !(q[0] is Terminate) {
                let k = choose|k: int| 0 <= k < q.drop_first().len() && (#[trigger] q.drop_first()[k]) is Terminate;
                assert(q[k + 1] is Terminate);
            }
        }
    }
}

/// The count of one token's job messages never exceeds the count of all
/// job messages.
pub proof fn lemma_queued_le_job(q: Seq<Message>, job: u64)
    ensures
        queued_count(q, job) <= job_count(q),
    decreases q.len(),
{
    if q.len() > 0 {
        lemma_queued_le_job(q.drop_first(), job);
    }
}

/// The terminate count never exceeds the queue's length.
pub proof fn lemma_term_le_len(q: Seq<Message>)
    ensures
        term_count(q) <= q.len(),
    decreases q.len(),
{
    if q.len() > 0 {
        lemma_term_le_len(q.drop_first());
    }
}

} // verus!
