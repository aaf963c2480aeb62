use vstd::prelude::*;
use crate::state::{after_payout, job_wf, Job};

verus! {

/// One thing that can happen to a job's accounting after creation: the
/// external attestation step marks one more milestone complete, or a
/// withdrawal attempt settles.
pub enum JobEvent {
    /// One milestone is marked complete. Beyond the outstanding count the
    /// attestation is refused and changes nothing.
    Marked,
    /// A withdrawal ran through to a confirmed transfer: the completed batch
    /// was paid in full and settled.
    PaidOut,
    /// A withdrawal attempt was rejected at a precondition, or its transfer
    /// failed: nothing changes and nothing is paid.
    Rejected,
}

/// How one event changes the job record.
pub open spec fn step(j: Job, e: JobEvent) -> Job {
    match e {
        JobEvent::Marked => if j.milestone_completed < j.milestones {
            Job { milestone_completed: (j.milestone_completed + 1) as u64, ..j }
        } else {
            j
        },
        JobEvent::PaidOut => after_payout(j),
        JobEvent::Rejected => j,
    }
}

/// The job record after a sequence of events.
pub open spec fn run(j: Job, t: Seq<JobEvent>) -> Job
    decreases t.len(),
{
    if t.len() == 0 {
        j
    } else {
        run(step(j, t[0]), t.drop_first())
    }
}

/// The total amount ever transferred out of the job's vault over a sequence
/// of events: each settled withdrawal pays exactly the completed batch.
pub open spec fn paid(j: Job, t: Seq<JobEvent>) -> int
    decreases t.len(),
{
    if t.len() == 0 {
        0
    } else {
        (if t[0] is PaidOut {
            j.pay_per_milestone * j.milestone_completed
        } else {
            0
        }) + paid(step(j, t[0]), t.drop_first())
    }
}

/// How many milestones were ever marked complete over a sequence of events.
pub open spec fn marked(j: Job, t: Seq<JobEvent>) -> int
    decreases t.len(),
{
    if t.len() == 0 {
        0
    } else {
        (if t[0] is Marked && j.milestone_completed < j.milestones {
            1int
        } else {
            0int
        }) + marked(step(j, t[0]), t.drop_first())
    }
}

/// At-most-once payout, and the invariant along the way: starting from any
/// well-formed job, every run keeps `milestone_completed <= milestones`, and
/// the total ever paid out is exactly `pay_per_milestone` for each milestone
/// ever marked complete, less the batch still pending settlement. In
/// particular it never exceeds `pay_per_milestone * marked`, however many
/// withdrawal attempts are interleaved, and attempts settled with nothing
/// completed pay nothing.
pub proof fn lemma_at_most_once_payout(j: Job, t: Seq<JobEvent>)
    requires
        job_wf(j),
    ensures
        job_wf(run(j, t)),
        paid(j, t) == j.pay_per_milestone * (marked(j, t) + j.milestone_completed - run(
            j,
            t,
        ).milestone_completed),
    decreases t.len(),
{
    if t.len() > 0 {
        let e = t[0];
        let t2 = t.drop_first();
        let j1 = step(j, e);
        assert(job_wf(j1));
        lemma_at_most_once_payout(j1, t2);
        let p = j.pay_per_milestone as int;
        let c = j.milestone_completed as int;
        let m1 = marked(j1, t2) + j1.milestone_completed - run(j1, t2).milestone_completed;
        assert(paid(j1, t2) == p * m1);
        assert(run(j, t) == run(j1, t2));
        match e {
            JobEvent::PaidOut => {
                assert(paid(j, t) == p * c + p * m1);
                assert(marked(j, t) == marked(j1, t2));
                assert(j1.milestone_completed == 0);
                assert(p * c + p * m1 == p * (c + m1)) by (nonlinear_arith);
                assert(marked(j, t) + c - run(j, t).milestone_completed == c + m1);
            },
            JobEvent::Marked => {
                assert(paid(j, t) == p * m1);
                if c < j.milestones {
                    assert(marked(j, t) == 1 + marked(j1, t2));
                    assert(j1.milestone_completed == c + 1);
                } else {
                    assert(marked(j, t) == marked(j1, t2));
                    assert(j1 == j);
                }
                assert(marked(j, t) + c - run(j, t).milestone_completed == m1);
            },
            JobEvent::Rejected => {
                assert(j1 == j);
                assert(paid(j, t) == p * m1);
                assert(marked(j, t) + c - run(j, t).milestone_completed == m1);
            },
        }
        assert(paid(j, t) == p * (marked(j, t) + c - run(j, t).milestone_completed));
    } else {
        assert(run(j, t) == j);
        assert(marked(j, t) == 0);
        assert(paid(j, t) == 0);
        let p = j.pay_per_milestone as int;
        let a = marked(j, t) + j.milestone_completed - run(j, t).milestone_completed;
        assert(a == 0);
        assert(p * a == 0) by (nonlinear_arith)
            requires a == 0,
        ;
    }
}

/// Settling with nothing marked complete moves nothing: the post-payout
/// state of a job with no completed batch is the job itself, so repeated
/// withdrawal attempts there are no-ops.
pub proof fn lemma_empty_batch_settles_to_itself(j: Job)
    requires
        j.milestone_completed == 0,
    ensures
        after_payout(j) == j,
{
}

} // verus!
