use vstd::prelude::*;

verus! {

/// A 32-byte account address, held as four 64-bit words in little-endian
/// order. `crate::bytes::addr_bytes` gives the byte string that the address
/// derivation hashes over.
#[derive(Clone, Copy, Debug, PartialEq, Eq, Structural)]
pub struct Address {
    pub w0: u64,
    pub w1: u64,
    pub w2: u64,
    pub w3: u64,
}

/// One escrowed job. `maker`, `developer`, `seed` and `pay_per_milestone` are
/// fixed at creation; `milestones` counts the milestones still outstanding and
/// `milestone_completed` those marked complete but not yet paid out. The two
/// bumps are the derivation salts proving the job record and its vault are the
/// canonical ones for (maker, seed).
#[derive(Clone, Copy, Debug, PartialEq, Eq, Structural)]
pub struct Job {
    pub maker: Address,
    pub developer: Address,
    pub seed: u64,
    pub pay_per_milestone: u64,
    pub milestones: u64,
    pub milestone_completed: u64,
    pub state_bump: u8,
    pub vault_bump: u8,
}

/// The job invariant: never more milestones marked complete than are
/// outstanding.
pub open spec fn job_wf(j: Job) -> bool {
    j.milestone_completed <= j.milestones
}

/// The accounting state of a job after a confirmed payout: the paid batch
/// leaves `milestones`, and the completed count resets so the same batch can
/// never be paid again.
pub open spec fn after_payout(j: Job) -> Job {
    Job {
        milestones: (j.milestones - j.milestone_completed) as u64,
        milestone_completed: 0,
        ..j
    }
}

} // verus!
