use vstd::prelude::*;
use crate::custodian::{
    job_address_ok, vault_address_ok, verify_job_address, verify_vault_address,
    TransferAuthorization,
};
use crate::errors::{Errors, TransferError};
use crate::registry::{job_has_key, JobRegistry};
use crate::state::{after_payout, job_wf, Address, Job};

verus! {

/// One withdrawal attempt: the identities presented at the boundary together
/// with the job record and vault address they claim. `developer` is the
/// caller's identity, already signature-verified by the host; `maker` is the
/// maker the caller asserts; `program` is the address space the job and vault
/// derive in.
#[derive(Clone, Copy, Debug, PartialEq, Eq, Structural)]
pub struct Withdraw {
    pub program: Address,
    pub developer: Address,
    pub maker: Address,
    pub job_address: Address,
    pub job_state: Job,
    pub vault: Address,
}

/// The structural custody proofs of one attempt, checked on every access:
/// the presented job record address re-derives from the record's own
/// (maker, seed) under the stored state bump, and the presented vault
/// re-derives from that record address under the stored vault bump. Only
/// then is the vault the one canonically bound to this job.
pub open spec fn derivation_ok(w: Withdraw) -> bool {
    let j = w.job_state;
    &&& job_address_ok(w.program, j.maker, j.seed, j.state_bump, w.job_address)
    &&& vault_address_ok(w.program, w.job_address, j.vault_bump, w.vault)
}

/// What a withdrawal attempt decides, checked in order: nothing owed, then
/// the developer bound to the job, then the asserted maker, then the record
/// and vault derivation proofs, then the payout arithmetic. On success, the
/// authorization is scoped to exactly the owed amount, from the job's vault
/// to its developer.
pub open spec fn withdraw_decision(w: Withdraw) -> Result<TransferAuthorization, Errors> {
    let j = w.job_state;
    if j.milestone_completed == 0 {
        Err(Errors::TaskIncomplete)
    } else if j.developer != w.developer {
        Err(Errors::InvalidAccount)
    } else if j.maker != w.maker {
        Err(Errors::NotCreator)
    } else if !derivation_ok(w) {
        Err(Errors::InvalidVaultDerivation)
    } else if j.pay_per_milestone * j.milestone_completed > u64::MAX {
        Err(Errors::ArithmeticOverflow)
    } else {
        Ok(
            TransferAuthorization {
                vault: w.vault,
                destination: w.developer,
                amount: (j.pay_per_milestone * j.milestone_completed) as u64,
                job_address: w.job_address,
                vault_bump: j.vault_bump,
            },
        )
    }
}

impl Withdraw {
    /// Validate the attempt and, when every precondition holds, authorize
    /// the transfer of everything owed. Decides only; mutates nothing. The
    /// caller performs the authorized transfer and reports its outcome to
    /// `settle`.
    pub fn withdraw(&self) -> (r: Result<TransferAuthorization, Errors>)
        ensures
            r == withdraw_decision(*self),
    {
        let j = &self.job_state;
        if j.milestone_completed == 0 {
            return Err(Errors::TaskIncomplete);
        }
        if j.developer != self.developer {
            return Err(Errors::InvalidAccount);
        }
        if j.maker != self.maker {
            return Err(Errors::NotCreator);
        }
        if !verify_job_address(&self.program, &j.maker, j.seed, j.state_bump, &self.job_address) {
            return Err(Errors::InvalidVaultDerivation);
        }
        if !verify_vault_address(&self.program, &self.job_address, j.vault_bump, &self.vault) {
            return Err(Errors::InvalidVaultDerivation);
        }
        match j.pay_per_milestone.checked_mul(j.milestone_completed) {
            None => Err(Errors::ArithmeticOverflow),
            Some(pay) => Ok(
                TransferAuthorization {
                    vault: self.vault,
                    destination: self.developer,
                    amount: pay,
                    job_address: self.job_address,
                    vault_bump: j.vault_bump,
                },
            ),
        }
    }

    /// Record the outcome the transfer primitive reported for an authorized
    /// withdrawal. On success the paid batch is settled atomically:
    /// `milestones` drops by `milestone_completed`, which resets to zero. On
    /// failure nothing changes and the transfer error propagates unchanged,
    /// so a failed attempt can simply be retried.
    pub fn settle(&mut self, outcome: Result<(), TransferError>) -> (r: Result<(), Errors>)
        requires
            job_wf(old(self).job_state),
        ensures
            job_wf(final(self).job_state),
            (outcome matches Err(e) ==> *final(self) == *old(self) && r == Err::<(), Errors>(
                Errors::Transfer(e),
            )),
            outcome is Ok ==> r is Ok && *final(self) == (Withdraw {
                job_state: after_payout(old(self).job_state),
                ..*old(self)
            }),
    {
        match outcome {
            Err(e) => Err(Errors::Transfer(e)),
            Ok(()) => {
                self.job_state.milestones = self.job_state.milestones
                    - self.job_state.milestone_completed;
                self.job_state.milestone_completed = 0;
                Ok(())
            },
        }
    }
}

/// Derivation integrity: when a withdrawal is otherwise payable but either
/// structural proof fails — the job record address does not re-derive from
/// its stored state bump, or the supplied vault does not re-derive from the
/// record address under the stored vault bump — the attempt is rejected as
/// `InvalidVaultDerivation`: it never reaches the payout computation and
/// nothing is authorized.
pub proof fn lemma_derivation_integrity(w: Withdraw)
    requires
        w.job_state.milestone_completed > 0,
        w.job_state.developer == w.developer,
        w.job_state.maker == w.maker,
        !derivation_ok(w),
    ensures
        withdraw_decision(w) == Err::<TransferAuthorization, Errors>(
            Errors::InvalidVaultDerivation,
        ),
{
}

/// Authorization exclusivity: an attempt whose caller is not the bound
/// developer, or whose asserted maker is not the job's maker, is always
/// rejected, whatever the numeric state of the job. Past the
/// nothing-completed check the rejection carries the identity's own name:
/// `InvalidAccount` for a foreign developer, `NotCreator` for a wrong
/// asserted maker.
pub proof fn lemma_authorization_exclusivity(w: Withdraw)
    requires
        w.job_state.developer != w.developer || w.job_state.maker != w.maker,
    ensures
        withdraw_decision(w) is Err,
        w.job_state.milestone_completed > 0 && w.job_state.developer != w.developer
            ==> withdraw_decision(w) == Err::<TransferAuthorization, Errors>(
            Errors::InvalidAccount,
        ),
        w.job_state.milestone_completed > 0 && w.job_state.developer == w.developer
            && w.job_state.maker != w.maker ==> withdraw_decision(w) == Err::<
            TransferAuthorization,
            Errors,
        >(Errors::NotCreator),
{
}

/// An authorized payout never exceeds what the completed milestones are
/// worth, and is owed if and only if every precondition holds: success is
/// decided exactly by the job state and the presented identities.
pub proof fn lemma_payout_exact(w: Withdraw)
    ensures
        withdraw_decision(w) is Ok <==> {
            &&& w.job_state.milestone_completed > 0
            &&& w.job_state.developer == w.developer
            &&& w.job_state.maker == w.maker
            &&& derivation_ok(w)
            &&& w.job_state.pay_per_milestone * w.job_state.milestone_completed <= u64::MAX
        },
        (withdraw_decision(w) matches Ok(t) ==> t.amount == w.job_state.pay_per_milestone
            * w.job_state.milestone_completed),
{
}

/// The full withdrawal data flow against the canonical store: look the job
/// up by (maker, seed) and decide. `JobNotFound` if there is no record;
/// otherwise exactly the decision for the stored job. Mutates nothing.
pub fn begin_withdraw(
    reg: &JobRegistry,
    program: &Address,
    maker: &Address,
    seed: u64,
    developer: &Address,
    job_address: &Address,
    vault: &Address,
) -> (r: Result<TransferAuthorization, Errors>)
    ensures
        r == (match reg.lookup(*maker, seed) {
            None => Err::<TransferAuthorization, Errors>(Errors::JobNotFound),
            Some(j) => withdraw_decision(
                Withdraw {
                    program: *program,
                    developer: *developer,
                    maker: *maker,
                    job_address: *job_address,
                    job_state: j,
                    vault: *vault,
                },
            ),
        }),
{
    match reg.get(maker, seed) {
        Err(e) => Err(e),
        Ok(j) => {
            let w = Withdraw {
                program: *program,
                developer: *developer,
                maker: *maker,
                job_address: *job_address,
                job_state: j,
                vault: *vault,
            };
            w.withdraw()
        },
    }
}

/// Settle a withdrawal against the canonical store once the transfer
/// primitive has reported. On a reported success the stored job, and only
/// it, is replaced by its post-payout state; on a reported failure the store
/// is untouched and the transfer error propagates.
pub fn settle_withdraw(
    reg: &mut JobRegistry,
    maker: &Address,
    seed: u64,
    outcome: Result<(), TransferError>,
) -> (r: Result<(), Errors>)
    requires
        old(reg).wf(),
    ensures
        final(reg).wf(),
        old(reg).lookup(*maker, seed) is None ==> r == Err::<(), Errors>(Errors::JobNotFound)
            && *final(reg) == *old(reg),
        (outcome matches Err(e) ==> r == (if old(reg).lookup(*maker, seed) is None {
            Err::<(), Errors>(Errors::JobNotFound)
        } else {
            Err::<(), Errors>(Errors::Transfer(e))
        }) && *final(reg) == *old(reg)),
        (old(reg).lookup(*maker, seed) matches Some(j) ==> (outcome is Ok ==> r is Ok
            && final(reg).lookup(*maker, seed) == Some(after_payout(j))
            && (forall|m: Address, sd: u64|
            !(m == *maker && sd == seed) ==> final(reg).lookup(m, sd) == old(reg).lookup(m, sd)))),
{
    match reg.get(maker, seed) {
        Err(e) => Err(e),
        Ok(j) => match outcome {
            Err(e) => Err(Errors::Transfer(e)),
            Ok(()) => {
                proof {
                    reg.lemma_lookup_props(*maker, seed);
                }
                let updated = Job {
                    milestones: j.milestones - j.milestone_completed,
                    milestone_completed: 0,
                    ..j
                };
                proof {
                    assert(updated == after_payout(j));
                    assert(updated.maker == *maker && updated.seed == seed);
                }
                match reg.save(updated) {
                    Ok(()) => {
                        proof {
                            assert(reg.lookup(*maker, seed) == Some(updated));
                            assert forall|m: Address, sd: u64|
                                !(m == *maker && sd == seed) implies reg.lookup(m, sd) == old(
                                reg,
                            ).lookup(m, sd) by {
                                assert(!job_has_key(updated, m, sd));
                            }
                        }
                        Ok(())
                    },
                    Err(e) => Err(e),
                }
            },
        },
    }
}

} // verus!
