use solgig::errors::{Errors, TransferError};
use solgig::state::{Address, Job};
use solgig::withdraw::Withdraw;

fn addr(w0: u64, w1: u64, w2: u64, w3: u64) -> Address {
    Address { w0, w1, w2, w3 }
}

/// A withdrawal attempt whose job record and vault really derive from
/// (maker, seed), so that only the field under test decides the outcome.
fn payable_attempt(pay_per_milestone: u64, milestones: u64, milestone_completed: u64) -> Withdraw {
    let program = addr(1, 1, 1, 1);
    let maker = addr(2, 2, 2, 2);
    let developer = addr(3, 3, 3, 3);
    let (job_address, state_bump) =
        solgig::custodian::derive_job_address(&program, &maker, 42).unwrap();
    let (vault, vault_bump) = solgig::custodian::derive(&program, &job_address).unwrap();
    let job_state = Job {
        maker,
        developer,
        seed: 42,
        pay_per_milestone,
        milestones,
        milestone_completed,
        state_bump,
        vault_bump,
    };
    Withdraw { program, developer, maker, job_address, job_state, vault }
}

#[test]
fn successful_withdrawal_pays_and_settles() {
    let mut w = payable_attempt(100, 5, 2);
    let auth = w.withdraw().unwrap();
    assert_eq!(auth.amount, 200);
    assert_eq!(auth.vault, w.vault);
    assert_eq!(auth.destination, w.developer);

    assert_eq!(w.settle(Ok(())), Ok(()));
    assert_eq!(w.job_state.milestones, 3);
    assert_eq!(w.job_state.milestone_completed, 0);
}

#[test]
fn reinvoking_with_nothing_completed_is_rejected() {
    let mut w = payable_attempt(100, 5, 2);
    w.withdraw().unwrap();
    w.settle(Ok(())).unwrap();

    let again = w.withdraw();
    assert_eq!(again, Err(Errors::TaskIncomplete));
    assert_eq!(w.job_state.milestones, 3);
    assert_eq!(w.job_state.milestone_completed, 0);
}

#[test]
fn wrong_maker_is_rejected_before_any_transfer() {
    let mut w = payable_attempt(100, 5, 2);
    w.maker = addr(9, 9, 9, 9);
    assert_eq!(w.withdraw(), Err(Errors::NotCreator));
    assert_eq!(w.job_state.milestones, 5);
    assert_eq!(w.job_state.milestone_completed, 2);
}

#[test]
fn wrong_developer_is_rejected() {
    let mut w = payable_attempt(100, 5, 2);
    w.developer = addr(9, 9, 9, 9);
    assert_eq!(w.withdraw(), Err(Errors::InvalidAccount));
}

#[test]
fn wrong_vault_is_rejected() {
    let mut w = payable_attempt(100, 5, 2);
    w.vault = addr(9, 9, 9, 9);
    assert_eq!(w.withdraw(), Err(Errors::InvalidVaultDerivation));
}

#[test]
fn failed_transfer_leaves_the_job_untouched() {
    // The vault holds less than the 200 owed: the transfer primitive reports
    // InsufficientFunds and the attempt settles to exactly the prior state.
    let mut w = payable_attempt(100, 5, 2);
    let before = w.job_state;
    w.withdraw().unwrap();
    let r = w.settle(Err(TransferError::InsufficientFunds));
    assert_eq!(r, Err(Errors::Transfer(TransferError::InsufficientFunds)));
    assert_eq!(w.job_state, before);

    let r = w.settle(Err(TransferError::DestinationInvalid));
    assert_eq!(r, Err(Errors::Transfer(TransferError::DestinationInvalid)));
    assert_eq!(w.job_state, before);
}

#[test]
fn foreign_job_record_is_rejected() {
    // A record address (and its vault) belonging to another job never passes
    // the structural derivation proofs, so no payout can be drawn out of a
    // foreign vault, whatever the stored bumps happen to be.
    let mut w = payable_attempt(100, 5, 2);
    let other_maker = addr(8, 8, 8, 8);
    let (other_job, _) =
        solgig::custodian::derive_job_address(&w.program, &other_maker, 9).unwrap();
    let (other_vault, _) = solgig::custodian::derive(&w.program, &other_job).unwrap();
    w.job_address = other_job;
    w.vault = other_vault;
    assert_eq!(w.withdraw(), Err(Errors::InvalidVaultDerivation));
}

#[test]
fn overflowing_payout_is_rejected_before_any_transfer() {
    let w = payable_attempt(u64::MAX, 5, 2);
    assert_eq!(w.withdraw(), Err(Errors::ArithmeticOverflow));
}

#[test]
fn maximal_payout_without_overflow_is_authorized() {
    let w = payable_attempt(u64::MAX, 1, 1);
    assert_eq!(w.withdraw().unwrap().amount, u64::MAX);
}

#[test]
fn repeated_batches_pay_each_milestone_exactly_once() {
    // Mark and withdraw in batches; the total transferred must be the price
    // of every milestone ever marked complete, and the invariant
    // `milestone_completed <= milestones` must hold throughout.
    let mut w = payable_attempt(100, 5, 0);
    let mut total: u64 = 0;
    let mut total_marked: u64 = 0;

    for batch in [2u64, 1, 2] {
        assert!(w.job_state.milestone_completed + batch <= w.job_state.milestones);
        w.job_state.milestone_completed += batch;
        total_marked += batch;

        let auth = w.withdraw().unwrap();
        total += auth.amount;
        w.settle(Ok(())).unwrap();
        assert!(w.job_state.milestone_completed <= w.job_state.milestones);
        assert_eq!(w.job_state.milestone_completed, 0);
    }

    assert_eq!(total, 100 * total_marked);
    assert_eq!(w.job_state.milestones, 0);
    assert_eq!(w.withdraw(), Err(Errors::TaskIncomplete));
}
