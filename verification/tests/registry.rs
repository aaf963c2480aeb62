use solgig::errors::{Errors, TransferError};
use solgig::registry::JobRegistry;
use solgig::state::{Address, Job};
use solgig::withdraw::{begin_withdraw, settle_withdraw};

fn addr(w0: u64, w1: u64, w2: u64, w3: u64) -> Address {
    Address { w0, w1, w2, w3 }
}

fn job(maker: Address, developer: Address, seed: u64, state_bump: u8, vault_bump: u8) -> Job {
    Job {
        maker,
        developer,
        seed,
        pay_per_milestone: 100,
        milestones: 5,
        milestone_completed: 2,
        state_bump,
        vault_bump,
    }
}

#[test]
fn get_finds_what_insert_stored() {
    let mut reg = JobRegistry::new();
    let maker = addr(1, 0, 0, 0);
    let developer = addr(2, 0, 0, 0);
    let j = job(maker, developer, 7, 0, 0);
    assert!(reg.insert(j));
    assert!(!reg.insert(j));
    assert_eq!(reg.get(&maker, 7), Ok(j));
    assert_eq!(reg.get(&maker, 8), Err(Errors::JobNotFound));
    assert_eq!(reg.get(&developer, 7), Err(Errors::JobNotFound));
}

#[test]
fn save_replaces_only_its_own_record() {
    let mut reg = JobRegistry::new();
    let maker = addr(1, 0, 0, 0);
    let developer = addr(2, 0, 0, 0);
    let a = job(maker, developer, 1, 0, 0);
    let b = job(maker, developer, 2, 0, 0);
    assert!(reg.insert(a));
    assert!(reg.insert(b));

    let mut a2 = a;
    a2.milestone_completed = 0;
    a2.milestones = 3;
    assert_eq!(reg.save(a2), Ok(()));
    assert_eq!(reg.get(&maker, 1), Ok(a2));
    assert_eq!(reg.get(&maker, 2), Ok(b));

    let absent = job(maker, developer, 9, 0, 0);
    assert_eq!(reg.save(absent), Err(Errors::JobNotFound));
}

#[test]
fn full_withdrawal_flow_against_the_store() {
    let program = addr(1, 1, 1, 1);
    let maker = addr(2, 2, 2, 2);
    let developer = addr(3, 3, 3, 3);
    let (job_address, state_bump) =
        solgig::custodian::derive_job_address(&program, &maker, 42).unwrap();
    let (vault, vault_bump) = solgig::custodian::derive(&program, &job_address).unwrap();

    let mut reg = JobRegistry::new();
    assert!(reg.insert(job(maker, developer, 42, state_bump, vault_bump)));

    let auth =
        begin_withdraw(&reg, &program, &maker, 42, &developer, &job_address, &vault).unwrap();
    assert_eq!(auth.amount, 200);

    assert_eq!(settle_withdraw(&mut reg, &maker, 42, Ok(())), Ok(()));
    let settled = reg.get(&maker, 42).unwrap();
    assert_eq!(settled.milestones, 3);
    assert_eq!(settled.milestone_completed, 0);

    let again = begin_withdraw(&reg, &program, &maker, 42, &developer, &job_address, &vault);
    assert_eq!(again, Err(Errors::TaskIncomplete));
}

#[test]
fn failed_transfer_leaves_the_store_untouched() {
    let program = addr(1, 1, 1, 1);
    let maker = addr(2, 2, 2, 2);
    let developer = addr(3, 3, 3, 3);
    let (job_address, state_bump) =
        solgig::custodian::derive_job_address(&program, &maker, 42).unwrap();
    let (vault, vault_bump) = solgig::custodian::derive(&program, &job_address).unwrap();

    let mut reg = JobRegistry::new();
    let j = job(maker, developer, 42, state_bump, vault_bump);
    assert!(reg.insert(j));
    begin_withdraw(&reg, &program, &maker, 42, &developer, &job_address, &vault).unwrap();

    let r = settle_withdraw(&mut reg, &maker, 42, Err(TransferError::InsufficientFunds));
    assert_eq!(r, Err(Errors::Transfer(TransferError::InsufficientFunds)));
    assert_eq!(reg.get(&maker, 42), Ok(j));
}

#[test]
fn settling_an_unknown_job_is_not_found() {
    let mut reg = JobRegistry::new();
    let maker = addr(2, 2, 2, 2);
    assert_eq!(settle_withdraw(&mut reg, &maker, 42, Ok(())), Err(Errors::JobNotFound));
    assert_eq!(
        begin_withdraw(&reg, &addr(1, 1, 1, 1), &maker, 42, &maker, &maker, &maker),
        Err(Errors::JobNotFound)
    );
}
