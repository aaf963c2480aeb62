use solgig::bytes::{address_from_bytes, address_to_bytes};
use solgig::custodian::{
    authorize_transfer, derive_job_address, verify_job_address, verify_vault_address,
};
use solgig::errors::Errors;
use solgig::state::Address;

fn addr(w0: u64, w1: u64, w2: u64, w3: u64) -> Address {
    Address { w0, w1, w2, w3 }
}

fn to_pubkey(a: &Address) -> anchor_lang::prelude::Pubkey {
    let b: [u8; 32] = address_to_bytes(a).try_into().unwrap();
    anchor_lang::prelude::Pubkey::new_from_array(b)
}

#[test]
fn address_bytes_round_trip() {
    let a = addr(1, 2, u64::MAX, 0xdead_beef);
    let b = address_to_bytes(&a);
    assert_eq!(b.len(), 32);
    let a2 = address_from_bytes(&b).unwrap();
    assert_eq!(a, a2);
}

#[test]
fn address_bytes_little_endian() {
    let a = addr(0x0102030405060708, 0, 0, 0);
    let b = address_to_bytes(&a);
    assert_eq!(&b[0..8], &[8, 7, 6, 5, 4, 3, 2, 1]);
    assert_eq!(&b[8..32], &[0u8; 24]);
}

#[test]
fn address_from_bytes_wrong_length() {
    let b = vec![0u8; 31];
    assert!(address_from_bytes(&b).is_none());
}

#[test]
fn derive_matches_reference_derivation() {
    let program = addr(11, 22, 33, 44);
    let job_address = addr(5, 6, 7, 8);
    let (vault, bump) = solgig::custodian::derive(&program, &job_address).unwrap();

    let pid = to_pubkey(&program);
    let jk = to_pubkey(&job_address);
    let (expected, expected_bump) =
        anchor_lang::prelude::Pubkey::find_program_address(&[b"vault", jk.as_ref()], &pid);
    assert_eq!(bump, expected_bump);
    assert_eq!(address_to_bytes(&vault), expected.to_bytes().to_vec());
}

#[test]
fn derive_job_address_matches_reference_derivation() {
    let program = addr(11, 22, 33, 44);
    let maker = addr(9, 9, 9, 9);
    let seed: u64 = 0x1122334455667788;
    let (job_address, bump) = derive_job_address(&program, &maker, seed).unwrap();

    let pid = to_pubkey(&program);
    let mk = to_pubkey(&maker);
    let (expected, expected_bump) = anchor_lang::prelude::Pubkey::find_program_address(
        &[b"job", mk.as_ref(), &seed.to_le_bytes()],
        &pid,
    );
    assert_eq!(bump, expected_bump);
    assert_eq!(address_to_bytes(&job_address), expected.to_bytes().to_vec());
    assert!(verify_job_address(&program, &maker, seed, bump, &job_address));
    assert!(!verify_job_address(&program, &maker, seed.wrapping_add(1), bump, &job_address));
}

#[test]
fn authorize_accepts_the_derived_vault() {
    let program = addr(1, 2, 3, 4);
    let job_address = addr(4, 3, 2, 1);
    let developer = addr(7, 7, 7, 7);
    let (vault, bump) = solgig::custodian::derive(&program, &job_address).unwrap();
    assert!(verify_vault_address(&program, &job_address, bump, &vault));

    let auth = authorize_transfer(&program, &job_address, bump, 250, &developer, &vault).unwrap();
    assert_eq!(auth.vault, vault);
    assert_eq!(auth.destination, developer);
    assert_eq!(auth.amount, 250);
    assert_eq!(auth.job_address, job_address);
    assert_eq!(auth.vault_bump, bump);
}

#[test]
fn authorize_rejects_any_other_vault() {
    let program = addr(1, 2, 3, 4);
    let job_address = addr(4, 3, 2, 1);
    let developer = addr(7, 7, 7, 7);
    let (vault, bump) = solgig::custodian::derive(&program, &job_address).unwrap();

    let wrong = addr(vault.w0 ^ 1, vault.w1, vault.w2, vault.w3);
    assert_eq!(
        authorize_transfer(&program, &job_address, bump, 250, &developer, &wrong),
        Err(Errors::InvalidVaultDerivation)
    );
    assert!(!verify_vault_address(&program, &job_address, bump, &job_address));
}
