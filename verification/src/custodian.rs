use vstd::prelude::*;
use crate::bytes::{addr_bytes, address_from_bytes, address_to_bytes, bytes_eq, le8, u64_le_bytes};
use crate::errors::Errors;
use crate::state::Address;

verus! {

/// What `Pubkey::create_program_address` returns for the given seed slices
/// and program id, abstracted to the 32-byte string of the address on
/// success and `None` on rejection. The derivation is a hash over exactly
/// these inputs, so the result is a function of them alone.
pub uninterp spec fn program_address_of(seeds: Seq<Seq<u8>>, program: Seq<u8>) -> Option<Seq<u8>>;

/// The seed slices as byte strings.
pub open spec fn seeds_view(s: Seq<Vec<u8>>) -> Seq<Seq<u8>> {
    s.map_values(|v: Vec<u8>| v@)
}

/// Relies on `Pubkey::create_program_address` (solana-address): the returned
/// address, or the rejection (too many seeds, an over-long seed, or a hash
/// that lands on the ed25519 curve), is a deterministic function of the seed
/// slices and the program id alone.
#[verifier::external_body]
fn pda_create(seeds: &Vec<Vec<u8>>, program: &Vec<u8>) -> (r: Option<Vec<u8>>)
    requires
        program@.len() == 32,
    ensures
        (match r {
            Some(a) => a@.len() == 32 && program_address_of(seeds_view(seeds@), program@)
                == Some(a@),
            None => program_address_of(seeds_view(seeds@), program@) is None,
        }),
{
    let pid = anchor_lang::prelude::Pubkey::try_from(program.as_slice()).ok()?;
    let s: Vec<&[u8]> = seeds.iter().map(|v| v.as_slice()).collect();
    match anchor_lang::prelude::Pubkey::create_program_address(&s, &pid) {
        Ok(a) => Some(a.to_bytes().to_vec()),
        Err(_) => None,
    }
}

/// Relies on `Pubkey::try_find_program_address` (solana-address): it scans
/// bump values from 255 down to 1 and returns the first under which the
/// seeds derive; appending that bump as a final one-byte seed reproduces the
/// returned address under `create_program_address`, every larger bump
/// derives nothing, and when it returns nothing no bump from 1 to 255
/// derives at all.
#[verifier::external_body]
fn pda_find(seeds: &Vec<Vec<u8>>, program: &Vec<u8>) -> (r: Option<(Vec<u8>, u8)>)
    requires
        program@.len() == 32,
    ensures
        (match r {
            Some(p) => p.0@.len() == 32 && 1 <= p.1 && program_address_of(
                seeds_view(seeds@).push(seq![p.1]),
                program@,
            ) == Some(p.0@) && forall|b: u8|
                p.1 < b ==> (#[trigger] program_address_of(
                    seeds_view(seeds@).push(seq![b]),
                    program@,
                )) is None,
            None => forall|b: u8|
                1 <= b ==> (#[trigger] program_address_of(
                    seeds_view(seeds@).push(seq![b]),
                    program@,
                )) is None,
        }),
{
    let pid = anchor_lang::prelude::Pubkey::try_from(program.as_slice()).ok()?;
    let s: Vec<&[u8]> = seeds.iter().map(|v| v.as_slice()).collect();
    let (a, b) = anchor_lang::prelude::Pubkey::try_find_program_address(&s, &pid)?;
    Some((a.to_bytes().to_vec(), b))
}

/// The vault namespace tag: the ASCII bytes of "vault".
pub open spec fn vault_tag() -> Seq<u8> {
    seq![118u8, 97u8, 117u8, 108u8, 116u8]
}

/// The job-record namespace tag: the ASCII bytes of "job".
pub open spec fn job_tag() -> Seq<u8> {
    seq![106u8, 111u8, 98u8]
}

fn vault_tag_bytes() -> (r: Vec<u8>)
    ensures
        r@ == vault_tag(),
{
    let mut r: Vec<u8> = Vec::new();
    r.push(118);
    r.push(97);
    r.push(117);
    r.push(108);
    r.push(116);
    proof {
        assert(r@ =~= vault_tag());
    }
    r
}

fn job_tag_bytes() -> (r: Vec<u8>)
    ensures
        r@ == job_tag(),
{
    let mut r: Vec<u8> = Vec::new();
    r.push(106);
    r.push(111);
    r.push(98);
    proof {
        assert(r@ =~= job_tag());
    }
    r
}

/// The seed slices that a vault's address is derived from: the namespace tag,
/// the owning job's address, and the bump salt.
pub open spec fn vault_seeds(job_address: Seq<u8>, bump: u8) -> Seq<Seq<u8>> {
    seq![vault_tag(), job_address, seq![bump]]
}

/// The seed slices that a job record's address is derived from: the namespace
/// tag, the maker's address, the job seed (little-endian), and the bump salt.
pub open spec fn job_seeds(maker: Seq<u8>, seed: u64, bump: u8) -> Seq<Seq<u8>> {
    seq![job_tag(), maker, le8(seed), seq![bump]]
}

/// `vault` is the canonical vault address for the job at `job_address` under
/// `bump`, within `program`'s address space.
pub open spec fn vault_address_ok(
    program: Address,
    job_address: Address,
    bump: u8,
    vault: Address,
) -> bool {
    program_address_of(vault_seeds(addr_bytes(job_address), bump), addr_bytes(program))
        == Some(addr_bytes(vault))
}

/// `job_address` is the canonical record address for (maker, seed) under
/// `bump`, within `program`'s address space.
pub open spec fn job_address_ok(
    program: Address,
    maker: Address,
    seed: u64,
    bump: u8,
    job_address: Address,
) -> bool {
    program_address_of(job_seeds(addr_bytes(maker), seed, bump), addr_bytes(program))
        == Some(addr_bytes(job_address))
}

/// An ephemeral authorization for one transfer out of a vault, constructed
/// fresh per call of `authorize_transfer` and scoped to exactly this vault,
/// destination and amount. The job address and bump are the seed material a
/// caller presents to the transfer primitive as signing authority.
#[derive(Clone, Copy, Debug, PartialEq, Eq, Structural)]
pub struct TransferAuthorization {
    pub vault: Address,
    pub destination: Address,
    pub amount: u64,
    pub job_address: Address,
    pub vault_bump: u8,
}

fn vault_seed_prefix(job_address: &Address) -> (r: Vec<Vec<u8>>)
    ensures
        r@.len() == 2,
        r@[0]@ == vault_tag(),
        r@[1]@ == addr_bytes(*job_address),
{
    let mut r: Vec<Vec<u8>> = Vec::new();
    r.push(vault_tag_bytes());
    r.push(address_to_bytes(job_address));
    r
}

fn job_seed_prefix(maker: &Address, seed: u64) -> (r: Vec<Vec<u8>>)
    ensures
        r@.len() == 3,
        r@[0]@ == job_tag(),
        r@[1]@ == addr_bytes(*maker),
        r@[2]@ == le8(seed),
{
    let mut r: Vec<Vec<u8>> = Vec::new();
    r.push(job_tag_bytes());
    r.push(address_to_bytes(maker));
    r.push(u64_le_bytes(seed));
    r
}

/// Derive the canonical vault address and bump for the job at `job_address`.
/// Reproducible from the inputs alone: the returned pair passes
/// `authorize_transfer`'s derivation check, the bump is the largest salt
/// under which anything derives (nothing derives under any larger one), and
/// when nothing comes back no bump derives a vault for this job at all.
pub fn derive(program: &Address, job_address: &Address) -> (r: Option<(Address, u8)>)
    ensures
        (r matches Some(p) ==> vault_address_ok(*program, *job_address, p.1, p.0) && 1 <= p.1
            && forall|b: u8|
            p.1 < b ==> (#[trigger] program_address_of(
                vault_seeds(addr_bytes(*job_address), b),
                addr_bytes(*program),
            )) is None),
        r is None ==> forall|b: u8|
            1 <= b ==> (#[trigger] program_address_of(
                vault_seeds(addr_bytes(*job_address), b),
                addr_bytes(*program),
            )) is None,
{
    let pb = address_to_bytes(program);
    let seeds = vault_seed_prefix(job_address);
    match pda_find(&seeds, &pb) {
        Some((ab, bump)) => {
            proof {
                assert(seeds_view(seeds@).push(seq![bump]) =~= vault_seeds(
                    addr_bytes(*job_address),
                    bump,
                ));
                assert forall|b: u8|
                    bump < b implies (#[trigger] program_address_of(
                    vault_seeds(addr_bytes(*job_address), b),
                    addr_bytes(*program),
                )) is None by {
                    assert(seeds_view(seeds@).push(seq![b]) =~= vault_seeds(
                        addr_bytes(*job_address),
                        b,
                    ));
                    assert(program_address_of(seeds_view(seeds@).push(seq![b]), pb@) is None);
                }
            }
            match address_from_bytes(&ab) {
                Some(a) => Some((a, bump)),
                None => None,
            }
        },
        None => {
            proof {
                assert forall|b: u8|
                    1 <= b implies (#[trigger] program_address_of(
                    vault_seeds(addr_bytes(*job_address), b),
                    addr_bytes(*program),
                )) is None by {
                    assert(seeds_view(seeds@).push(seq![b]) =~= vault_seeds(
                        addr_bytes(*job_address),
                        b,
                    ));
                    assert(program_address_of(seeds_view(seeds@).push(seq![b]), pb@) is None);
                }
            }
            None
        },
    }
}

/// Derive the canonical record address and bump for the job of (maker,
/// seed), with the same guarantees as `derive`: the pair passes
/// `verify_job_address`, nothing derives under a larger bump, and when
/// nothing comes back no bump derives a record address for this key.
pub fn derive_job_address(program: &Address, maker: &Address, seed: u64) -> (r: Option<
    (Address, u8),
>)
    ensures
        (r matches Some(p) ==> job_address_ok(*program, *maker, seed, p.1, p.0) && 1 <= p.1
            && forall|b: u8|
            p.1 < b ==> (#[trigger] program_address_of(
                job_seeds(addr_bytes(*maker), seed, b),
                addr_bytes(*program),
            )) is None),
        r is None ==> forall|b: u8|
            1 <= b ==> (#[trigger] program_address_of(
                job_seeds(addr_bytes(*maker), seed, b),
                addr_bytes(*program),
            )) is None,
{
    let pb = address_to_bytes(program);
    let seeds = job_seed_prefix(maker, seed);
    match pda_find(&seeds, &pb) {
        Some((ab, bump)) => {
            proof {
                assert(seeds_view(seeds@).push(seq![bump]) =~= job_seeds(
                    addr_bytes(*maker),
                    seed,
                    bump,
                ));
                assert forall|b: u8|
                    bump < b implies (#[trigger] program_address_of(
                    job_seeds(addr_bytes(*maker), seed, b),
                    addr_bytes(*program),
                )) is None by {
                    assert(seeds_view(seeds@).push(seq![b]) =~= job_seeds(
                        addr_bytes(*maker),
                        seed,
                        b,
                    ));
                    assert(program_address_of(seeds_view(seeds@).push(seq![b]), pb@) is None);
                }
            }
            match address_from_bytes(&ab) {
                Some(a) => Some((a, bump)),
                None => None,
            }
        },
        None => {
            proof {
                assert forall|b: u8|
                    1 <= b implies (#[trigger] program_address_of(
                    job_seeds(addr_bytes(*maker), seed, b),
                    addr_bytes(*program),
                )) is None by {
                    assert(seeds_view(seeds@).push(seq![b]) =~= job_seeds(
                        addr_bytes(*maker),
                        seed,
                        b,
                    ));
                    assert(program_address_of(seeds_view(seeds@).push(seq![b]), pb@) is None);
                }
            }
            None
        },
    }
}

/// Check that `job_address` re-derives from (maker, seed) under `bump`: the
/// record-side derivation proof, used when a job account is presented at the
/// boundary.
pub fn verify_job_address(
    program: &Address,
    maker: &Address,
    seed: u64,
    bump: u8,
    job_address: &Address,
) -> (r: bool)
    ensures
        r == job_address_ok(*program, *maker, seed, bump, *job_address),
{
    let pb = address_to_bytes(program);
    let mut seeds = job_seed_prefix(maker, seed);
    let mut bv: Vec<u8> = Vec::new();
    bv.push(bump);
    proof {
        assert(bv@ =~= seq![bump]);
    }
    seeds.push(bv);
    proof {
        assert(seeds_view(seeds@) =~= job_seeds(addr_bytes(*maker), seed, bump));
    }
    let jb = address_to_bytes(job_address);
    match pda_create(&seeds, &pb) {
        Some(a) => bytes_eq(&a, &jb),
        None => false,
    }
}

/// Check that `vault` re-derives as the vault address of the job at
/// `job_address` under `bump`: the derivation proof checked on every
/// withdrawal.
pub fn verify_vault_address(
    program: &Address,
    job_address: &Address,
    bump: u8,
    vault: &Address,
) -> (r: bool)
    ensures
        r == vault_address_ok(*program, *job_address, bump, *vault),
{
    let pb = address_to_bytes(program);
    let mut seeds = vault_seed_prefix(job_address);
    let mut bv: Vec<u8> = Vec::new();
    bv.push(bump);
    proof {
        assert(bv@ =~= seq![bump]);
    }
    seeds.push(bv);
    proof {
        assert(seeds_view(seeds@) =~= vault_seeds(addr_bytes(*job_address), bump));
    }
    let vb = address_to_bytes(vault);
    match pda_create(&seeds, &pb) {
        Some(a) => bytes_eq(&a, &vb),
        None => false,
    }
}

/// Verify that `stored_bump` reproduces `vault` as the vault address for the
/// job at `job_address`, and on success produce an authorization scoped to
/// exactly this transfer. A mismatch, or a bump under which no address
/// derives, is `InvalidVaultDerivation`: tampering never partially
/// authorizes.
pub fn authorize_transfer(
    program: &Address,
    job_address: &Address,
    stored_bump: u8,
    amount: u64,
    destination: &Address,
    vault: &Address,
) -> (r: Result<TransferAuthorization, Errors>)
    ensures
        r is Ok <==> vault_address_ok(*program, *job_address, stored_bump, *vault),
        (r matches Ok(t) ==> t == (TransferAuthorization {
            vault: *vault,
            destination: *destination,
            amount,
            job_address: *job_address,
            vault_bump: stored_bump,
        })),
        r is Err ==> r == Err::<TransferAuthorization, Errors>(Errors::InvalidVaultDerivation),
{
    let pb = address_to_bytes(program);
    let mut seeds = vault_seed_prefix(job_address);
    let mut bv: Vec<u8> = Vec::new();
    bv.push(stored_bump);
    proof {
        assert(bv@ =~= seq![stored_bump]);
    }
    seeds.push(bv);
    proof {
        assert(seeds_view(seeds@) =~= vault_seeds(addr_bytes(*job_address), stored_bump));
    }
    let vb = address_to_bytes(vault);
    match pda_create(&seeds, &pb) {
        Some(a) => {
            if bytes_eq(&a, &vb) {
                Ok(
                    TransferAuthorization {
                        vault: *vault,
                        destination: *destination,
                        amount,
                        job_address: *job_address,
                        vault_bump: stored_bump,
                    },
                )
            } else {
                Err(Errors::InvalidVaultDerivation)
            }
        },
        None => Err(Errors::InvalidVaultDerivation),
    }
}

} // verus!
