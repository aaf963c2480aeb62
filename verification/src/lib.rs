//! Milestone-based escrow payout engine.
//!
//! A maker funds a job; a developer is paid `pay_per_milestone` for each
//! milestone marked complete. Funds sit in a vault whose address is derived
//! structurally from the job's address, a namespace tag and a bump salt; no
//! private key controls it. This crate holds the verified core: job state and
//! its invariant, deterministic address derivation and transfer authorization,
//! the keyed job store, and the withdrawal decision and settlement logic.
//! The value-transfer primitive itself is an external collaborator; callers
//! perform it and hand its outcome back to `settle`.

pub mod audit;
pub mod bytes;
pub mod custodian;
pub mod errors;
pub mod registry;
pub mod state;
pub mod withdraw;
