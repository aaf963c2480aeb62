use vstd::prelude::*;

verus! {

/// Rejections coming back from the external transfer primitive.
#[derive(Clone, Copy, Debug, PartialEq, Eq, Structural)]
pub enum TransferError {
    /// The vault does not hold enough to cover the requested amount.
    InsufficientFunds,
    /// The destination account cannot receive the transfer.
    DestinationInvalid,
}

/// Every way a withdrawal attempt can be rejected. Each rejection aborts the
/// attempt with no mutation; the caller may correct the request and retry.
#[derive(Clone, Copy, Debug, PartialEq, Eq, Structural)]
pub enum Errors {
    /// No milestone is marked complete, so nothing is owed.
    TaskIncomplete,
    /// The caller's developer identity is not the one bound to the job.
    InvalidAccount,
    /// The asserted maker is not the maker bound to the job.
    NotCreator,
    /// The supplied vault address does not re-derive from the stored bump.
    InvalidVaultDerivation,
    /// The payout computation would overflow.
    ArithmeticOverflow,
    /// No job record exists for the given maker and seed.
    JobNotFound,
    /// The external transfer primitive rejected the transfer; its error is
    /// propagated unchanged as the terminal cause of the aborted attempt.
    Transfer(TransferError),
}

} // verus!
