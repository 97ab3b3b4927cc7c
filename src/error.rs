use vstd::prelude::*;

verus! {

/// Why a ledger operation was refused.
#[derive(Clone, Copy, Debug, PartialEq, Eq, Structural)]
pub enum LedgerError {
    /// The secret is empty, or too short to register.
    InvalidCredential,
    /// A transfer amount that is zero or negative.
    InvalidAmount,
    /// No account is guarded by the given secret.
    AccountNotFound,
    /// No account is guarded by the secret that should pay a transfer.
    SourceNotFound,
    /// The transfer's destination id names no account.
    DestinationNotFound,
    /// The paying account holds less than the amount.
    InsufficientBalance,
    /// The id offered for a new account is already taken.
    DuplicateId,
    /// Crediting the destination would exceed the largest balance a `u64` holds.
    BalanceOverflow,
    /// The secret could not be hashed.
    HashFailure,
    /// The ledger could not be encoded for storage.
    PersistenceFailure,
}

} // verus!
