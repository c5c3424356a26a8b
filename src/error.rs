use vstd::prelude::*;

verus! {

/// Failure tags surfaced to callers of the wrapper. Every failure leaves the
/// ledgers exactly as they were.
#[derive(Debug, Clone, Copy, PartialEq, Eq, Structural)]
pub enum ErrorCode {
    /// The amount is zero.
    InvalidAmount,
    /// A counter would exceed `u64::MAX`.
    Overflow,
    /// The caller holds less native asset than requested.
    InsufficientFunds,
    /// The custody reserve holds less than requested.
    InsufficientReserve,
    /// The holder has fewer substitute tokens than requested.
    InsufficientBalance,
    /// The signer may not act on the balance it names.
    Unauthorized,
    /// Setup was invoked against existing state.
    AlreadyInitialized,
}

} // verus!
