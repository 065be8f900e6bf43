use vstd::prelude::*;

verus! {

/// Error kinds returned by every fallible operation of the ledger.
#[derive(Clone, Copy, Debug, PartialEq, Eq, Structural)]
pub enum SavingsError {
    Unauthorized,
    ContractPaused,
    InvalidAmount,
    InvalidFeeBps,
    InvalidInterestRate,
    InsufficientBalance,
    Overflow,
    PlanNotFound,
    UserNotFound,
    UserAlreadyExists,
    TooEarly,
    NotMatured,
    NonMember,
    AlreadyMember,
    InvalidState,
}

} // verus!
