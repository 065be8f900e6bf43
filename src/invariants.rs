use vstd::prelude::*;
use crate::errors::SavingsError;

verus! {

/// Validates that an amount is strictly positive.
pub fn assert_non_negative(amount: i128) -> (r: Result<(), SavingsError>)
    ensures
        r == (if amount > 0 { Ok::<(), SavingsError>(()) } else { Err(SavingsError::InvalidAmount) }),
{
    if amount <= 0 {
        return Err(SavingsError::InvalidAmount);
    }
    Ok(())
}

/// Validates that fee basis points are within the 0..=10000 range.
pub fn assert_valid_fee(fee_bps: u32) -> (r: Result<(), SavingsError>)
    ensures
        r == (if fee_bps <= 10_000 { Ok::<(), SavingsError>(()) } else { Err(SavingsError::InvalidFeeBps) }),
{
    if fee_bps > 10_000 {
        return Err(SavingsError::InvalidFeeBps);
    }
    Ok(())
}

/// Validates that a withdrawal does not exceed the available balance.
pub fn assert_sufficient_balance(balance: i128, amount: i128) -> (r: Result<(), SavingsError>)
    ensures
        r == (if balance >= amount { Ok::<(), SavingsError>(()) } else { Err(SavingsError::InsufficientBalance) }),
{
    if balance < amount {
        return Err(SavingsError::InsufficientBalance);
    }
    Ok(())
}

} // verus!
