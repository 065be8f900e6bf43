use vstd::prelude::*;
use crate::errors::SavingsError;
use crate::ledger::{LedgerView, NesteraContract};
use crate::rewards::{get_user_rewards, rewards_of, save_user_rewards};
use crate::types::{UserId, UserRewards};

verus! {

/// Why a redemption is refused, or `None` when it goes through.
pub open spec fn redeem_error(v: LedgerView, user: UserId, amount: u128) -> Option<SavingsError> {
    if v.paused {
        Some(SavingsError::ContractPaused)
    } else if amount == 0 {
        Some(SavingsError::InvalidAmount)
    } else if rewards_of(v, user).total_points < amount {
        Some(SavingsError::InsufficientBalance)
    } else {
        None
    }
}

/// The ledger after `user` spent `amount` points: only the total changes.
pub open spec fn redeemed(v: LedgerView, user: UserId, amount: u128) -> LedgerView {
    LedgerView {
        user_rewards: v.user_rewards.insert(
            user,
            UserRewards {
                total_points: (rewards_of(v, user).total_points - amount) as u128,
                ..rewards_of(v, user)
            },
        ),
        ..v
    }
}

/// Spends `amount` of a user's points.
pub fn redeem_points(ledger: &mut NesteraContract, user: UserId, amount: u128) -> (r: Result<(), SavingsError>)
    requires
        old(ledger)@.wf(),
    ensures
        final(ledger)@.wf(),
        match r {
            Ok(_) => redeem_error(old(ledger)@, user, amount).is_none()
                && final(ledger)@ == redeemed(old(ledger)@, user, amount),
            Err(e) => redeem_error(old(ledger)@, user, amount) == Some(e) && final(ledger)@ == old(ledger)@,
        },
{
    if ledger.paused {
        return Err(SavingsError::ContractPaused);
    }
    if amount == 0 {
        return Err(SavingsError::InvalidAmount);
    }
    let mut rewards = get_user_rewards(ledger, user);
    if rewards.total_points < amount {
        return Err(SavingsError::InsufficientBalance);
    }
    rewards.total_points = rewards.total_points - amount;
    save_user_rewards(ledger, user, &rewards);
    Ok(())
}

} // verus!
