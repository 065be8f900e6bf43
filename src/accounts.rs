use vstd::prelude::*;
use crate::errors::SavingsError;
use crate::ledger::{LedgerView, NesteraContract};
use crate::rewards::{after_award, award_deposit_points};
use crate::types::{UserAccount, UserId};

verus! {

broadcast use vstd::std_specs::hash::group_hash_axioms;

/// Why a flexi deposit is refused, or `None` when it goes through.
pub open spec fn deposit_error(v: LedgerView, user: UserId, amount: int) -> Option<SavingsError> {
    if v.paused {
        Some(SavingsError::ContractPaused)
    } else if amount <= 0 {
        Some(SavingsError::InvalidAmount)
    } else if !v.users.contains_key(user) {
        Some(SavingsError::UserNotFound)
    } else if v.balance_of(user) + amount > i128::MAX {
        Some(SavingsError::Overflow)
    } else {
        None
    }
}

/// Why a flexi withdrawal is refused, or `None` when it goes through.
pub open spec fn withdraw_error(v: LedgerView, user: UserId, amount: int) -> Option<SavingsError> {
    if v.paused {
        Some(SavingsError::ContractPaused)
    } else if amount <= 0 {
        Some(SavingsError::InvalidAmount)
    } else if !v.users.contains_key(user) {
        Some(SavingsError::UserNotFound)
    } else if v.balance_of(user) < amount {
        Some(SavingsError::InsufficientBalance)
    } else {
        None
    }
}

impl NesteraContract {
    /// Writes a new flexi balance for an existing user.
    pub(crate) fn store_balance(&mut self, user: UserId, balance: i128)
        requires
            old(self)@.wf(),
            old(self)@.users.contains_key(user),
            balance >= 0,
        ensures
            final(self)@.wf(),
            final(self)@ == old(self)@.with_balance(user, balance as int),
    {
        let mut account = *self.users.get(&user).unwrap();
        account.total_balance = balance;
        self.users.insert(user, account);
    }

    /// Writes a new flexi balance and counts one more plan for an existing user.
    pub(crate) fn store_plan_opened(&mut self, user: UserId, balance: i128)
        requires
            old(self)@.wf(),
            old(self)@.users.contains_key(user),
            old(self)@.users[user].savings_count < u32::MAX,
            balance >= 0,
        ensures
            final(self)@.wf(),
            final(self)@ == old(self)@.with_plan_opened(user, balance as int),
    {
        let mut account = *self.users.get(&user).unwrap();
        account.total_balance = balance;
        account.savings_count = account.savings_count + 1;
        self.users.insert(user, account);
    }

    /// Opens an account with a zero balance.
    pub fn initialize_user(&mut self, user: UserId) -> (r: Result<(), SavingsError>)
        requires
            old(self)@.wf(),
        ensures
            final(self)@.wf(),
            old(self)@.paused ==> r == Err::<(), SavingsError>(SavingsError::ContractPaused),
            !old(self)@.paused && old(self)@.users.contains_key(user)
                ==> r == Err::<(), SavingsError>(SavingsError::UserAlreadyExists),
            r is Ok <==> !old(self)@.paused && !old(self)@.users.contains_key(user),
            r is Ok ==> final(self)@ == (LedgerView {
                users: old(self)@.users.insert(user, UserAccount { total_balance: 0, savings_count: 0 }),
                ..old(self)@
            }),
            r is Err ==> final(self)@ == old(self)@,
    {
        if self.paused {
            return Err(SavingsError::ContractPaused);
        }
        if self.users.contains_key(&user) {
            return Err(SavingsError::UserAlreadyExists);
        }
        self.users.insert(user, UserAccount { total_balance: 0, savings_count: 0 });
        Ok(())
    }

    pub fn user_exists(&self, user: UserId) -> (r: bool)
        ensures
            r == self@.users.contains_key(user),
    {
        self.users.contains_key(&user)
    }

    pub fn get_user(&self, user: UserId) -> (r: Result<UserAccount, SavingsError>)
        ensures
            self@.users.contains_key(user) ==> r == Ok::<UserAccount, SavingsError>(self@.users[user]),
            !self@.users.contains_key(user) ==> r == Err::<UserAccount, SavingsError>(SavingsError::UserNotFound),
    {
        match self.users.get(&user) {
            Some(a) => Ok(*a),
            None => Err(SavingsError::UserNotFound),
        }
    }

    pub fn get_flexi_balance(&self, user: UserId) -> (r: Result<i128, SavingsError>)
        ensures
            self@.users.contains_key(user) ==> r == Ok::<i128, SavingsError>(self@.users[user].total_balance),
            !self@.users.contains_key(user) ==> r == Err::<i128, SavingsError>(SavingsError::UserNotFound),
    {
        match self.users.get(&user) {
            Some(a) => Ok(a.total_balance),
            None => Err(SavingsError::UserNotFound),
        }
    }

    /// Adds `amount` to the flexi balance, then awards points for it at time `now`.
    /// A failure of the points award does not undo the deposit. Returns the new balance.
    pub fn deposit_flexi(&mut self, user: UserId, amount: i128, now: u64) -> (r: Result<i128, SavingsError>)
        requires
            old(self)@.wf(),
        ensures
            final(self)@.wf(),
            match r {
                Ok(b) => deposit_error(old(self)@, user, amount as int).is_none()
                    && b == old(self)@.balance_of(user) + amount
                    && final(self)@ == after_award(old(self)@.with_balance(user, b as int), user, amount as int, now),
                Err(e) => deposit_error(old(self)@, user, amount as int) == Some(e) && final(self)@ == old(self)@,
            },
    {
        if self.paused {
            return Err(SavingsError::ContractPaused);
        }
        if amount <= 0 {
            return Err(SavingsError::InvalidAmount);
        }
        let balance = match self.users.get(&user) {
            Some(a) => a.total_balance,
            None => return Err(SavingsError::UserNotFound),
        };
        let new_balance = match balance.checked_add(amount) {
            Some(b) => b,
            None => return Err(SavingsError::Overflow),
        };
        self.store_balance(user, new_balance);
        let _ = award_deposit_points(self, user, amount, now);
        Ok(new_balance)
    }

    /// Takes `amount` out of the flexi balance. Returns the new balance.
    pub fn withdraw_flexi(&mut self, user: UserId, amount: i128) -> (r: Result<i128, SavingsError>)
        requires
            old(self)@.wf(),
        ensures
            final(self)@.wf(),
            match r {
                Ok(b) => withdraw_error(old(self)@, user, amount as int).is_none()
                    && b == old(self)@.balance_of(user) - amount
                    && final(self)@ == old(self)@.with_balance(user, b as int),
                Err(e) => withdraw_error(old(self)@, user, amount as int) == Some(e) && final(self)@ == old(self)@,
            },
    {
        if self.paused {
            return Err(SavingsError::ContractPaused);
        }
        crate::invariants::assert_non_negative(amount)?;
        let balance = match self.users.get(&user) {
            Some(a) => a.total_balance,
            None => return Err(SavingsError::UserNotFound),
        };
        crate::invariants::assert_sufficient_balance(balance, amount)?;
        let new_balance = balance - amount;
        self.store_balance(user, new_balance);
        Ok(new_balance)
    }
}

} // verus!
