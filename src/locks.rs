use vstd::prelude::*;
use crate::errors::SavingsError;
use crate::ledger::{maturity_time, LedgerView, NesteraContract};
use crate::rates::{calculate_lock_interest, lock_interest};
use crate::types::{LockSave, UserId};

verus! {

broadcast use vstd::std_specs::hash::group_hash_axioms;

/// Ids of the lock plans owned by `user`, in order of creation.
pub open spec fn lock_ids_of(locks: Seq<LockSave>, user: UserId) -> Seq<u64>
    decreases locks.len(),
{
    if locks.len() == 0 {
        Seq::empty()
    } else if locks.last().owner == user {
        lock_ids_of(locks.drop_last(), user).push(locks.last().id)
    } else {
        lock_ids_of(locks.drop_last(), user)
    }
}

pub open spec fn create_lock_error(v: LedgerView, user: UserId, amount: int, days: u64, now: u64) -> Option<SavingsError> {
    if v.paused {
        Some(SavingsError::ContractPaused)
    } else if amount <= 0 {
        Some(SavingsError::InvalidAmount)
    } else if !v.lock_rates.contains_key(days) {
        Some(SavingsError::PlanNotFound)
    } else if !v.users.contains_key(user) {
        Some(SavingsError::UserNotFound)
    } else if v.balance_of(user) < amount {
        Some(SavingsError::InsufficientBalance)
    } else if v.users[user].savings_count == u32::MAX || now + days * 86_400 > u64::MAX {
        Some(SavingsError::Overflow)
    } else {
        None
    }
}

/// What a matured lock pays: its principal and its flat interest.
pub open spec fn lock_payout(l: LockSave) -> int {
    l.amount + lock_interest(l.amount as int, l.interest_rate as int)
}

pub open spec fn withdraw_lock_error(v: LedgerView, user: UserId, id: u64, now: u64) -> Option<SavingsError> {
    if v.paused {
        Some(SavingsError::ContractPaused)
    } else if id >= v.locks.len() {
        Some(SavingsError::PlanNotFound)
    } else if v.locks[id as int].owner != user {
        Some(SavingsError::Unauthorized)
    } else if !v.users.contains_key(user) {
        Some(SavingsError::UserNotFound)
    } else if v.locks[id as int].is_withdrawn {
        Some(SavingsError::PlanNotFound)
    } else if now < maturity_time(v.locks[id as int]) {
        Some(SavingsError::NotMatured)
    } else if v.locks[id as int].amount * v.locks[id as int].interest_rate > i128::MAX
        || v.balance_of(user) + lock_payout(v.locks[id as int]) > i128::MAX {
        Some(SavingsError::Overflow)
    } else {
        None
    }
}

impl NesteraContract {
    /// Locks `amount` of the flexi balance for `duration_days`, at the rate of the tier
    /// of exactly that duration, fixed now. Returns the id of the new lock plan.
    pub fn create_lock_save(&mut self, user: UserId, amount: i128, duration_days: u64, now: u64) -> (r: Result<u64, SavingsError>)
        requires
            old(self)@.wf(),
        ensures
            final(self)@.wf(),
            match r {
                Ok(id) => create_lock_error(old(self)@, user, amount as int, duration_days, now).is_none()
                    && id == old(self)@.locks.len()
                    && final(self)@ == (LedgerView {
                        locks: old(self)@.locks.push(LockSave {
                            id,
                            owner: user,
                            amount,
                            interest_rate: old(self)@.lock_rates[duration_days],
                            start_time: now,
                            duration_days,
                            is_withdrawn: false,
                        }),
                        ..old(self)@.with_plan_opened(user, old(self)@.balance_of(user) - amount)
                    }),
                Err(e) => create_lock_error(old(self)@, user, amount as int, duration_days, now) == Some(e)
                    && final(self)@ == old(self)@,
            },
    {
        if self.paused {
            return Err(SavingsError::ContractPaused);
        }
        if amount <= 0 {
            return Err(SavingsError::InvalidAmount);
        }
        let rate = match self.get_lock_rate(duration_days) {
            Ok(rate) => rate,
            Err(e) => return Err(e),
        };
        let account = match self.users.get(&user) {
            Some(a) => *a,
            None => return Err(SavingsError::UserNotFound),
        };
        if account.total_balance < amount {
            return Err(SavingsError::InsufficientBalance);
        }
        if account.savings_count == u32::MAX {
            return Err(SavingsError::Overflow);
        }
        match duration_days.checked_mul(86_400) {
            Some(d) => if now.checked_add(d).is_none() {
                return Err(SavingsError::Overflow);
            },
            None => return Err(SavingsError::Overflow),
        }
        self.store_plan_opened(user, account.total_balance - amount);
        let id = self.locks.len() as u64;
        self.locks.push(LockSave {
            id,
            owner: user,
            amount,
            interest_rate: rate,
            start_time: now,
            duration_days,
            is_withdrawn: false,
        });
        Ok(id)
    }

    /// Whether a lock plan has matured at time `now`.
    pub fn check_matured_lock(&self, lock_id: u64, now: u64) -> (r: Result<bool, SavingsError>)
        requires
            self@.wf(),
        ensures
            lock_id < self@.locks.len() ==> r == Ok::<bool, SavingsError>(
                now >= maturity_time(self@.locks[lock_id as int]),
            ),
            lock_id >= self@.locks.len() ==> r == Err::<bool, SavingsError>(SavingsError::PlanNotFound),
    {
        if lock_id >= self.locks.len() as u64 {
            return Err(SavingsError::PlanNotFound);
        }
        let l = self.locks[lock_id as usize];
        Ok(now >= l.start_time + l.duration_days * 86_400)
    }

    /// Pays a matured lock plan out, principal and interest, to the flexi balance and
    /// closes it. Returns the amount paid.
    pub fn withdraw_lock_save(&mut self, user: UserId, lock_id: u64, now: u64) -> (r: Result<i128, SavingsError>)
        requires
            old(self)@.wf(),
        ensures
            final(self)@.wf(),
            match r {
                Ok(paid) => withdraw_lock_error(old(self)@, user, lock_id, now).is_none()
                    && paid == lock_payout(old(self)@.locks[lock_id as int])
                    && final(self)@ == (LedgerView {
                        locks: old(self)@.locks.update(lock_id as int, LockSave {
                            is_withdrawn: true,
                            ..old(self)@.locks[lock_id as int]
                        }),
                        ..old(self)@.with_balance(user, old(self)@.balance_of(user) + paid)
                    }),
                Err(e) => withdraw_lock_error(old(self)@, user, lock_id, now) == Some(e) && final(self)@ == old(self)@,
            },
    {
        if self.paused {
            return Err(SavingsError::ContractPaused);
        }
        if lock_id >= self.locks.len() as u64 {
            return Err(SavingsError::PlanNotFound);
        }
        let i = lock_id as usize;
        let l = self.locks[i];
        if l.owner != user {
            return Err(SavingsError::Unauthorized);
        }
        let balance = match self.users.get(&user) {
            Some(a) => a.total_balance,
            None => return Err(SavingsError::UserNotFound),
        };
        if l.is_withdrawn {
            return Err(SavingsError::PlanNotFound);
        }
        if now < l.start_time + l.duration_days * 86_400 {
            return Err(SavingsError::NotMatured);
        }
        if l.amount.checked_mul(l.interest_rate as i128).is_none() {
            return Err(SavingsError::Overflow);
        }
        let interest = calculate_lock_interest(l.amount, l.interest_rate);
        let paid = match l.amount.checked_add(interest) {
            Some(p) => p,
            None => return Err(SavingsError::Overflow),
        };
        let new_balance = match balance.checked_add(paid) {
            Some(b) => b,
            None => return Err(SavingsError::Overflow),
        };
        self.store_balance(user, new_balance);
        self.locks.set(i, LockSave { is_withdrawn: true, ..l });
        Ok(paid)
    }

    /// Ids of the lock plans of `user`, oldest first.
    pub fn get_user_lock_saves(&self, user: UserId) -> (r: Vec<u64>)
        ensures
            r@ == lock_ids_of(self@.locks, user),
    {
        let mut ids: Vec<u64> = Vec::new();
        let mut i: usize = 0;
        while i < self.locks.len()
            invariant
                i <= self.locks.len(),
                ids@ == lock_ids_of(self@.locks.take(i as int), user),
            decreases self.locks.len() - i,
        {
            proof {
                assert(self@.locks.take(i + 1).drop_last() == self@.locks.take(i as int));
            }
            if self.locks[i].owner == user {
                ids.push(self.locks[i].id);
            }
            i = i + 1;
        }
        proof {
            assert(self@.locks.take(i as int) == self@.locks);
        }
        ids
    }
}

} // verus!
