use vstd::prelude::*;
use crate::errors::SavingsError;
use crate::ledger::{LedgerView, NesteraContract};
use crate::types::{GoalSave, UserId};

verus! {

broadcast use vstd::std_specs::hash::group_hash_axioms;

/// Ids of the goals owned by `user`, in order of creation.
pub open spec fn goal_ids_of(goals: Seq<GoalSave>, user: UserId) -> Seq<u64>
    decreases goals.len(),
{
    if goals.len() == 0 {
        Seq::empty()
    } else if goals.last().owner == user {
        goal_ids_of(goals.drop_last(), user).push(goals.last().id)
    } else {
        goal_ids_of(goals.drop_last(), user)
    }
}

pub open spec fn create_goal_error(v: LedgerView, user: UserId, target: int, initial: int) -> Option<SavingsError> {
    if v.paused {
        Some(SavingsError::ContractPaused)
    } else if target <= 0 || initial <= 0 {
        Some(SavingsError::InvalidAmount)
    } else if !v.users.contains_key(user) {
        Some(SavingsError::UserNotFound)
    } else if v.balance_of(user) < initial {
        Some(SavingsError::InsufficientBalance)
    } else if v.users[user].savings_count == u32::MAX {
        Some(SavingsError::Overflow)
    } else {
        None
    }
}

/// The checks shared by every operation on an existing goal of `user`.
pub open spec fn goal_access_error(v: LedgerView, user: UserId, id: u64) -> Option<SavingsError> {
    if v.paused {
        Some(SavingsError::ContractPaused)
    } else if id >= v.goals.len() {
        Some(SavingsError::PlanNotFound)
    } else if v.goals[id as int].owner != user {
        Some(SavingsError::Unauthorized)
    } else if !v.users.contains_key(user) {
        Some(SavingsError::UserNotFound)
    } else {
        None
    }
}

pub open spec fn deposit_goal_error(v: LedgerView, user: UserId, id: u64, amount: int) -> Option<SavingsError> {
    if goal_access_error(v, user, id).is_some() {
        goal_access_error(v, user, id)
    } else if amount <= 0 {
        Some(SavingsError::InvalidAmount)
    } else if v.goals[id as int].is_completed || v.goals[id as int].is_withdrawn {
        Some(SavingsError::InvalidState)
    } else if v.balance_of(user) < amount {
        Some(SavingsError::InsufficientBalance)
    } else if v.goals[id as int].current_amount + amount > i128::MAX {
        Some(SavingsError::Overflow)
    } else {
        None
    }
}

pub open spec fn withdraw_goal_error(v: LedgerView, user: UserId, id: u64) -> Option<SavingsError> {
    if goal_access_error(v, user, id).is_some() {
        goal_access_error(v, user, id)
    } else if !v.goals[id as int].is_completed || v.goals[id as int].is_withdrawn {
        Some(SavingsError::InvalidState)
    } else if v.balance_of(user) + v.goals[id as int].current_amount > i128::MAX {
        Some(SavingsError::Overflow)
    } else {
        None
    }
}

/// The early-break fee on a goal holding `current`.
pub open spec fn break_fee(v: LedgerView, current: int) -> int {
    current * v.early_break_fee_bps / 10_000
}

/// Whether the fee of a break goes to a recipient's account.
pub open spec fn fee_routed(v: LedgerView) -> bool {
    v.fee_recipient.is_some() && v.users.contains_key(v.fee_recipient.unwrap())
}

/// The ledger after a goal of `user` holding `current` was broken, with its flag not yet set.
pub open spec fn break_payout(v: LedgerView, user: UserId, current: int) -> LedgerView {
    let fee = break_fee(v, current);
    let v1 = v.with_balance(user, v.balance_of(user) + current - fee);
    if fee_routed(v) {
        v1.with_balance(v.fee_recipient.unwrap(), v1.balance_of(v.fee_recipient.unwrap()) + fee)
    } else {
        v1
    }
}

pub open spec fn break_goal_error(v: LedgerView, user: UserId, id: u64) -> Option<SavingsError> {
    if goal_access_error(v, user, id).is_some() {
        goal_access_error(v, user, id)
    } else if v.goals[id as int].is_completed || v.goals[id as int].is_withdrawn {
        Some(SavingsError::InvalidState)
    } else {
        let current = v.goals[id as int].current_amount as int;
        let fee = break_fee(v, current);
        let owner_balance = v.balance_of(user) + current - fee;
        if current * v.early_break_fee_bps > i128::MAX || owner_balance > i128::MAX {
            Some(SavingsError::Overflow)
        } else if fee_routed(v) && v.with_balance(user, owner_balance).balance_of(v.fee_recipient.unwrap()) + fee
            > i128::MAX {
            Some(SavingsError::Overflow)
        } else {
            None
        }
    }
}

impl NesteraContract {
    /// Opens a goal toward `target_amount`, moving `initial_deposit` out of the flexi balance.
    /// Returns the id of the new goal.
    pub fn create_goal_save(
        &mut self,
        user: UserId,
        name: String,
        target_amount: i128,
        initial_deposit: i128,
        now: u64,
    ) -> (r: Result<u64, SavingsError>)
        requires
            old(self)@.wf(),
        ensures
            final(self)@.wf(),
            match r {
                Ok(id) => create_goal_error(old(self)@, user, target_amount as int, initial_deposit as int).is_none()
                    && id == old(self)@.goals.len()
                    && final(self)@ == (LedgerView {
                        goals: old(self)@.goals.push(GoalSave {
                            id,
                            owner: user,
                            name,
                            target_amount,
                            current_amount: initial_deposit,
                            is_completed: initial_deposit >= target_amount,
                            is_withdrawn: false,
                            start_time: now,
                        }),
                        ..old(self)@.with_plan_opened(user, old(self)@.balance_of(user) - initial_deposit)
                    }),
                Err(e) => create_goal_error(old(self)@, user, target_amount as int, initial_deposit as int) == Some(e)
                    && final(self)@ == old(self)@,
            },
    {
        if self.paused {
            return Err(SavingsError::ContractPaused);
        }
        if target_amount <= 0 || initial_deposit <= 0 {
            return Err(SavingsError::InvalidAmount);
        }
        let account = match self.users.get(&user) {
            Some(a) => *a,
            None => return Err(SavingsError::UserNotFound),
        };
        if account.total_balance < initial_deposit {
            return Err(SavingsError::InsufficientBalance);
        }
        if account.savings_count == u32::MAX {
            return Err(SavingsError::Overflow);
        }
        self.store_plan_opened(user, account.total_balance - initial_deposit);
        let id = self.goals.len() as u64;
        self.goals.push(GoalSave {
            id,
            owner: user,
            name,
            target_amount,
            current_amount: initial_deposit,
            is_completed: initial_deposit >= target_amount,
            is_withdrawn: false,
            start_time: now,
        });
        Ok(id)
    }

    /// Moves `amount` from the flexi balance into an active goal; the goal completes
    /// once it holds its target. A completed goal takes no more deposits.
    pub fn deposit_to_goal_save(&mut self, user: UserId, goal_id: u64, amount: i128) -> (r: Result<i128, SavingsError>)
        requires
            old(self)@.wf(),
        ensures
            final(self)@.wf(),
            match r {
                Ok(current) => deposit_goal_error(old(self)@, user, goal_id, amount as int).is_none()
                    && current == old(self)@.goals[goal_id as int].current_amount + amount
                    && final(self)@ == (LedgerView {
                        goals: old(self)@.goals.update(goal_id as int, GoalSave {
                            current_amount: current,
                            is_completed: current >= old(self)@.goals[goal_id as int].target_amount,
                            ..old(self)@.goals[goal_id as int]
                        }),
                        ..old(self)@.with_balance(user, old(self)@.balance_of(user) - amount)
                    }),
                Err(e) => deposit_goal_error(old(self)@, user, goal_id, amount as int) == Some(e)
                    && final(self)@ == old(self)@,
            },
    {
        if self.paused {
            return Err(SavingsError::ContractPaused);
        }
        if goal_id >= self.goals.len() as u64 {
            return Err(SavingsError::PlanNotFound);
        }
        let i = goal_id as usize;
        if self.goals[i].owner != user {
            return Err(SavingsError::Unauthorized);
        }
        let balance = match self.users.get(&user) {
            Some(a) => a.total_balance,
            None => return Err(SavingsError::UserNotFound),
        };
        if amount <= 0 {
            return Err(SavingsError::InvalidAmount);
        }
        if self.goals[i].is_completed || self.goals[i].is_withdrawn {
            return Err(SavingsError::InvalidState);
        }
        if balance < amount {
            return Err(SavingsError::InsufficientBalance);
        }
        let current = match self.goals[i].current_amount.checked_add(amount) {
            Some(c) => c,
            None => return Err(SavingsError::Overflow),
        };
        self.store_balance(user, balance - amount);
        let completed = current >= self.goals[i].target_amount;
        self.goals[i].current_amount = current;
        self.goals[i].is_completed = completed;
        proof {
            assert(self@.goals =~= old(self)@.goals.update(goal_id as int, GoalSave {
                current_amount: current,
                is_completed: completed,
                ..old(self)@.goals[goal_id as int]
            }));
        }
        Ok(current)
    }

    /// Pays a completed goal out to the flexi balance and closes it. Returns the amount paid.
    pub fn withdraw_completed_goal_save(&mut self, user: UserId, goal_id: u64) -> (r: Result<i128, SavingsError>)
        requires
            old(self)@.wf(),
        ensures
            final(self)@.wf(),
            match r {
                Ok(paid) => withdraw_goal_error(old(self)@, user, goal_id).is_none()
                    && paid == old(self)@.goals[goal_id as int].current_amount
                    && final(self)@ == (LedgerView {
                        goals: old(self)@.goals.update(goal_id as int, GoalSave {
                            is_withdrawn: true,
                            ..old(self)@.goals[goal_id as int]
                        }),
                        ..old(self)@.with_balance(user, old(self)@.balance_of(user) + paid)
                    }),
                Err(e) => withdraw_goal_error(old(self)@, user, goal_id) == Some(e) && final(self)@ == old(self)@,
            },
    {
        if self.paused {
            return Err(SavingsError::ContractPaused);
        }
        if goal_id >= self.goals.len() as u64 {
            return Err(SavingsError::PlanNotFound);
        }
        let i = goal_id as usize;
        if self.goals[i].owner != user {
            return Err(SavingsError::Unauthorized);
        }
        let balance = match self.users.get(&user) {
            Some(a) => a.total_balance,
            None => return Err(SavingsError::UserNotFound),
        };
        if !self.goals[i].is_completed || self.goals[i].is_withdrawn {
            return Err(SavingsError::InvalidState);
        }
        let paid = self.goals[i].current_amount;
        let new_balance = match balance.checked_add(paid) {
            Some(b) => b,
            None => return Err(SavingsError::Overflow),
        };
        self.store_balance(user, new_balance);
        self.goals[i].is_withdrawn = true;
        Ok(paid)
    }

    /// Closes an unfinished goal early: its amount less the early-break fee goes back to
    /// the flexi balance, and the fee to the fee recipient's account where there is one.
    /// Returns what the owner got back.
    pub fn break_goal_save(&mut self, user: UserId, goal_id: u64) -> (r: Result<i128, SavingsError>)
        requires
            old(self)@.wf(),
        ensures
            final(self)@.wf(),
            match r {
                Ok(paid) => break_goal_error(old(self)@, user, goal_id).is_none()
                    && paid == old(self)@.goals[goal_id as int].current_amount
                        - break_fee(old(self)@, old(self)@.goals[goal_id as int].current_amount as int)
                    && final(self)@ == (LedgerView {
                        goals: old(self)@.goals.update(goal_id as int, GoalSave {
                            is_withdrawn: true,
                            ..old(self)@.goals[goal_id as int]
                        }),
                        ..break_payout(old(self)@, user, old(self)@.goals[goal_id as int].current_amount as int)
                    }),
                Err(e) => break_goal_error(old(self)@, user, goal_id) == Some(e) && final(self)@ == old(self)@,
            },
    {
        if self.paused {
            return Err(SavingsError::ContractPaused);
        }
        if goal_id >= self.goals.len() as u64 {
            return Err(SavingsError::PlanNotFound);
        }
        let i = goal_id as usize;
        if self.goals[i].owner != user {
            return Err(SavingsError::Unauthorized);
        }
        let balance = match self.users.get(&user) {
            Some(a) => a.total_balance,
            None => return Err(SavingsError::UserNotFound),
        };
        if self.goals[i].is_completed || self.goals[i].is_withdrawn {
            return Err(SavingsError::InvalidState);
        }
        let current = self.goals[i].current_amount;
        let scaled = match current.checked_mul(self.early_break_fee_bps as i128) {
            Some(s) => s,
            None => return Err(SavingsError::Overflow),
        };
        let fee = scaled / 10_000;
        proof {
            assert(0 <= fee <= current) by (nonlinear_arith)
                requires fee == current * self.early_break_fee_bps / 10_000, 0 <= current,
                    0 <= self.early_break_fee_bps <= 10_000;
        }
        let payout = current - fee;
        let owner_balance = match balance.checked_add(payout) {
            Some(b) => b,
            None => return Err(SavingsError::Overflow),
        };
        let mut recipient_credit: Option<(UserId, i128)> = None;
        if let Some(recipient) = self.fee_recipient {
            if let Some(acct) = self.users.get(&recipient) {
                let before = if recipient == user { owner_balance } else { acct.total_balance };
                match before.checked_add(fee) {
                    Some(b) => recipient_credit = Some((recipient, b)),
                    None => return Err(SavingsError::Overflow),
                }
            }
        }
        self.store_balance(user, owner_balance);
        if let Some((recipient, b)) = recipient_credit {
            self.store_balance(recipient, b);
        }
        self.goals[i].is_withdrawn = true;
        Ok(payout)
    }

    /// The goal with id `goal_id`.
    pub fn get_goal_save_detail(&self, goal_id: u64) -> (r: Result<&GoalSave, SavingsError>)
        ensures
            goal_id < self@.goals.len() ==> r == Ok::<&GoalSave, SavingsError>(&self@.goals[goal_id as int]),
            goal_id >= self@.goals.len() ==> r == Err::<&GoalSave, SavingsError>(SavingsError::PlanNotFound),
    {
        if goal_id >= self.goals.len() as u64 {
            return Err(SavingsError::PlanNotFound);
        }
        Ok(&self.goals[goal_id as usize])
    }

    /// Ids of the goals of `user`, oldest first.
    pub fn get_user_goal_saves(&self, user: UserId) -> (r: Vec<u64>)
        ensures
            r@ == goal_ids_of(self@.goals, user),
    {
        let mut ids: Vec<u64> = Vec::new();
        let mut i: usize = 0;
        while i < self.goals.len()
            invariant
                i <= self.goals.len(),
                ids@ == goal_ids_of(self@.goals.take(i as int), user),
            decreases self.goals.len() - i,
        {
            proof {
                assert(self@.goals.take(i + 1).drop_last() == self@.goals.take(i as int));
            }
            if self.goals[i].owner == user {
                ids.push(self.goals[i].id);
            }
            i = i + 1;
        }
        proof {
            assert(self@.goals.take(i as int) == self@.goals);
        }
        ids
    }
}

} // verus!
