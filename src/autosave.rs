use vstd::prelude::*;
use crate::accounts::deposit_error;
use crate::errors::SavingsError;
use crate::ledger::{LedgerView, NesteraContract};
use crate::rewards::after_award;
use crate::types::{AutoSave, UserId};

verus! {

broadcast use vstd::std_specs::hash::group_hash_axioms;

/// Ids of the schedules owned by `user`, in order of creation.
pub open spec fn autosave_ids_of(schedules: Seq<AutoSave>, user: UserId) -> Seq<u64>
    decreases schedules.len(),
{
    if schedules.len() == 0 {
        Seq::empty()
    } else if schedules.last().owner == user {
        autosave_ids_of(schedules.drop_last(), user).push(schedules.last().id)
    } else {
        autosave_ids_of(schedules.drop_last(), user)
    }
}

pub open spec fn create_autosave_error(v: LedgerView, user: UserId, amount: int, interval: u64) -> Option<SavingsError> {
    if v.paused {
        Some(SavingsError::ContractPaused)
    } else if amount <= 0 || interval == 0 {
        Some(SavingsError::InvalidAmount)
    } else if !v.users.contains_key(user) {
        Some(SavingsError::UserNotFound)
    } else {
        None
    }
}

pub open spec fn execute_autosave_error(v: LedgerView, id: u64, now: u64) -> Option<SavingsError> {
    if v.paused {
        Some(SavingsError::ContractPaused)
    } else if id >= v.autosaves.len() {
        Some(SavingsError::PlanNotFound)
    } else if !v.autosaves[id as int].is_active {
        Some(SavingsError::InvalidState)
    } else if now < v.autosaves[id as int].next_execution_time {
        Some(SavingsError::TooEarly)
    } else if v.autosaves[id as int].next_execution_time + v.autosaves[id as int].interval_seconds > u64::MAX {
        Some(SavingsError::Overflow)
    } else {
        deposit_error(v, v.autosaves[id as int].owner, v.autosaves[id as int].amount as int)
    }
}

pub open spec fn cancel_autosave_error(v: LedgerView, user: UserId, id: u64) -> Option<SavingsError> {
    if v.paused {
        Some(SavingsError::ContractPaused)
    } else if id >= v.autosaves.len() {
        Some(SavingsError::PlanNotFound)
    } else if v.autosaves[id as int].owner != user {
        Some(SavingsError::Unauthorized)
    } else {
        None
    }
}

impl NesteraContract {
    /// Schedules a recurring deposit of `amount` every `interval_seconds`, first due at
    /// `start_time`. Returns the id of the new schedule.
    pub fn create_autosave(&mut self, user: UserId, amount: i128, interval_seconds: u64, start_time: u64) -> (r: Result<u64, SavingsError>)
        requires
            old(self)@.wf(),
        ensures
            final(self)@.wf(),
            match r {
                Ok(id) => create_autosave_error(old(self)@, user, amount as int, interval_seconds).is_none()
                    && id == old(self)@.autosaves.len()
                    && final(self)@ == (LedgerView {
                        autosaves: old(self)@.autosaves.push(AutoSave {
                            id,
                            owner: user,
                            amount,
                            interval_seconds,
                            next_execution_time: start_time,
                            is_active: true,
                        }),
                        ..old(self)@
                    }),
                Err(e) => create_autosave_error(old(self)@, user, amount as int, interval_seconds) == Some(e)
                    && final(self)@ == old(self)@,
            },
    {
        if self.paused {
            return Err(SavingsError::ContractPaused);
        }
        if amount <= 0 || interval_seconds == 0 {
            return Err(SavingsError::InvalidAmount);
        }
        if !self.users.contains_key(&user) {
            return Err(SavingsError::UserNotFound);
        }
        let id = self.autosaves.len() as u64;
        self.autosaves.push(AutoSave {
            id,
            owner: user,
            amount,
            interval_seconds,
            next_execution_time: start_time,
            is_active: true,
        });
        Ok(id)
    }

    /// Runs one due occurrence of a schedule at time `now`: deposits its amount to the
    /// owner's flexi balance as a flexi deposit would, and moves the next due time one
    /// interval on from the previous one.
    pub fn execute_autosave(&mut self, schedule_id: u64, now: u64) -> (r: Result<(), SavingsError>)
        requires
            old(self)@.wf(),
        ensures
            final(self)@.wf(),
            match r {
                Ok(_) => execute_autosave_error(old(self)@, schedule_id, now).is_none() && {
                    let s = old(self)@.autosaves[schedule_id as int];
                    final(self)@ == (LedgerView {
                        autosaves: old(self)@.autosaves.update(schedule_id as int, AutoSave {
                            next_execution_time: (s.next_execution_time + s.interval_seconds) as u64,
                            ..s
                        }),
                        ..after_award(
                            old(self)@.with_balance(s.owner, old(self)@.balance_of(s.owner) + s.amount),
                            s.owner,
                            s.amount as int,
                            now,
                        )
                    })
                },
                Err(e) => execute_autosave_error(old(self)@, schedule_id, now) == Some(e) && final(self)@ == old(self)@,
            },
    {
        if self.paused {
            return Err(SavingsError::ContractPaused);
        }
        if schedule_id >= self.autosaves.len() as u64 {
            return Err(SavingsError::PlanNotFound);
        }
        let i = schedule_id as usize;
        let s = self.autosaves[i];
        if !s.is_active {
            return Err(SavingsError::InvalidState);
        }
        if now < s.next_execution_time {
            return Err(SavingsError::TooEarly);
        }
        let next = match s.next_execution_time.checked_add(s.interval_seconds) {
            Some(n) => n,
            None => return Err(SavingsError::Overflow),
        };
        match self.deposit_flexi(s.owner, s.amount, now) {
            Ok(_) => {},
            Err(e) => return Err(e),
        }
        self.autosaves.set(i, AutoSave { next_execution_time: next, ..s });
        Ok(())
    }

    /// Stops a schedule for good; owner only.
    pub fn cancel_autosave(&mut self, user: UserId, schedule_id: u64) -> (r: Result<(), SavingsError>)
        requires
            old(self)@.wf(),
        ensures
            final(self)@.wf(),
            match r {
                Ok(_) => cancel_autosave_error(old(self)@, user, schedule_id).is_none()
                    && final(self)@ == (LedgerView {
                        autosaves: old(self)@.autosaves.update(schedule_id as int, AutoSave {
                            is_active: false,
                            ..old(self)@.autosaves[schedule_id as int]
                        }),
                        ..old(self)@
                    }),
                Err(e) => cancel_autosave_error(old(self)@, user, schedule_id) == Some(e) && final(self)@ == old(self)@,
            },
    {
        if self.paused {
            return Err(SavingsError::ContractPaused);
        }
        if schedule_id >= self.autosaves.len() as u64 {
            return Err(SavingsError::PlanNotFound);
        }
        let i = schedule_id as usize;
        let s = self.autosaves[i];
        if s.owner != user {
            return Err(SavingsError::Unauthorized);
        }
        self.autosaves.set(i, AutoSave { is_active: false, ..s });
        Ok(())
    }

    /// The schedule with id `schedule_id`, if there is one.
    pub fn get_autosave(&self, schedule_id: u64) -> (r: Option<AutoSave>)
        ensures
            schedule_id < self@.autosaves.len() ==> r == Some(self@.autosaves[schedule_id as int]),
            schedule_id >= self@.autosaves.len() ==> r.is_none(),
    {
        if schedule_id >= self.autosaves.len() as u64 {
            return None;
        }
        Some(self.autosaves[schedule_id as usize])
    }

    /// Ids of the schedules of `user`, oldest first.
    pub fn get_user_autosaves(&self, user: UserId) -> (r: Vec<u64>)
        ensures
            r@ == autosave_ids_of(self@.autosaves, user),
    {
        let mut ids: Vec<u64> = Vec::new();
        let mut i: usize = 0;
        while i < self.autosaves.len()
            invariant
                i <= self.autosaves.len(),
                ids@ == autosave_ids_of(self@.autosaves.take(i as int), user),
            decreases self.autosaves.len() - i,
        {
            proof {
                assert(self@.autosaves.take(i + 1).drop_last() == self@.autosaves.take(i as int));
            }
            if self.autosaves[i].owner == user {
                ids.push(self.autosaves[i].id);
            }
            i = i + 1;
        }
        proof {
            assert(self@.autosaves.take(i as int) == self@.autosaves);
        }
        ids
    }
}

} // verus!
