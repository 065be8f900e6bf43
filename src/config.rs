use vstd::prelude::*;
use crate::errors::SavingsError;
use crate::ledger::{LedgerView, NesteraContract};
use crate::types::UserId;

verus! {

broadcast use vstd::std_specs::hash::group_hash_axioms;

/// The error of an admin setter for a rate, or `None` when it is accepted.
pub open spec fn rate_error(v: LedgerView, caller: UserId, rate: i32) -> Option<SavingsError> {
    if !v.is_admin(caller) {
        Some(SavingsError::Unauthorized)
    } else if rate < 0 || rate > 10_000 {
        Some(SavingsError::InvalidInterestRate)
    } else {
        None
    }
}

impl NesteraContract {
    /// Sets the early-break fee in basis points; admin only, at most 10000.
    pub fn set_early_break_fee_bps(&mut self, caller: UserId, bps: u32) -> (r: Result<(), SavingsError>)
        requires
            old(self)@.wf(),
        ensures
            final(self)@.wf(),
            !old(self)@.is_admin(caller) ==> r == Err::<(), SavingsError>(SavingsError::Unauthorized),
            old(self)@.is_admin(caller) && bps > 10_000 ==> r == Err::<(), SavingsError>(SavingsError::InvalidFeeBps),
            r is Ok <==> old(self)@.is_admin(caller) && bps <= 10_000,
            r is Ok ==> final(self)@ == (LedgerView { early_break_fee_bps: bps, ..old(self)@ }),
            r is Err ==> final(self)@ == old(self)@,
    {
        if self.admin != Some(caller) {
            return Err(SavingsError::Unauthorized);
        }
        crate::invariants::assert_valid_fee(bps)?;
        self.early_break_fee_bps = bps;
        Ok(())
    }

    pub fn get_early_break_fee_bps(&self) -> (r: u32)
        ensures
            r == self@.early_break_fee_bps,
    {
        self.early_break_fee_bps
    }

    /// Names the account that receives early-break fees; admin only.
    pub fn set_fee_recipient(&mut self, caller: UserId, recipient: UserId) -> (r: Result<(), SavingsError>)
        requires
            old(self)@.wf(),
        ensures
            final(self)@.wf(),
            r is Ok <==> old(self)@.is_admin(caller),
            r is Err ==> r == Err::<(), SavingsError>(SavingsError::Unauthorized) && final(self)@ == old(self)@,
            r is Ok ==> final(self)@ == (LedgerView { fee_recipient: Some(recipient), ..old(self)@ }),
    {
        if self.admin != Some(caller) {
            return Err(SavingsError::Unauthorized);
        }
        self.fee_recipient = Some(recipient);
        Ok(())
    }

    pub fn get_fee_recipient(&self) -> (r: Option<UserId>)
        ensures
            r == self@.fee_recipient,
    {
        self.fee_recipient
    }

    /// Sets the flexi rate in basis points; admin only, within 0..=10000.
    pub fn set_flexi_rate(&mut self, caller: UserId, rate: i32) -> (r: Result<(), SavingsError>)
        requires
            old(self)@.wf(),
        ensures
            final(self)@.wf(),
            match r {
                Ok(_) => rate_error(old(self)@, caller, rate).is_none()
                    && final(self)@ == (LedgerView { flexi_rate: rate as u32, ..old(self)@ }),
                Err(e) => rate_error(old(self)@, caller, rate) == Some(e) && final(self)@ == old(self)@,
            },
    {
        if self.admin != Some(caller) {
            return Err(SavingsError::Unauthorized);
        }
        if rate < 0 || rate > 10_000 {
            return Err(SavingsError::InvalidInterestRate);
        }
        self.flexi_rate = rate as u32;
        Ok(())
    }

    /// Sets the goal rate in basis points; admin only, within 0..=10000.
    pub fn set_goal_rate(&mut self, caller: UserId, rate: i32) -> (r: Result<(), SavingsError>)
        requires
            old(self)@.wf(),
        ensures
            final(self)@.wf(),
            match r {
                Ok(_) => rate_error(old(self)@, caller, rate).is_none()
                    && final(self)@ == (LedgerView { goal_rate: rate as u32, ..old(self)@ }),
                Err(e) => rate_error(old(self)@, caller, rate) == Some(e) && final(self)@ == old(self)@,
            },
    {
        if self.admin != Some(caller) {
            return Err(SavingsError::Unauthorized);
        }
        if rate < 0 || rate > 10_000 {
            return Err(SavingsError::InvalidInterestRate);
        }
        self.goal_rate = rate as u32;
        Ok(())
    }

    /// Sets the group rate in basis points; admin only, within 0..=10000.
    pub fn set_group_rate(&mut self, caller: UserId, rate: i32) -> (r: Result<(), SavingsError>)
        requires
            old(self)@.wf(),
        ensures
            final(self)@.wf(),
            match r {
                Ok(_) => rate_error(old(self)@, caller, rate).is_none()
                    && final(self)@ == (LedgerView { group_rate: rate as u32, ..old(self)@ }),
                Err(e) => rate_error(old(self)@, caller, rate) == Some(e) && final(self)@ == old(self)@,
            },
    {
        if self.admin != Some(caller) {
            return Err(SavingsError::Unauthorized);
        }
        if rate < 0 || rate > 10_000 {
            return Err(SavingsError::InvalidInterestRate);
        }
        self.group_rate = rate as u32;
        Ok(())
    }

    /// Sets the rate of the lock tier of exactly `duration_days`; admin only.
    pub fn set_lock_rate(&mut self, caller: UserId, duration_days: u64, rate: i32) -> (r: Result<(), SavingsError>)
        requires
            old(self)@.wf(),
        ensures
            final(self)@.wf(),
            match r {
                Ok(_) => rate_error(old(self)@, caller, rate).is_none()
                    && final(self)@ == (LedgerView {
                        lock_rates: old(self)@.lock_rates.insert(duration_days, rate as u32),
                        ..old(self)@
                    }),
                Err(e) => rate_error(old(self)@, caller, rate) == Some(e) && final(self)@ == old(self)@,
            },
    {
        if self.admin != Some(caller) {
            return Err(SavingsError::Unauthorized);
        }
        if rate < 0 || rate > 10_000 {
            return Err(SavingsError::InvalidInterestRate);
        }
        self.lock_rates.insert(duration_days, rate as u32);
        Ok(())
    }

    pub fn get_flexi_rate(&self) -> (r: u32)
        ensures
            r == self@.flexi_rate,
    {
        self.flexi_rate
    }

    pub fn get_goal_rate(&self) -> (r: u32)
        ensures
            r == self@.goal_rate,
    {
        self.goal_rate
    }

    pub fn get_group_rate(&self) -> (r: u32)
        ensures
            r == self@.group_rate,
    {
        self.group_rate
    }

    /// The rate of the lock tier of exactly `duration_days`, if one is set.
    pub fn get_lock_rate(&self, duration_days: u64) -> (r: Result<u32, SavingsError>)
        ensures
            self@.lock_rates.contains_key(duration_days) ==> r == Ok::<u32, SavingsError>(self@.lock_rates[duration_days]),
            !self@.lock_rates.contains_key(duration_days) ==> r == Err::<u32, SavingsError>(SavingsError::PlanNotFound),
    {
        match self.lock_rates.get(&duration_days) {
            Some(rate) => Ok(*rate),
            None => Err(SavingsError::PlanNotFound),
        }
    }
}

} // verus!
