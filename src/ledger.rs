use vstd::prelude::*;
use std::collections::HashMap;
use crate::errors::SavingsError;
use crate::types::{
    AutoSave, GoalSave, GroupMember, GroupSave, GroupView, LockSave, RewardsConfig, UserAccount,
    UserId, UserRewards,
};

verus! {

broadcast use vstd::std_specs::hash::group_hash_axioms;

/// The whole savings ledger: configuration, accounts, plans and the points program.
pub struct NesteraContract {
    pub admin: Option<UserId>,
    pub paused: bool,
    pub version: u32,
    pub flexi_rate: u32,
    pub goal_rate: u32,
    pub group_rate: u32,
    pub lock_rates: HashMap<u64, u32>,
    pub early_break_fee_bps: u32,
    pub fee_recipient: Option<UserId>,
    pub users: HashMap<UserId, UserAccount>,
    pub goals: Vec<GoalSave>,
    pub locks: Vec<LockSave>,
    pub groups: Vec<GroupSave>,
    pub autosaves: Vec<AutoSave>,
    pub rewards_config: Option<RewardsConfig>,
    pub user_rewards: HashMap<UserId, UserRewards>,
    pub ranked_users: Vec<UserId>,
}

/// The mathematical state of the ledger.
pub ghost struct LedgerView {
    pub admin: Option<UserId>,
    pub paused: bool,
    pub version: u32,
    pub flexi_rate: u32,
    pub goal_rate: u32,
    pub group_rate: u32,
    pub lock_rates: Map<u64, u32>,
    pub early_break_fee_bps: u32,
    pub fee_recipient: Option<UserId>,
    pub users: Map<UserId, UserAccount>,
    pub goals: Seq<GoalSave>,
    pub locks: Seq<LockSave>,
    pub groups: Seq<GroupView>,
    pub autosaves: Seq<AutoSave>,
    pub rewards_config: Option<RewardsConfig>,
    pub user_rewards: Map<UserId, UserRewards>,
    pub ranked_users: Seq<UserId>,
}

impl View for NesteraContract {
    type V = LedgerView;

    open spec fn view(&self) -> LedgerView {
        LedgerView {
            admin: self.admin,
            paused: self.paused,
            version: self.version,
            flexi_rate: self.flexi_rate,
            goal_rate: self.goal_rate,
            group_rate: self.group_rate,
            lock_rates: self.lock_rates@,
            early_break_fee_bps: self.early_break_fee_bps,
            fee_recipient: self.fee_recipient,
            users: self.users@,
            goals: self.goals@,
            locks: self.locks@,
            groups: self.groups@.map_values(|g: GroupSave| g@),
            autosaves: self.autosaves@,
            rewards_config: self.rewards_config,
            user_rewards: self.user_rewards@,
            ranked_users: self.ranked_users@,
        }
    }
}

/// Sum of what the members of a pool have contributed.
pub open spec fn members_total(s: Seq<GroupMember>) -> int
    decreases s.len(),
{
    if s.len() == 0 {
        0
    } else {
        members_total(s.drop_last()) + s.last().contributed
    }
}

pub open spec fn goal_wf(g: GoalSave, i: int) -> bool {
    &&& g.id == i
    &&& g.target_amount > 0
    &&& g.current_amount >= 0
    &&& g.is_completed <==> g.current_amount >= g.target_amount
}

pub open spec fn lock_wf(l: LockSave, i: int) -> bool {
    &&& l.id == i
    &&& l.amount > 0
    &&& l.interest_rate <= 10_000
    &&& l.start_time + l.duration_days * 86_400 <= u64::MAX
}

/// The time at which a lock plan matures.
pub open spec fn maturity_time(l: LockSave) -> int {
    l.start_time + l.duration_days * 86_400
}

pub open spec fn group_wf(g: GroupView) -> bool {
    &&& g.target_amount > 0
    &&& g.current_amount == members_total(g.members)
    &&& g.is_completed <==> g.current_amount >= g.target_amount
    &&& forall|k: int| 0 <= k < g.members.len() ==> #[trigger] g.members[k].contributed >= 0
    &&& forall|k: int, l: int|
        0 <= k < l < g.members.len() ==> #[trigger] g.members[k].member != #[trigger] g.members[l].member
}

pub open spec fn autosave_wf(a: AutoSave, i: int) -> bool {
    &&& a.id == i
    &&& a.amount > 0
    &&& a.interval_seconds > 0
}

impl LedgerView {
    /// The invariant that every operation of the ledger keeps.
    pub open spec fn wf(self) -> bool {
        &&& self.early_break_fee_bps <= 10_000
        &&& self.flexi_rate <= 10_000
        &&& self.goal_rate <= 10_000
        &&& self.group_rate <= 10_000
        &&& forall|d: u64| #[trigger] self.lock_rates.contains_key(d) ==> self.lock_rates[d] <= 10_000
        &&& forall|u: UserId| #[trigger] self.users.contains_key(u) ==> self.users[u].total_balance >= 0
        &&& forall|i: int| 0 <= i < self.goals.len() ==> goal_wf(#[trigger] self.goals[i], i)
        &&& forall|i: int| 0 <= i < self.locks.len() ==> lock_wf(#[trigger] self.locks[i], i)
        &&& forall|i: int| 0 <= i < self.groups.len() ==> group_wf(#[trigger] self.groups[i]) && self.groups[i].id == i
        &&& forall|i: int| 0 <= i < self.autosaves.len() ==> autosave_wf(#[trigger] self.autosaves[i], i)
        &&& forall|i: int, j: int|
            0 <= i < j < self.ranked_users.len() ==> #[trigger] self.ranked_users[i] != #[trigger] self.ranked_users[j]
    }

    pub open spec fn is_admin(self, caller: UserId) -> bool {
        self.admin == Some(caller)
    }

    pub open spec fn balance_of(self, user: UserId) -> int {
        self.users[user].total_balance as int
    }

    /// The ledger with `user`'s flexi balance set to `balance`.
    pub open spec fn with_balance(self, user: UserId, balance: int) -> LedgerView {
        LedgerView {
            users: self.users.insert(
                user,
                UserAccount { total_balance: balance as i128, ..self.users[user] },
            ),
            ..self
        }
    }

    /// The ledger after a plan was opened by `user`.
    pub open spec fn with_plan_opened(self, user: UserId, balance: int) -> LedgerView {
        LedgerView {
            users: self.users.insert(
                user,
                UserAccount {
                    total_balance: balance as i128,
                    savings_count: (self.users[user].savings_count + 1) as u32,
                },
            ),
            ..self
        }
    }
}

impl NesteraContract {
    /// An empty ledger with no administrator yet.
    pub fn new() -> (r: NesteraContract)
        ensures
            r@.wf(),
            r@.admin.is_none(),
            !r@.paused,
            r@.version == 0,
            r@.flexi_rate == 0 && r@.goal_rate == 0 && r@.group_rate == 0,
            r@.lock_rates.is_empty(),
            r@.early_break_fee_bps == 0,
            r@.fee_recipient.is_none(),
            r@.users.is_empty(),
            r@.goals.len() == 0 && r@.locks.len() == 0,
            r@.groups.len() == 0 && r@.autosaves.len() == 0,
            r@.rewards_config.is_none(),
            r@.user_rewards.is_empty(),
            r@.ranked_users.len() == 0,
    {
        NesteraContract {
            admin: None,
            paused: false,
            version: 0,
            flexi_rate: 0,
            goal_rate: 0,
            group_rate: 0,
            lock_rates: HashMap::new(),
            early_break_fee_bps: 0,
            fee_recipient: None,
            users: HashMap::new(),
            goals: Vec::new(),
            locks: Vec::new(),
            groups: Vec::new(),
            autosaves: Vec::new(),
            rewards_config: None,
            user_rewards: HashMap::new(),
            ranked_users: Vec::new(),
        }
    }

    /// Installs the administrator; only possible once.
    pub fn initialize(&mut self, admin: UserId) -> (r: Result<(), SavingsError>)
        requires
            old(self)@.wf(),
        ensures
            final(self)@.wf(),
            old(self)@.admin.is_none() ==> r is Ok && final(self)@ == (LedgerView { admin: Some(admin), ..old(self)@ }),
            old(self)@.admin.is_some() ==> r == Err::<(), SavingsError>(SavingsError::Unauthorized) && final(self)@ == old(self)@,
    {
        if self.admin.is_some() {
            return Err(SavingsError::Unauthorized);
        }
        self.admin = Some(admin);
        Ok(())
    }

    /// Stops every user write operation; admin only.
    pub fn pause(&mut self, caller: UserId) -> (r: Result<(), SavingsError>)
        requires
            old(self)@.wf(),
        ensures
            final(self)@.wf(),
            old(self)@.is_admin(caller) ==> r is Ok && final(self)@ == (LedgerView { paused: true, ..old(self)@ }),
            !old(self)@.is_admin(caller) ==> r == Err::<(), SavingsError>(SavingsError::Unauthorized) && final(self)@ == old(self)@,
    {
        if self.admin != Some(caller) {
            return Err(SavingsError::Unauthorized);
        }
        self.paused = true;
        Ok(())
    }

    /// Lets user write operations run again; admin only.
    pub fn unpause(&mut self, caller: UserId) -> (r: Result<(), SavingsError>)
        requires
            old(self)@.wf(),
        ensures
            final(self)@.wf(),
            old(self)@.is_admin(caller) ==> r is Ok && final(self)@ == (LedgerView { paused: false, ..old(self)@ }),
            !old(self)@.is_admin(caller) ==> r == Err::<(), SavingsError>(SavingsError::Unauthorized) && final(self)@ == old(self)@,
    {
        if self.admin != Some(caller) {
            return Err(SavingsError::Unauthorized);
        }
        self.paused = false;
        Ok(())
    }

    pub fn is_paused(&self) -> (r: bool)
        ensures
            r == self@.paused,
    {
        self.paused
    }
}

} // verus!
