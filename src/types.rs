use vstd::prelude::*;

verus! {

/// Identity of an account holder or administrator.
pub type UserId = u64;

/// A user's on-demand (flexi) account.
#[derive(Clone, Copy, Debug, PartialEq, Eq, Structural)]
pub struct UserAccount {
    pub total_balance: i128,
    pub savings_count: u32,
}

/// A target-amount savings plan.
#[derive(Debug)]
pub struct GoalSave {
    pub id: u64,
    pub owner: UserId,
    pub name: String,
    pub target_amount: i128,
    pub current_amount: i128,
    pub is_completed: bool,
    pub is_withdrawn: bool,
    pub start_time: u64,
}

/// A fixed-term deposit with the rate captured when it was opened.
#[derive(Clone, Copy, Debug, PartialEq, Eq, Structural)]
pub struct LockSave {
    pub id: u64,
    pub owner: UserId,
    pub amount: i128,
    pub interest_rate: u32,
    pub start_time: u64,
    pub duration_days: u64,
    pub is_withdrawn: bool,
}

/// One member of a group pool and what they have put in.
#[derive(Clone, Copy, Debug, PartialEq, Eq, Structural)]
pub struct GroupMember {
    pub member: UserId,
    pub contributed: i128,
}

/// A shared savings pool.
#[derive(Debug)]
pub struct GroupSave {
    pub id: u64,
    pub creator: UserId,
    pub title: String,
    pub description: String,
    pub category: String,
    pub target_amount: i128,
    pub current_amount: i128,
    pub contribution_type: u32,
    pub contribution_amount: i128,
    pub is_public: bool,
    pub start_time: u64,
    pub end_time: u64,
    pub is_completed: bool,
    pub members: Vec<GroupMember>,
}

/// A group pool as its rules see it.
pub ghost struct GroupView {
    pub id: u64,
    pub creator: UserId,
    pub title: String,
    pub description: String,
    pub category: String,
    pub target_amount: int,
    pub current_amount: int,
    pub contribution_type: u32,
    pub contribution_amount: i128,
    pub is_public: bool,
    pub start_time: u64,
    pub end_time: u64,
    pub is_completed: bool,
    pub members: Seq<GroupMember>,
}

impl View for GroupSave {
    type V = GroupView;

    open spec fn view(&self) -> GroupView {
        GroupView {
            id: self.id,
            creator: self.creator,
            title: self.title,
            description: self.description,
            category: self.category,
            target_amount: self.target_amount as int,
            current_amount: self.current_amount as int,
            contribution_type: self.contribution_type,
            contribution_amount: self.contribution_amount,
            is_public: self.is_public,
            start_time: self.start_time,
            end_time: self.end_time,
            is_completed: self.is_completed,
            members: self.members@,
        }
    }
}

/// A recurring deposit schedule.
#[derive(Clone, Copy, Debug, PartialEq, Eq, Structural)]
pub struct AutoSave {
    pub id: u64,
    pub owner: UserId,
    pub amount: i128,
    pub interval_seconds: u64,
    pub next_execution_time: u64,
    pub is_active: bool,
}

/// Settings of the points program.
#[derive(Clone, Copy, Debug, PartialEq, Eq, Structural)]
pub struct RewardsConfig {
    pub points_per_token: u32,
    pub streak_bonus_bps: u32,
    pub long_lock_bonus_bps: u32,
    pub goal_completion_bonus: u32,
    pub enabled: bool,
    pub min_deposit_for_rewards: i128,
    pub action_cooldown_seconds: u64,
    pub max_daily_points: u128,
    pub max_streak_multiplier: u32,
}

/// A user's points ledger.
#[derive(Clone, Copy, Debug, PartialEq, Eq, Structural)]
pub struct UserRewards {
    pub total_points: u128,
    pub lifetime_deposited: i128,
    pub current_streak: u32,
    pub last_action_timestamp: u64,
    pub daily_points_earned: u128,
    pub last_reward_day: u64,
}

/// The ledger of a user that has never been awarded points.
pub open spec fn empty_rewards() -> UserRewards {
    UserRewards {
        total_points: 0,
        lifetime_deposited: 0,
        current_streak: 0,
        last_action_timestamp: 0,
        daily_points_earned: 0,
        last_reward_day: 0,
    }
}

} // verus!
