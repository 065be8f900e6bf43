use vstd::prelude::*;
use crate::errors::SavingsError;
use crate::ledger::{LedgerView, NesteraContract};
use crate::types::{empty_rewards, RewardsConfig, UserId, UserRewards};

verus! {

broadcast use vstd::std_specs::hash::group_hash_axioms;

pub const SECONDS_PER_DAY: u64 = 86_400;

/// A user's points ledger, or the all-zero ledger if none was stored yet.
pub open spec fn rewards_of(v: LedgerView, user: UserId) -> UserRewards {
    if v.user_rewards.contains_key(user) {
        v.user_rewards[user]
    } else {
        empty_rewards()
    }
}

/// The ranking population after `user` was tracked: appended once, never twice.
pub open spec fn with_tracked(s: Seq<UserId>, user: UserId) -> Seq<UserId> {
    if s.contains(user) {
        s
    } else {
        s.push(user)
    }
}

/// The streak bonus in basis points, capped by the configured maximum.
pub open spec fn streak_bonus(c: RewardsConfig, r: UserRewards) -> int {
    let raw = r.current_streak * c.streak_bonus_bps;
    if raw > c.max_streak_multiplier {
        c.max_streak_multiplier as int
    } else {
        raw
    }
}

pub open spec fn base_points(c: RewardsConfig, amount: int) -> int {
    amount * c.points_per_token
}

/// Points earned by a deposit before the daily cap.
pub open spec fn earned_points(c: RewardsConfig, r: UserRewards, amount: int) -> int {
    base_points(c, amount) + base_points(c, amount) * streak_bonus(c, r) / 10_000
}

/// What was earned earlier on the ledger day of `now`.
pub open spec fn earned_today(r: UserRewards, now: u64) -> int {
    if now / SECONDS_PER_DAY != r.last_reward_day {
        0
    } else {
        r.daily_points_earned as int
    }
}

/// Points actually credited: the earned points, cut to what the daily cap leaves.
pub open spec fn credited_points(c: RewardsConfig, r: UserRewards, amount: int, now: u64) -> int {
    let room = if earned_today(r, now) >= c.max_daily_points {
        0
    } else {
        c.max_daily_points - earned_today(r, now)
    };
    if earned_points(c, r, amount) < room {
        earned_points(c, r, amount)
    } else {
        room
    }
}

/// A user's ledger after a deposit of `amount` at `now`, or `None` where a sum overflows.
pub open spec fn awarded(c: RewardsConfig, r: UserRewards, amount: int, now: u64) -> Option<UserRewards> {
    if base_points(c, amount) > u128::MAX
        || base_points(c, amount) * streak_bonus(c, r) > u128::MAX
        || earned_points(c, r, amount) > u128::MAX
        || r.total_points + credited_points(c, r, amount, now) > u128::MAX
        || r.lifetime_deposited + amount > i128::MAX {
        None
    } else {
        Some(UserRewards {
            total_points: (r.total_points + credited_points(c, r, amount, now)) as u128,
            lifetime_deposited: (r.lifetime_deposited + amount) as i128,
            current_streak: r.current_streak,
            last_action_timestamp: now,
            daily_points_earned: (earned_today(r, now) + credited_points(c, r, amount, now)) as u128,
            last_reward_day: now / SECONDS_PER_DAY,
        })
    }
}

/// The outcome of the deposit hook on the ledger `v`.
pub open spec fn award_outcome(v: LedgerView, user: UserId, amount: int, now: u64) -> Result<LedgerView, SavingsError> {
    match v.rewards_config {
        None => Ok(v),
        Some(c) => if !c.enabled {
            Ok(v)
        } else if amount <= 0 {
            Err(SavingsError::InvalidAmount)
        } else {
            match awarded(c, rewards_of(v, user), amount, now) {
                None => Err(SavingsError::Overflow),
                Some(r) => Ok(LedgerView {
                    user_rewards: v.user_rewards.insert(user, r),
                    ranked_users: with_tracked(v.ranked_users, user),
                    ..v
                }),
            }
        },
    }
}

/// The ledger after the deposit hook, which leaves it as it was where the hook fails.
pub open spec fn after_award(v: LedgerView, user: UserId, amount: int, now: u64) -> LedgerView {
    match award_outcome(v, user, amount, now) {
        Ok(w) => w,
        Err(_) => v,
    }
}

pub open spec fn rewards_config_error(v: LedgerView, caller: UserId, c: RewardsConfig) -> Option<SavingsError> {
    if !v.is_admin(caller) {
        Some(SavingsError::Unauthorized)
    } else if c.streak_bonus_bps > 10_000 || c.long_lock_bonus_bps > 10_000 || c.max_streak_multiplier > 10_000 {
        Some(SavingsError::InvalidInterestRate)
    } else {
        None
    }
}

impl NesteraContract {
    /// Installs the settings of the points program; admin only. Its basis-point
    /// fields must lie within 0..=10000.
    pub fn init_rewards_config(&mut self, caller: UserId, config: RewardsConfig) -> (r: Result<(), SavingsError>)
        requires
            old(self)@.wf(),
        ensures
            final(self)@.wf(),
            match r {
                Ok(_) => rewards_config_error(old(self)@, caller, config).is_none()
                    && final(self)@ == (LedgerView { rewards_config: Some(config), ..old(self)@ }),
                Err(e) => rewards_config_error(old(self)@, caller, config) == Some(e) && final(self)@ == old(self)@,
            },
    {
        if self.admin != Some(caller) {
            return Err(SavingsError::Unauthorized);
        }
        if config.streak_bonus_bps > 10_000 || config.long_lock_bonus_bps > 10_000 || config.max_streak_multiplier > 10_000 {
            return Err(SavingsError::InvalidInterestRate);
        }
        self.rewards_config = Some(config);
        Ok(())
    }

    pub fn get_rewards_config(&self) -> (r: Option<RewardsConfig>)
        ensures
            r == self@.rewards_config,
    {
        self.rewards_config
    }
}

/// Fetches a user's points ledger, or the all-zero ledger.
pub fn get_user_rewards(ledger: &NesteraContract, user: UserId) -> (r: UserRewards)
    ensures
        r == rewards_of(ledger@, user),
{
    match ledger.user_rewards.get(&user) {
        Some(r) => *r,
        None => UserRewards {
            total_points: 0,
            lifetime_deposited: 0,
            current_streak: 0,
            last_action_timestamp: 0,
            daily_points_earned: 0,
            last_reward_day: 0,
        },
    }
}

/// Stores a user's points ledger.
pub fn save_user_rewards(ledger: &mut NesteraContract, user: UserId, rewards: &UserRewards)
    requires
        old(ledger)@.wf(),
    ensures
        final(ledger)@.wf(),
        final(ledger)@ == (LedgerView { user_rewards: old(ledger)@.user_rewards.insert(user, *rewards), ..old(ledger)@ }),
{
    ledger.user_rewards.insert(user, *rewards);
}

/// Creates an empty points ledger for `user`, stamped with `now`; fails if one exists.
pub fn initialize_user_rewards(ledger: &mut NesteraContract, user: UserId, now: u64) -> (r: Result<(), SavingsError>)
    requires
        old(ledger)@.wf(),
    ensures
        final(ledger)@.wf(),
        old(ledger)@.user_rewards.contains_key(user) ==> r == Err::<(), SavingsError>(SavingsError::UserAlreadyExists)
            && final(ledger)@ == old(ledger)@,
        !old(ledger)@.user_rewards.contains_key(user) ==> r is Ok && final(ledger)@ == (LedgerView {
            user_rewards: old(ledger)@.user_rewards.insert(
                user,
                UserRewards { last_action_timestamp: now, ..empty_rewards() },
            ),
            ..old(ledger)@
        }),
{
    if ledger.user_rewards.contains_key(&user) {
        return Err(SavingsError::UserAlreadyExists);
    }
    let initial = UserRewards {
        total_points: 0,
        lifetime_deposited: 0,
        current_streak: 0,
        last_action_timestamp: now,
        daily_points_earned: 0,
        last_reward_day: 0,
    };
    save_user_rewards(ledger, user, &initial);
    Ok(())
}

/// Adds `points` to a user's total; fails on overflow.
pub fn add_points(ledger: &mut NesteraContract, user: UserId, points: u128) -> (r: Result<(), SavingsError>)
    requires
        old(ledger)@.wf(),
    ensures
        final(ledger)@.wf(),
        r is Ok <==> rewards_of(old(ledger)@, user).total_points + points <= u128::MAX,
        r is Err ==> r == Err::<(), SavingsError>(SavingsError::Overflow) && final(ledger)@ == old(ledger)@,
        r is Ok ==> final(ledger)@ == (LedgerView {
            user_rewards: old(ledger)@.user_rewards.insert(
                user,
                UserRewards {
                    total_points: (rewards_of(old(ledger)@, user).total_points + points) as u128,
                    ..rewards_of(old(ledger)@, user)
                },
            ),
            ..old(ledger)@
        }),
{
    let mut rewards = get_user_rewards(ledger, user);
    match rewards.total_points.checked_add(points) {
        Some(t) => rewards.total_points = t,
        None => return Err(SavingsError::Overflow),
    }
    save_user_rewards(ledger, user, &rewards);
    Ok(())
}

/// Sets a user's streak back to zero.
pub fn reset_streak(ledger: &mut NesteraContract, user: UserId)
    requires
        old(ledger)@.wf(),
    ensures
        final(ledger)@.wf(),
        final(ledger)@ == (LedgerView {
            user_rewards: old(ledger)@.user_rewards.insert(
                user,
                UserRewards { current_streak: 0, ..rewards_of(old(ledger)@, user) },
            ),
            ..old(ledger)@
        }),
{
    let mut rewards = get_user_rewards(ledger, user);
    rewards.current_streak = 0;
    save_user_rewards(ledger, user, &rewards);
}

/// Adds `user` to the ranking population unless it is already there.
pub fn track_user_for_ranking(ledger: &mut NesteraContract, user: UserId)
    requires
        old(ledger)@.wf(),
    ensures
        final(ledger)@.wf(),
        final(ledger)@ == (LedgerView { ranked_users: with_tracked(old(ledger)@.ranked_users, user), ..old(ledger)@ }),
{
    let n = ledger.ranked_users.len();
    let mut i: usize = 0;
    while i < n
        invariant
            n == ledger.ranked_users.len(),
            *ledger == *old(ledger),
            ledger@.wf(),
            i <= n,
            forall|k: int| 0 <= k < i ==> ledger.ranked_users@[k] != user,
        decreases n - i,
    {
        if ledger.ranked_users[i] == user {
            proof {
                assert(ledger.ranked_users@.contains(user));
            }
            return;
        }
        i = i + 1;
    }
    proof {
        assert(!ledger.ranked_users@.contains(user));
    }
    ledger.ranked_users.push(user);
}

/// Credits the points that a flexi deposit of `amount` at time `now` earns.
///
/// Does nothing, whatever the amount, where the program is not configured or is
/// disabled; otherwise a non-positive amount is refused. The streak
/// bonus is applied on top of the base points, the daily counter restarts on a
/// new ledger day, and the credit is cut so that the daily cap holds. The
/// minimum deposit and the cooldown of the configuration are not enforced here.
pub fn award_deposit_points(ledger: &mut NesteraContract, user: UserId, amount: i128, now: u64) -> (r: Result<(), SavingsError>)
    requires
        old(ledger)@.wf(),
    ensures
        final(ledger)@.wf(),
        match r {
            Ok(_) => award_outcome(old(ledger)@, user, amount as int, now) == Ok::<LedgerView, SavingsError>(final(ledger)@),
            Err(e) => award_outcome(old(ledger)@, user, amount as int, now) == Err::<LedgerView, SavingsError>(e)
                && final(ledger)@ == old(ledger)@,
        },
{
    let config = match ledger.rewards_config {
        Some(c) => c,
        None => return Ok(()),
    };
    if !config.enabled {
        return Ok(());
    }
    if amount <= 0 {
        return Err(SavingsError::InvalidAmount);
    }
    let mut rewards = get_user_rewards(ledger, user);
    let base = match (amount as u128).checked_mul(config.points_per_token as u128) {
        Some(b) => b,
        None => return Err(SavingsError::Overflow),
    };
    proof {
        let a = rewards.current_streak as int;
        let b = config.streak_bonus_bps as int;
        assert(a * b <= 0xffff_ffff * 0xffff_ffffint) by (nonlinear_arith)
            requires 0 <= a <= 0xffff_ffff, 0 <= b <= 0xffff_ffff;
    }
    let raw_bonus: u128 = (rewards.current_streak as u128) * (config.streak_bonus_bps as u128);
    let bonus: u128 = if raw_bonus > config.max_streak_multiplier as u128 {
        config.max_streak_multiplier as u128
    } else {
        raw_bonus
    };
    let scaled = match base.checked_mul(bonus) {
        Some(s) => s,
        None => return Err(SavingsError::Overflow),
    };
    let earned = match base.checked_add(scaled / 10_000) {
        Some(e) => e,
        None => return Err(SavingsError::Overflow),
    };
    let day = now / SECONDS_PER_DAY;
    let today: u128 = if day != rewards.last_reward_day { 0 } else { rewards.daily_points_earned };
    let room: u128 = if today >= config.max_daily_points { 0 } else { config.max_daily_points - today };
    let credited: u128 = if earned < room { earned } else { room };
    let total = match rewards.total_points.checked_add(credited) {
        Some(t) => t,
        None => return Err(SavingsError::Overflow),
    };
    let lifetime = match rewards.lifetime_deposited.checked_add(amount) {
        Some(l) => l,
        None => return Err(SavingsError::Overflow),
    };
    rewards.total_points = total;
    rewards.lifetime_deposited = lifetime;
    rewards.last_action_timestamp = now;
    rewards.daily_points_earned = today + credited;
    rewards.last_reward_day = day;
    save_user_rewards(ledger, user, &rewards);
    track_user_for_ranking(ledger, user);
    Ok(())
}

} // verus!
