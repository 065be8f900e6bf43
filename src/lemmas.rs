use vstd::prelude::*;
use crate::accounts::{deposit_error, withdraw_error};
use crate::autosave::{cancel_autosave_error, create_autosave_error, execute_autosave_error};
use crate::errors::SavingsError;
use crate::goals::{break_goal_error, create_goal_error, deposit_goal_error, withdraw_goal_error};
use crate::groups::{
    break_group_error, contribute_error, contributed, contribution_of, create_group_error, is_member,
    join_group_error, left, member_index,
};
use crate::ledger::{group_wf, maturity_time, LedgerView};
use crate::locks::{create_lock_error, lock_payout, withdraw_lock_error};
use crate::rates::lock_interest;
use crate::ranking::{
    entries_of, first_entry, has_entry, is_top_users, lemma_positions_ordered, place_filled, points_of,
    precedes, rank_of, rank_position, ranking_details_of, ranking_entries, ranking_pool,
};
use crate::redemption::{redeem_error, redeemed};
use crate::rewards::{after_award, award_outcome, rewards_of};
use crate::types::{GroupMember, UserId};

verus! {

/// The points award after a deposit touches neither accounts nor the pause flag.
pub proof fn lemma_award_keeps_accounts(v: LedgerView, user: UserId, amount: int, now: u64)
    ensures
        after_award(v, user, amount, now).users == v.users,
        after_award(v, user, amount, now).paused == v.paused,
{
}

/// Depositing `d` and then withdrawing `w`, where `w` is at most the balance after the
/// deposit, leaves the starting balance plus `d` minus `w`; withdrawing more than the
/// balance is refused with `InsufficientBalance`.
pub proof fn lemma_deposit_then_withdraw(v: LedgerView, user: UserId, d: i128, w: i128, now: u64)
    requires
        v.wf(),
        deposit_error(v, user, d as int).is_none(),
        0 < w <= v.balance_of(user) + d,
    ensures
        ({
            let v1 = after_award(v.with_balance(user, v.balance_of(user) + d), user, d as int, now);
            &&& v1.balance_of(user) == v.balance_of(user) + d
            &&& withdraw_error(v1, user, w as int).is_none()
            &&& v1.with_balance(user, v1.balance_of(user) - w).balance_of(user) == v.balance_of(user) + d - w
        }),
{
    lemma_award_keeps_accounts(v.with_balance(user, v.balance_of(user) + d), user, d as int, now);
}

/// A withdrawal above the balance is refused with `InsufficientBalance`.
pub proof fn lemma_withdraw_above_balance(v: LedgerView, user: UserId, w: i128)
    requires
        !v.paused,
        v.users.contains_key(user),
        w > v.balance_of(user),
        w > 0,
    ensures
        withdraw_error(v, user, w as int) == Some(SavingsError::InsufficientBalance),
{
}

/// A goal is completed exactly when it holds its target; a completed goal takes no
/// deposit and cannot be broken, and paying it out keeps it completed.
pub proof fn lemma_goal_completion_one_shot(v: LedgerView, user: UserId, id: u64, amount: i128)
    requires
        v.wf(),
        id < v.goals.len(),
    ensures
        v.goals[id as int].is_completed <==> v.goals[id as int].current_amount >= v.goals[id as int].target_amount,
        v.goals[id as int].is_completed ==> deposit_goal_error(v, user, id, amount as int).is_some(),
        v.goals[id as int].is_completed ==> break_goal_error(v, user, id).is_some(),
        !v.paused && v.goals[id as int].owner == user && v.users.contains_key(user) && amount > 0
            && v.goals[id as int].is_completed
            ==> deposit_goal_error(v, user, id, amount as int) == Some(SavingsError::InvalidState),
{
}

/// A lock plan cannot be paid out before it matures, and pays at least its principal.
pub proof fn lemma_lock_maturity(v: LedgerView, user: UserId, id: u64, now: u64)
    requires
        v.wf(),
        id < v.locks.len(),
    ensures
        now < maturity_time(v.locks[id as int]) ==> withdraw_lock_error(v, user, id, now).is_some(),
        lock_payout(v.locks[id as int]) >= v.locks[id as int].amount,
{
    let l = v.locks[id as int];
    assert(lock_interest(l.amount as int, l.interest_rate as int) >= 0) by (nonlinear_arith)
        requires l.amount > 0, l.interest_rate >= 0;
}

proof fn lemma_member_index_unique(s: Seq<GroupMember>, user: UserId, k: int)
    requires
        forall|a: int, b: int| 0 <= a < b < s.len() ==> #[trigger] s[a].member != #[trigger] s[b].member,
        0 <= k < s.len(),
        s[k].member == user,
    ensures
        is_member(s, user),
        member_index(s, user) == k,
{
    assert(is_member(s, user));
    let c = member_index(s, user);
    assert(s[c].member == user);
}

/// A member with nothing in a pool who contributes `c` and then leaves gets exactly
/// `c` back, ends with the balance they started with, is no longer a member, and the
/// other members keep their contributions and their balances.
pub proof fn lemma_group_break_refunds(v: LedgerView, user: UserId, id: u64, c: i128, other: UserId)
    requires
        v.wf(),
        contribute_error(v, user, id, c as int).is_none(),
        contribution_of(v.groups[id as int], user) == 0,
        other != user,
        ({
            let v1 = LedgerView {
                groups: v.groups.update(id as int, contributed(v.groups[id as int], user, c as int)),
                ..v.with_balance(user, v.balance_of(user) - c)
            };
            break_group_error(v1, user, id).is_none()
        }),
    ensures
        ({
            let g1 = contributed(v.groups[id as int], user, c as int);
            let v1 = LedgerView {
                groups: v.groups.update(id as int, g1),
                ..v.with_balance(user, v.balance_of(user) - c)
            };
            let refund = contribution_of(g1, user);
            let v2 = v1.with_balance(user, v1.balance_of(user) + refund);
            &&& refund == c
            &&& v2.balance_of(user) == v.balance_of(user)
            &&& !is_member(left(g1, user).members, user)
            &&& contribution_of(left(g1, user), other) == contribution_of(v.groups[id as int], other)
            &&& v2.users[other] == v.users[other]
        }),
{
    let g = v.groups[id as int];
    assert(group_wf(g));
    let k = member_index(g.members, user);
    let g1 = contributed(g, user, c as int);
    assert(g1.members[k].member == user);
    assert forall|a: int, b: int| 0 <= a < b < g1.members.len() implies
        #[trigger] g1.members[a].member != #[trigger] g1.members[b].member by {
        assert(g.members[a].member != g.members[b].member);
    }
    lemma_member_index_unique(g1.members, user, k);
    let rest = g1.members.remove(k);
    assert forall|j: int| 0 <= j < rest.len() implies #[trigger] rest[j].member != user by {
        if j < k {
            assert(rest[j] == g1.members[j]);
        } else {
            assert(rest[j] == g1.members[j + 1]);
        }
    }
    if is_member(rest, other) {
        let j = member_index(rest, other);
        let j0 = if j < k { j } else { j + 1 };
        assert(rest[j] == g1.members[j0]);
        assert(g1.members[j0] == g.members[j0]);
        lemma_member_index_unique(g.members, other, j0);
    } else if is_member(g.members, other) {
        let j0 = member_index(g.members, other);
        assert(j0 != k);
        let j = if j0 < k { j0 } else { j0 - 1 };
        assert(rest[j] == g1.members[j0]);
    }
}

/// Spending all of one's points leaves zero; spending none or more than one has is
/// refused; spending never changes lifetime deposits or the streak.
pub proof fn lemma_redeem_laws(v: LedgerView, user: UserId, amount: u128)
    ensures
        !v.paused ==> rewards_of(redeemed(v, user, rewards_of(v, user).total_points), user).total_points == 0,
        redeem_error(v, user, 0).is_some(),
        amount > rewards_of(v, user).total_points ==> redeem_error(v, user, amount).is_some(),
        !v.paused ==> redeem_error(v, user, 0) == Some(SavingsError::InvalidAmount),
        !v.paused && amount > rewards_of(v, user).total_points
            ==> redeem_error(v, user, amount) == Some(SavingsError::InsufficientBalance),
        rewards_of(redeemed(v, user, amount), user).lifetime_deposited == rewards_of(v, user).lifetime_deposited,
        rewards_of(redeemed(v, user, amount), user).current_streak == rewards_of(v, user).current_streak,
{
}

/// While the ledger is paused every user write operation is refused with
/// `ContractPaused`, and pausing then unpausing gives back the ledger as it was.
pub proof fn lemma_pause_gate(v: LedgerView, user: UserId, id: u64, amount: i128, points: u128, days: u64, interval: u64, now: u64)
    requires
        v.paused,
    ensures
        deposit_error(v, user, amount as int) == Some(SavingsError::ContractPaused),
        withdraw_error(v, user, amount as int) == Some(SavingsError::ContractPaused),
        create_goal_error(v, user, amount as int, amount as int) == Some(SavingsError::ContractPaused),
        deposit_goal_error(v, user, id, amount as int) == Some(SavingsError::ContractPaused),
        withdraw_goal_error(v, user, id) == Some(SavingsError::ContractPaused),
        break_goal_error(v, user, id) == Some(SavingsError::ContractPaused),
        create_lock_error(v, user, amount as int, days, now) == Some(SavingsError::ContractPaused),
        withdraw_lock_error(v, user, id, now) == Some(SavingsError::ContractPaused),
        create_group_error(v, user, amount as int, amount as int) == Some(SavingsError::ContractPaused),
        join_group_error(v, user, id) == Some(SavingsError::ContractPaused),
        contribute_error(v, user, id, amount as int) == Some(SavingsError::ContractPaused),
        break_group_error(v, user, id) == Some(SavingsError::ContractPaused),
        create_autosave_error(v, user, amount as int, interval) == Some(SavingsError::ContractPaused),
        execute_autosave_error(v, id, now) == Some(SavingsError::ContractPaused),
        cancel_autosave_error(v, user, id) == Some(SavingsError::ContractPaused),
        redeem_error(v, user, points) == Some(SavingsError::ContractPaused),
{
}

/// Pausing and then unpausing an active ledger gives it back unchanged, so a
/// redemption afterwards has the same outcome as without the pause.
pub proof fn lemma_pause_round_trip(v: LedgerView, user: UserId, amount: u128)
    requires
        !v.paused,
    ensures
        ({
            let w = LedgerView { paused: false, ..(LedgerView { paused: true, ..v }) };
            &&& w == v
            &&& redeem_error(w, user, amount) == redeem_error(v, user, amount)
            &&& redeemed(w, user, amount) == redeemed(v, user, amount)
        }),
{
}

proof fn lemma_entries_contain(v: LedgerView, users: Seq<UserId>, k: int)
    requires
        0 <= k < users.len(),
        points_of(v, users[k]) > 0,
    ensures
        has_entry(entries_of(v, users), users[k]),
    decreases users.len(),
{
    let e = entries_of(v, users);
    if k == users.len() - 1 {
        assert(e.last().0 == users[k]);
        assert(e[e.len() - 1].0 == users[k]);
    } else {
        lemma_entries_contain(v, users.drop_last(), k);
        let e0 = entries_of(v, users.drop_last());
        let j = choose|j: int| 0 <= j < e0.len() && #[trigger] e0[j].0 == users[k];
        assert(e[j] == e0[j]);
    }
}

proof fn lemma_first_below(e: Seq<(UserId, u128)>, user: UserId, k: int)
    requires
        0 <= k < e.len(),
        e[k].0 == user,
    ensures
        exists|f: int| 0 <= f < e.len() && e[f].0 == user && forall|j: int| 0 <= j < f ==> #[trigger] e[j].0 != user,
    decreases k,
{
    if exists|j: int| 0 <= j < k && #[trigger] e[j].0 == user {
        let j = choose|j: int| 0 <= j < k && #[trigger] e[j].0 == user;
        lemma_first_below(e, user, j);
    } else {
        assert(forall|j: int| 0 <= j < k ==> #[trigger] e[j].0 != user);
    }
}

proof fn lemma_first_entry_exists(e: Seq<(UserId, u128)>, user: UserId)
    requires
        has_entry(e, user),
    ensures
        ({
            let f = first_entry(e, user);
            &&& 0 <= f < e.len()
            &&& e[f].0 == user
        }),
{
    let k = choose|k: int| 0 <= k < e.len() && #[trigger] e[k].0 == user;
    lemma_first_below(e, user, k);
}

/// A leaderboard lists users by points, most first, ties in tracking order; a user's
/// rank is their 1-based place on it; and a user of the ranking population has a rank
/// exactly when they hold points.
#[verifier::rlimit(50)]
pub proof fn lemma_ranking_consistent(v: LedgerView, limit: u32, top: Seq<(UserId, u128)>, user: UserId)
    requires
        is_top_users(v, limit, top),
    ensures
        forall|a: int, b: int| 0 <= a < b < top.len() ==> #[trigger] top[a].1 >= #[trigger] top[b].1,
        forall|i: int, j: int|
            0 <= i < ranking_entries(v).len() && 0 <= j < ranking_entries(v).len() && i != j
            ==> (rank_position(ranking_entries(v), i) < rank_position(ranking_entries(v), j)
                <==> #[trigger] precedes(ranking_entries(v), i, j)),
        rank_of(v, user) > 0 && rank_of(v, user) <= top.len() ==> top[rank_of(v, user) - 1].0 == user,
        ranking_pool(v).contains(user) ==> (rank_of(v, user) > 0 <==> points_of(v, user) > 0),
{
    let e = ranking_entries(v);
    assert forall|a: int, b: int| 0 <= a < b < top.len() implies #[trigger] top[a].1 >= #[trigger] top[b].1 by {
        assert(place_filled(e, a));
        assert(place_filled(e, b));
        let i = choose|i: int| 0 <= i < e.len() && rank_position(e, i) == a;
        let j = choose|j: int| 0 <= j < e.len() && rank_position(e, j) == b;
        lemma_positions_ordered(e, i, j);
    }
    assert forall|i: int, j: int| 0 <= i < e.len() && 0 <= j < e.len() && i != j implies
        (rank_position(e, i) < rank_position(e, j) <==> #[trigger] precedes(e, i, j)) by {
        lemma_positions_ordered(e, i, j);
    }
    if rank_of(v, user) > 0 {
        lemma_first_entry_exists(e, user);
    }
    if ranking_pool(v).contains(user) && points_of(v, user) > 0 {
        let k = choose|k: int| 0 <= k < ranking_pool(v).len() && ranking_pool(v)[k] == user;
        lemma_entries_contain(v, ranking_pool(v), k);
    }
    if ranking_pool(v).contains(user) && rank_of(v, user) > 0 {
        lemma_first_entry_exists(e, user);
        lemma_entry_points(v, ranking_pool(v), first_entry(e, user));
    }
}

/// Ranking details are absent exactly for a user without points.
pub proof fn lemma_ranking_details_iff_points(v: LedgerView, user: UserId)
    ensures
        ranking_details_of(v, user).is_none() <==> points_of(v, user) == 0,
{
}

proof fn lemma_entry_points(v: LedgerView, users: Seq<UserId>, j: int)
    requires
        0 <= j < entries_of(v, users).len(),
    ensures
        entries_of(v, users)[j].1 == points_of(v, entries_of(v, users)[j].0),
        points_of(v, entries_of(v, users)[j].0) > 0,
    decreases users.len(),
{
    if users.len() > 0 {
        let e0 = entries_of(v, users.drop_last());
        if j < e0.len() {
            lemma_entry_points(v, users.drop_last(), j);
        }
    }
}

} // verus!
