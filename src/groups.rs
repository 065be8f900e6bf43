use vstd::prelude::*;
use crate::errors::SavingsError;
use crate::ledger::{group_wf, members_total, LedgerView, NesteraContract};
use crate::types::{GroupMember, GroupSave, GroupView, UserId};

verus! {

broadcast use vstd::std_specs::hash::group_hash_axioms;

pub open spec fn is_member(s: Seq<GroupMember>, user: UserId) -> bool {
    exists|k: int| 0 <= k < s.len() && #[trigger] s[k].member == user
}

/// Where `user` stands among the members of a pool (meaningful when a member).
pub open spec fn member_index(s: Seq<GroupMember>, user: UserId) -> int {
    choose|k: int| 0 <= k < s.len() && #[trigger] s[k].member == user
}

/// What `user` has contributed to a pool, zero for a non-member.
pub open spec fn contribution_of(g: GroupView, user: UserId) -> int {
    if is_member(g.members, user) {
        g.members[member_index(g.members, user)].contributed as int
    } else {
        0
    }
}

pub proof fn lemma_total_push(s: Seq<GroupMember>, m: GroupMember)
    ensures
        members_total(s.push(m)) == members_total(s) + m.contributed,
{
    assert(s.push(m).drop_last() == s);
}

pub proof fn lemma_total_update(s: Seq<GroupMember>, k: int, m: GroupMember)
    requires
        0 <= k < s.len(),
    ensures
        members_total(s.update(k, m)) == members_total(s) - s[k].contributed + m.contributed,
    decreases s.len(),
{
    if k == s.len() - 1 {
        assert(s.update(k, m).drop_last() == s.drop_last());
    } else {
        assert(s.update(k, m).drop_last() == s.drop_last().update(k, m));
        lemma_total_update(s.drop_last(), k, m);
    }
}

pub proof fn lemma_total_remove(s: Seq<GroupMember>, k: int)
    requires
        0 <= k < s.len(),
    ensures
        members_total(s.remove(k)) == members_total(s) - s[k].contributed,
    decreases s.len(),
{
    if k == s.len() - 1 {
        assert(s.remove(k) == s.drop_last());
    } else {
        assert(s.remove(k).drop_last() == s.drop_last().remove(k));
        lemma_total_remove(s.drop_last(), k);
    }
}

pub proof fn lemma_total_bounds(s: Seq<GroupMember>, k: int)
    requires
        0 <= k < s.len(),
        forall|j: int| 0 <= j < s.len() ==> #[trigger] s[j].contributed >= 0,
    ensures
        0 <= s[k].contributed <= members_total(s),
    decreases s.len(),
{
    lemma_total_nonneg(s.drop_last());
    if k < s.len() - 1 {
        lemma_total_bounds(s.drop_last(), k);
    }
}

pub proof fn lemma_total_nonneg(s: Seq<GroupMember>)
    requires
        forall|j: int| 0 <= j < s.len() ==> #[trigger] s[j].contributed >= 0,
    ensures
        members_total(s) >= 0,
    decreases s.len(),
{
    if s.len() > 0 {
        lemma_total_nonneg(s.drop_last());
    }
}

pub open spec fn create_group_error(v: LedgerView, creator: UserId, target: int, contribution: int) -> Option<SavingsError> {
    if v.paused {
        Some(SavingsError::ContractPaused)
    } else if target <= 0 || contribution <= 0 {
        Some(SavingsError::InvalidAmount)
    } else if !v.users.contains_key(creator) {
        Some(SavingsError::UserNotFound)
    } else if v.users[creator].savings_count == u32::MAX {
        Some(SavingsError::Overflow)
    } else {
        None
    }
}

pub open spec fn join_group_error(v: LedgerView, user: UserId, id: u64) -> Option<SavingsError> {
    if v.paused {
        Some(SavingsError::ContractPaused)
    } else if id >= v.groups.len() {
        Some(SavingsError::PlanNotFound)
    } else if !v.users.contains_key(user) {
        Some(SavingsError::UserNotFound)
    } else if v.groups[id as int].is_completed {
        Some(SavingsError::InvalidState)
    } else if is_member(v.groups[id as int].members, user) {
        Some(SavingsError::AlreadyMember)
    } else if !v.groups[id as int].is_public {
        Some(SavingsError::Unauthorized)
    } else {
        None
    }
}

/// The checks shared by a member's operations on a pool.
pub open spec fn member_access_error(v: LedgerView, user: UserId, id: u64) -> Option<SavingsError> {
    if v.paused {
        Some(SavingsError::ContractPaused)
    } else if id >= v.groups.len() {
        Some(SavingsError::PlanNotFound)
    } else if !is_member(v.groups[id as int].members, user) {
        Some(SavingsError::NonMember)
    } else if !v.users.contains_key(user) {
        Some(SavingsError::UserNotFound)
    } else if v.groups[id as int].is_completed {
        Some(SavingsError::InvalidState)
    } else {
        None
    }
}

pub open spec fn contribute_error(v: LedgerView, user: UserId, id: u64, amount: int) -> Option<SavingsError> {
    if member_access_error(v, user, id).is_some() {
        member_access_error(v, user, id)
    } else if amount <= 0 {
        Some(SavingsError::InvalidAmount)
    } else if v.balance_of(user) < amount {
        Some(SavingsError::InsufficientBalance)
    } else if v.groups[id as int].current_amount + amount > i128::MAX {
        Some(SavingsError::Overflow)
    } else {
        None
    }
}

pub open spec fn break_group_error(v: LedgerView, user: UserId, id: u64) -> Option<SavingsError> {
    if member_access_error(v, user, id).is_some() {
        member_access_error(v, user, id)
    } else if v.balance_of(user) + contribution_of(v.groups[id as int], user) > i128::MAX {
        Some(SavingsError::Overflow)
    } else {
        None
    }
}

/// A pool after `user` put in `amount` more.
pub open spec fn contributed(g: GroupView, user: UserId, amount: int) -> GroupView {
    let k = member_index(g.members, user);
    GroupView {
        members: g.members.update(k, GroupMember {
            member: user,
            contributed: (g.members[k].contributed + amount) as i128,
        }),
        current_amount: g.current_amount + amount,
        is_completed: g.current_amount + amount >= g.target_amount,
        ..g
    }
}

/// A pool after `user` left it with a refund.
pub open spec fn left(g: GroupView, user: UserId) -> GroupView {
    let k = member_index(g.members, user);
    GroupView {
        members: g.members.remove(k),
        current_amount: g.current_amount - g.members[k].contributed,
        ..g
    }
}

impl NesteraContract {
    /// Finds where `user` stands among the members of pool `i`.
    fn find_member(&self, i: usize, user: UserId) -> (r: Option<usize>)
        requires
            self@.wf(),
            i < self.groups.len(),
        ensures
            match r {
                Some(k) => is_member(self@.groups[i as int].members, user)
                    && k == member_index(self@.groups[i as int].members, user),
                None => !is_member(self@.groups[i as int].members, user),
            },
    {
        let ghost g = self@.groups[i as int];
        assert(group_wf(g));
        let n = self.groups[i].members.len();
        let mut k: usize = 0;
        while k < n
            invariant
                self@.groups[i as int] == g,
                group_wf(g),
                i < self.groups.len(),
                n == self.groups[i as int].members.len(),
                g.members == self.groups[i as int].members@,
                k <= n,
                forall|j: int| 0 <= j < k ==> g.members[j].member != user,
            decreases n - k,
        {
            if self.groups[i].members[k].member == user {
                proof {
                    assert(g.members[k as int].member == user);
                    let c = member_index(g.members, user);
                    assert(g.members[c].member == user);
                    assert(c == k);
                }
                return Some(k);
            }
            k = k + 1;
        }
        None
    }

    /// Opens a pool with its creator as first member. Returns the id of the new pool.
    pub fn create_group_save(
        &mut self,
        creator: UserId,
        title: String,
        description: String,
        category: String,
        target_amount: i128,
        contribution_type: u32,
        contribution_amount: i128,
        is_public: bool,
        start_time: u64,
        end_time: u64,
    ) -> (r: Result<u64, SavingsError>)
        requires
            old(self)@.wf(),
        ensures
            final(self)@.wf(),
            match r {
                Ok(id) => create_group_error(old(self)@, creator, target_amount as int, contribution_amount as int).is_none()
                    && id == old(self)@.groups.len()
                    && final(self)@ == (LedgerView {
                        groups: old(self)@.groups.push(GroupView {
                            id,
                            creator,
                            title,
                            description,
                            category,
                            target_amount: target_amount as int,
                            current_amount: 0,
                            contribution_type,
                            contribution_amount,
                            is_public,
                            start_time,
                            end_time,
                            is_completed: false,
                            members: seq![GroupMember { member: creator, contributed: 0 }],
                        }),
                        ..old(self)@.with_plan_opened(creator, old(self)@.balance_of(creator))
                    }),
                Err(e) => create_group_error(old(self)@, creator, target_amount as int, contribution_amount as int) == Some(e)
                    && final(self)@ == old(self)@,
            },
    {
        if self.paused {
            return Err(SavingsError::ContractPaused);
        }
        if target_amount <= 0 || contribution_amount <= 0 {
            return Err(SavingsError::InvalidAmount);
        }
        let account = match self.users.get(&creator) {
            Some(a) => *a,
            None => return Err(SavingsError::UserNotFound),
        };
        if account.savings_count == u32::MAX {
            return Err(SavingsError::Overflow);
        }
        self.store_plan_opened(creator, account.total_balance);
        let id = self.groups.len() as u64;
        let mut members: Vec<GroupMember> = Vec::new();
        members.push(GroupMember { member: creator, contributed: 0 });
        let group = GroupSave {
            id,
            creator,
            title,
            description,
            category,
            target_amount,
            current_amount: 0,
            contribution_type,
            contribution_amount,
            is_public,
            start_time,
            end_time,
            is_completed: false,
            members,
        };
        proof {
            assert(group@.members =~= seq![GroupMember { member: creator, contributed: 0 }]);
            lemma_total_push(Seq::empty(), GroupMember { member: creator, contributed: 0 });
            assert(Seq::<GroupMember>::empty().push(GroupMember { member: creator, contributed: 0 }) == group@.members);
        }
        let ghost before = self.groups@;
        self.groups.push(group);
        proof {
            assert(self.groups@.map_values(|g: GroupSave| g@) =~= before.map_values(|g: GroupSave| g@).push(group@));
        }
        Ok(id)
    }

    /// Adds `user` to an open public pool with nothing contributed yet.
    pub fn join_group_save(&mut self, user: UserId, group_id: u64) -> (r: Result<(), SavingsError>)
        requires
            old(self)@.wf(),
        ensures
            final(self)@.wf(),
            match r {
                Ok(_) => join_group_error(old(self)@, user, group_id).is_none()
                    && final(self)@ == (LedgerView {
                        groups: old(self)@.groups.update(group_id as int, GroupView {
                            members: old(self)@.groups[group_id as int].members.push(
                                GroupMember { member: user, contributed: 0 },
                            ),
                            ..old(self)@.groups[group_id as int]
                        }),
                        ..old(self)@
                    }),
                Err(e) => join_group_error(old(self)@, user, group_id) == Some(e) && final(self)@ == old(self)@,
            },
    {
        if self.paused {
            return Err(SavingsError::ContractPaused);
        }
        if group_id >= self.groups.len() as u64 {
            return Err(SavingsError::PlanNotFound);
        }
        if !self.users.contains_key(&user) {
            return Err(SavingsError::UserNotFound);
        }
        let i = group_id as usize;
        if self.groups[i].is_completed {
            return Err(SavingsError::InvalidState);
        }
        if self.find_member(i, user).is_some() {
            return Err(SavingsError::AlreadyMember);
        }
        if !self.groups[i].is_public {
            return Err(SavingsError::Unauthorized);
        }
        let ghost before = self.groups@;
        let ghost g = self@.groups[i as int];
        proof {
            assert(group_wf(g));
            lemma_total_push(g.members, GroupMember { member: user, contributed: 0 });
        }
        self.groups[i].members.push(GroupMember { member: user, contributed: 0 });
        proof {
            let g2 = GroupView { members: g.members.push(GroupMember { member: user, contributed: 0 }), ..g };
            assert(self.groups@[i as int]@ == g2);
            assert(self.groups@.map_values(|g: GroupSave| g@) =~= before.map_values(|g: GroupSave| g@).update(i as int, g2));
            assert(group_wf(g2));
        }
        Ok(())
    }

    /// Moves `amount` of a member's flexi balance into a pool; the pool completes once
    /// it holds its target.
    pub fn contribute_to_group_save(&mut self, user: UserId, group_id: u64, amount: i128) -> (r: Result<(), SavingsError>)
        requires
            old(self)@.wf(),
        ensures
            final(self)@.wf(),
            match r {
                Ok(_) => contribute_error(old(self)@, user, group_id, amount as int).is_none()
                    && final(self)@ == (LedgerView {
                        groups: old(self)@.groups.update(
                            group_id as int,
                            contributed(old(self)@.groups[group_id as int], user, amount as int),
                        ),
                        ..old(self)@.with_balance(user, old(self)@.balance_of(user) - amount)
                    }),
                Err(e) => contribute_error(old(self)@, user, group_id, amount as int) == Some(e)
                    && final(self)@ == old(self)@,
            },
    {
        if self.paused {
            return Err(SavingsError::ContractPaused);
        }
        if group_id >= self.groups.len() as u64 {
            return Err(SavingsError::PlanNotFound);
        }
        let i = group_id as usize;
        let k = match self.find_member(i, user) {
            Some(k) => k,
            None => return Err(SavingsError::NonMember),
        };
        let balance = match self.users.get(&user) {
            Some(a) => a.total_balance,
            None => return Err(SavingsError::UserNotFound),
        };
        if self.groups[i].is_completed {
            return Err(SavingsError::InvalidState);
        }
        if amount <= 0 {
            return Err(SavingsError::InvalidAmount);
        }
        if balance < amount {
            return Err(SavingsError::InsufficientBalance);
        }
        let current = match self.groups[i].current_amount.checked_add(amount) {
            Some(c) => c,
            None => return Err(SavingsError::Overflow),
        };
        let ghost g = self@.groups[i as int];
        proof {
            assert(group_wf(g));
            lemma_total_bounds(g.members, k as int);
        }
        self.store_balance(user, balance - amount);
        let ghost before = self.groups@;
        let completed = current >= self.groups[i].target_amount;
        let share = self.groups[i].members[k].contributed + amount;
        self.groups[i].members.set(k, GroupMember { member: user, contributed: share });
        self.groups[i].current_amount = current;
        self.groups[i].is_completed = completed;
        proof {
            let g2 = contributed(g, user, amount as int);
            lemma_total_update(g.members, k as int, GroupMember { member: user, contributed: share });
            assert(self.groups@[i as int]@.members == g2.members);
            assert(self.groups@[i as int]@ == g2);
            assert(self.groups@.map_values(|g: GroupSave| g@) =~= before.map_values(|g: GroupSave| g@).update(i as int, g2));
            assert forall|a: int, b: int| 0 <= a < b < g2.members.len() implies
                #[trigger] g2.members[a].member != #[trigger] g2.members[b].member by {
                assert(g.members[a].member != g.members[b].member);
            }
            assert(group_wf(g2));
        }
        Ok(())
    }

    /// A member leaves a pool that has not reached its target and gets exactly what they
    /// contributed back on their flexi balance. Returns the refund.
    pub fn break_group_save(&mut self, user: UserId, group_id: u64) -> (r: Result<i128, SavingsError>)
        requires
            old(self)@.wf(),
        ensures
            final(self)@.wf(),
            match r {
                Ok(refund) => break_group_error(old(self)@, user, group_id).is_none()
                    && refund == contribution_of(old(self)@.groups[group_id as int], user)
                    && final(self)@ == (LedgerView {
                        groups: old(self)@.groups.update(group_id as int, left(old(self)@.groups[group_id as int], user)),
                        ..old(self)@.with_balance(user, old(self)@.balance_of(user) + refund)
                    }),
                Err(e) => break_group_error(old(self)@, user, group_id) == Some(e) && final(self)@ == old(self)@,
            },
    {
        if self.paused {
            return Err(SavingsError::ContractPaused);
        }
        if group_id >= self.groups.len() as u64 {
            return Err(SavingsError::PlanNotFound);
        }
        let i = group_id as usize;
        let k = match self.find_member(i, user) {
            Some(k) => k,
            None => return Err(SavingsError::NonMember),
        };
        let balance = match self.users.get(&user) {
            Some(a) => a.total_balance,
            None => return Err(SavingsError::UserNotFound),
        };
        if self.groups[i].is_completed {
            return Err(SavingsError::InvalidState);
        }
        let refund = self.groups[i].members[k].contributed;
        let new_balance = match balance.checked_add(refund) {
            Some(b) => b,
            None => return Err(SavingsError::Overflow),
        };
        let ghost g = self@.groups[i as int];
        proof {
            assert(group_wf(g));
            lemma_total_bounds(g.members, k as int);
            lemma_total_remove(g.members, k as int);
        }
        self.store_balance(user, new_balance);
        let ghost before = self.groups@;
        let current = self.groups[i].current_amount - refund;
        let _ = self.groups[i].members.remove(k);
        self.groups[i].current_amount = current;
        proof {
            let g2 = left(g, user);
            assert(self.groups@[i as int]@.members == g2.members);
            assert(self.groups@[i as int]@ == g2);
            assert(self.groups@.map_values(|g: GroupSave| g@) =~= before.map_values(|g: GroupSave| g@).update(i as int, g2));
            assert forall|c: int| 0 <= c < g2.members.len() implies #[trigger] g2.members[c].contributed >= 0 by {
                if c < k {
                    assert(g2.members[c] == g.members[c]);
                } else {
                    assert(g2.members[c] == g.members[c + 1]);
                }
            }
            assert forall|a: int, b: int| 0 <= a < b < g2.members.len() implies
                #[trigger] g2.members[a].member != #[trigger] g2.members[b].member by {
                let a0 = if a < k { a } else { a + 1 };
                let b0 = if b < k { b } else { b + 1 };
                assert(g2.members[a] == g.members[a0]);
                assert(g2.members[b] == g.members[b0]);
                assert(g.members[a0].member != g.members[b0].member);
            }
            assert(group_wf(g2));
        }
        Ok(refund)
    }

    /// The pool with id `group_id`.
    pub fn get_group_save_detail(&self, group_id: u64) -> (r: Result<&GroupSave, SavingsError>)
        ensures
            group_id < self.groups@.len() ==> r == Ok::<&GroupSave, SavingsError>(&self.groups@[group_id as int]),
            group_id >= self.groups@.len() ==> r == Err::<&GroupSave, SavingsError>(SavingsError::PlanNotFound),
    {
        if group_id >= self.groups.len() as u64 {
            return Err(SavingsError::PlanNotFound);
        }
        Ok(&self.groups[group_id as usize])
    }
}

} // verus!
