use vstd::prelude::*;
use vstd::set_lib::{lemma_int_range, lemma_map_size, lemma_subset_equality, set_int_range};
use crate::ledger::{LedgerView, NesteraContract};
use crate::rewards::{get_user_rewards, rewards_of};
use crate::types::UserId;

verus! {

/// At most this many tracked users take part in any ranking.
pub const MAX_RANKING_USERS: u32 = 1000;

pub open spec fn points_of(v: LedgerView, user: UserId) -> u128 {
    rewards_of(v, user).total_points
}

/// The tracked users that rankings consider: the first `MAX_RANKING_USERS` of them.
pub open spec fn ranking_pool(v: LedgerView) -> Seq<UserId> {
    if v.ranked_users.len() <= MAX_RANKING_USERS {
        v.ranked_users
    } else {
        v.ranked_users.take(MAX_RANKING_USERS as int)
    }
}

/// The users of `users` that hold points, with their points, in the order of `users`.
pub open spec fn entries_of(v: LedgerView, users: Seq<UserId>) -> Seq<(UserId, u128)>
    decreases users.len(),
{
    if users.len() == 0 {
        Seq::empty()
    } else if points_of(v, users.last()) > 0 {
        entries_of(v, users.drop_last()).push((users.last(), points_of(v, users.last())))
    } else {
        entries_of(v, users.drop_last())
    }
}

/// The entries of a ranking, in tracking order.
pub open spec fn ranking_entries(v: LedgerView) -> Seq<(UserId, u128)> {
    entries_of(v, ranking_pool(v))
}

/// Entry `a` comes before entry `b`: more points, or as many and tracked earlier.
pub open spec fn precedes(e: Seq<(UserId, u128)>, a: int, b: int) -> bool {
    e[a].1 > e[b].1 || (e[a].1 == e[b].1 && a < b)
}

/// How many of the first `m` entries come before entry `i`.
pub open spec fn count_preceding(e: Seq<(UserId, u128)>, i: int, m: nat) -> nat
    decreases m,
{
    if m == 0 {
        0
    } else {
        count_preceding(e, i, (m - 1) as nat) + if precedes(e, m - 1, i) { 1nat } else { 0nat }
    }
}

/// The 0-based place of entry `i` in the ranking.
pub open spec fn rank_position(e: Seq<(UserId, u128)>, i: int) -> nat {
    count_preceding(e, i, e.len())
}

pub open spec fn has_entry(e: Seq<(UserId, u128)>, user: UserId) -> bool {
    exists|k: int| 0 <= k < e.len() && #[trigger] e[k].0 == user
}

/// The first entry of `user`.
pub open spec fn first_entry(e: Seq<(UserId, u128)>, user: UserId) -> int {
    choose|k: int| 0 <= k < e.len() && e[k].0 == user && forall|j: int| 0 <= j < k ==> #[trigger] e[j].0 != user
}

/// A user's 1-based rank, 0 for a user outside the ranking.
pub open spec fn rank_of(v: LedgerView, user: UserId) -> nat {
    let e = ranking_entries(v);
    if has_entry(e, user) {
        rank_position(e, first_entry(e, user)) + 1
    } else {
        0
    }
}

/// Some entry has place `a` in the ranking.
pub open spec fn place_filled(e: Seq<(UserId, u128)>, a: int) -> bool {
    exists|i: int| 0 <= i < e.len() && rank_position(e, i) == a
}

/// `(rank, points, size of the ranking population)`, or `None` for a user without points.
pub open spec fn ranking_details_of(v: LedgerView, user: UserId) -> Option<(u32, u128, u32)> {
    if points_of(v, user) == 0 {
        None
    } else {
        Some((rank_of(v, user) as u32, points_of(v, user), ranking_pool(v).len() as u32))
    }
}

/// What a leaderboard of at most `limit` entries holds: each entry at its place in
/// the ranking, and every place filled.
pub open spec fn is_top_users(v: LedgerView, limit: u32, top: Seq<(UserId, u128)>) -> bool {
    let e = ranking_entries(v);
    &&& top.len() == if limit < e.len() { limit as int } else { e.len() as int }
    &&& forall|i: int| 0 <= i < e.len() && rank_position(e, i) < top.len()
        ==> top[rank_position(e, i) as int] == e[i]
    &&& forall|a: int| 0 <= a < top.len() ==> #[trigger] place_filled(e, a)
}

proof fn lemma_count_bound(e: Seq<(UserId, u128)>, i: int, m: nat)
    ensures
        count_preceding(e, i, m) <= m,
        0 <= i < m ==> count_preceding(e, i, m) < m,
    decreases m,
{
    if m > 0 {
        lemma_count_bound(e, i, (m - 1) as nat);
    }
}

proof fn lemma_count_monotone(e: Seq<(UserId, u128)>, i: int, j: int, m: nat)
    requires
        0 <= i < e.len(),
        0 <= j < e.len(),
        precedes(e, i, j),
    ensures
        count_preceding(e, i, m) + (if i < m { 1nat } else { 0nat }) <= count_preceding(e, j, m),
    decreases m,
{
    if m > 0 {
        lemma_count_monotone(e, i, j, (m - 1) as nat);
    }
}

/// Distinct entries have distinct places, ordered as the entries are.
pub proof fn lemma_positions_ordered(e: Seq<(UserId, u128)>, i: int, j: int)
    requires
        0 <= i < e.len(),
        0 <= j < e.len(),
        i != j,
    ensures
        rank_position(e, i) != rank_position(e, j),
        rank_position(e, i) < rank_position(e, j) <==> precedes(e, i, j),
        rank_position(e, i) < e.len(),
{
    lemma_count_bound(e, i, e.len());
    if precedes(e, i, j) {
        lemma_count_monotone(e, i, j, e.len());
    } else {
        lemma_count_monotone(e, j, i, e.len());
    }
}

/// Every place of the ranking holds some entry.
pub proof fn lemma_positions_cover(e: Seq<(UserId, u128)>, a: int)
    requires
        0 <= a < e.len(),
    ensures
        exists|i: int| 0 <= i < e.len() && rank_position(e, i) == a,
{
    let n = e.len() as int;
    let x = set_int_range(0, n);
    let f = |i: int| rank_position(e, i) as int;
    let y = x.map(f);
    lemma_int_range(0, n);
    assert forall|i: int, j: int| x.contains(i) && x.contains(j) && #[trigger] f(i) == #[trigger] f(j) implies i == j by {
        if i != j {
            lemma_positions_ordered(e, i, j);
        }
    }
    assert(vstd::relations::injective_on(f, x));
    lemma_map_size(x, y, f);
    assert forall|s: int| y.contains(s) implies x.contains(s) by {
        let i = choose|i: int| x.contains(i) && f(i) == s;
        lemma_count_bound(e, i, e.len());
    }
    lemma_subset_equality(y, x);
    assert(x.contains(a));
    assert(y.contains(a));
    let i = choose|i: int| x.contains(i) && f(i) == a;
    assert(0 <= i < e.len() && rank_position(e, i) == a);
}

proof fn lemma_places_filled(e: Seq<(UserId, u128)>, top: Seq<(UserId, u128)>)
    requires
        top.len() <= e.len(),
    ensures
        forall|a: int| 0 <= a < top.len() ==> #[trigger] place_filled(e, a),
{
    assert forall|a: int| 0 <= a < top.len() implies #[trigger] place_filled(e, a) by {
        lemma_positions_cover(e, a);
        let i = choose|i: int| 0 <= i < e.len() && rank_position(e, i) == a;
        assert(0 <= i < e.len() && rank_position(e, i) == a);
    }
}

/// The entries of the ranking, in tracking order.
fn collect_entries(ledger: &NesteraContract) -> (e: Vec<(UserId, u128)>)
    ensures
        e@ == ranking_entries(ledger@),
        e@.len() <= MAX_RANKING_USERS,
{
    let users = &ledger.ranked_users;
    let cap: usize = if users.len() <= 1000 { users.len() } else { 1000 };
    let ghost pool = ranking_pool(ledger@);
    proof {
        assert(pool.len() == cap);
    }
    let mut e: Vec<(UserId, u128)> = Vec::new();
    let mut i: usize = 0;
    while i < cap
        invariant
            cap == pool.len(),
            pool == ranking_pool(ledger@),
            cap <= ledger.ranked_users.len(),
            cap <= 1000,
            i <= cap,
            e@ == entries_of(ledger@, pool.take(i as int)),
            e@.len() <= i,
        decreases cap - i,
    {
        let user = ledger.ranked_users[i];
        proof {
            assert(pool[i as int] == user);
            assert(pool.take(i + 1).drop_last() == pool.take(i as int));
            assert(pool.take(i + 1).last() == user);
        }
        let points = get_user_rewards(ledger, user).total_points;
        if points > 0 {
            e.push((user, points));
        }
        i = i + 1;
    }
    proof {
        assert(pool.take(cap as int) == pool);
    }
    e
}

/// The 0-based place of entry `i` in the ranking.
fn position_in(e: &Vec<(UserId, u128)>, i: usize) -> (r: usize)
    requires
        i < e@.len(),
    ensures
        r == rank_position(e@, i as int),
{
    let mut count: usize = 0;
    let mut j: usize = 0;
    while j < e.len()
        invariant
            i < e@.len(),
            j <= e@.len(),
            count == count_preceding(e@, i as int, j as nat),
            count <= j,
        decreases e.len() - j,
    {
        if e[j].1 > e[i].1 || (e[j].1 == e[i].1 && j < i) {
            count = count + 1;
        }
        j = j + 1;
    }
    count
}

/// The best `limit` users by points, most points first, ties in tracking order.
pub fn get_top_users(ledger: &NesteraContract, limit: u32) -> (top: Vec<(UserId, u128)>)
    ensures
        is_top_users(ledger@, limit, top@),
{
    let e = collect_entries(ledger);
    let n = e.len();
    let len: usize = if (limit as usize) < n { limit as usize } else { n };
    let mut top: Vec<(UserId, u128)> = Vec::new();
    while top.len() < len
        invariant
            len <= n,
            n == e@.len(),
            e@ == ranking_entries(ledger@),
            len == (if limit < e@.len() { limit as int } else { e@.len() as int }),
            top@.len() <= len,
        decreases len - top.len(),
    {
        top.push(e[0]);
    }
    let mut i: usize = 0;
    while i < n
        invariant
            n == e@.len(),
            e@ == ranking_entries(ledger@),
            len == (if limit < e@.len() { limit as int } else { e@.len() as int }),
            len <= n,
            top@.len() == len,
            i <= n,
            forall|k: int| 0 <= k < i && rank_position(e@, k) < len ==> top@[rank_position(e@, k) as int] == e@[k],
        decreases n - i,
    {
        let p = position_in(&e, i);
        if p < len {
            proof {
                assert forall|k: int| 0 <= k < i implies rank_position(e@, k) != p by {
                    lemma_positions_ordered(e@, k, i as int);
                }
            }
            top.set(p, e[i]);
        }
        i = i + 1;
    }
    proof {
        lemma_places_filled(e@, top@);
    }
    top
}

/// A user's 1-based rank by points, 0 when the user has no points or is not tracked.
pub fn get_user_rank(ledger: &NesteraContract, user: UserId) -> (r: u32)
    ensures
        r == rank_of(ledger@, user),
{
    let e = collect_entries(ledger);
    let mut k: usize = 0;
    while k < e.len()
        invariant
            k <= e@.len(),
            e@ == ranking_entries(ledger@),
            e@.len() <= MAX_RANKING_USERS,
            forall|j: int| 0 <= j < k ==> #[trigger] e@[j].0 != user,
        decreases e.len() - k,
    {
        if e[k].0 == user {
            let p = position_in(&e, k);
            proof {
                assert(has_entry(e@, user));
                let ki = k as int;
                assert(0 <= ki < e@.len() && e@[ki].0 == user && forall|j: int| 0 <= j < ki ==> #[trigger] e@[j].0 != user);
                let f = first_entry(e@, user);
                assert(e@[f].0 == user);
                assert(f == k);
                lemma_count_bound(e@, k as int, e@.len());
            }
            return (p + 1) as u32;
        }
        k = k + 1;
    }
    0
}

/// `(rank, points, size of the ranking population)` for a user with points, `None`
/// for a user without. A user with points outside the ranking population has rank 0.
pub fn get_user_ranking_details(ledger: &NesteraContract, user: UserId) -> (r: Option<(u32, u128, u32)>)
    ensures
        r == ranking_details_of(ledger@, user),
{
    let points = get_user_rewards(ledger, user).total_points;
    if points == 0 {
        return None;
    }
    let rank = get_user_rank(ledger, user);
    let total: u32 = if ledger.ranked_users.len() <= 1000 { ledger.ranked_users.len() as u32 } else { 1000 };
    Some((rank, points, total))
}

} // verus!
