use vstd::prelude::*;

verus! {

/// Basis points in one whole.
pub const BPS_DENOMINATOR: u64 = 10_000;

/// Prorated annual interest on a flexible balance, rounded down; a year is 365 days.
pub open spec fn flexi_interest(balance: int, rate_bps: int, elapsed: int) -> int {
    (balance * rate_bps * elapsed) / (10_000int * 31_536_000int)
}

/// Flat interest of a lock plan for its whole term, rounded down.
pub open spec fn lock_interest(amount: int, rate_bps: int) -> int {
    (amount * rate_bps) / 10_000
}

/// Interest earned by `balance` at `rate_bps` over `elapsed_seconds`.
pub fn calculate_flexi_interest(balance: i128, rate_bps: u32, elapsed_seconds: u64) -> (r: i128)
    requires
        0 <= balance,
        balance * rate_bps * elapsed_seconds <= i128::MAX,
    ensures
        r == flexi_interest(balance as int, rate_bps as int, elapsed_seconds as int),
{
    if elapsed_seconds == 0 {
        return 0;
    }
    proof {
        assert(0 <= balance * rate_bps) by (nonlinear_arith) requires 0 <= balance;
        assert(balance * rate_bps <= balance * rate_bps * elapsed_seconds)
            by (nonlinear_arith) requires 0 <= balance * rate_bps, elapsed_seconds >= 1;
    }
    let numerator = balance * (rate_bps as i128) * (elapsed_seconds as i128);
    numerator / (10_000i128 * 31_536_000i128)
}

/// Flat interest of a lock plan: `amount * rate_bps / 10000`.
pub fn calculate_lock_interest(amount: i128, rate_bps: u32) -> (r: i128)
    requires
        0 <= amount,
        amount * rate_bps <= i128::MAX,
    ensures
        r == lock_interest(amount as int, rate_bps as int),
        0 <= r,
{
    proof {
        assert(0 <= amount * rate_bps) by (nonlinear_arith) requires 0 <= amount;
    }
    amount * (rate_bps as i128) / (BPS_DENOMINATOR as i128)
}

/// Halving an even elapsed time halves the flexible interest (both rounded down).
pub proof fn lemma_flexi_interest_halves(balance: int, rate_bps: int, elapsed: int)
    requires
        0 <= balance,
        0 <= rate_bps,
        0 <= elapsed,
        elapsed % 2 == 0,
    ensures
        flexi_interest(balance, rate_bps, elapsed / 2) == flexi_interest(balance, rate_bps, elapsed) / 2,
{
    let k: int = 10_000int * 31_536_000int;
    let a = balance * rate_bps * elapsed;
    assert(balance * rate_bps * (elapsed / 2) == a / 2 && a % 2 == 0) by (nonlinear_arith)
        requires elapsed % 2 == 0, a == balance * rate_bps * elapsed;
    assert(0 <= a) by (nonlinear_arith) requires 0 <= balance, 0 <= rate_bps, 0 <= elapsed, a == balance * rate_bps * elapsed;
    assert((a / 2) / k == (a / k) / 2) by (nonlinear_arith) requires 0 <= a, k > 0;
}

} // verus!
