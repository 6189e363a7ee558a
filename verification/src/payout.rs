//! The payout calculator.
//!
//! A finalized round pays each winner a share of the pool proportional to
//! their stake in the winning bin, net of a flat 3% fee, and never less
//! than their own stake. All divisions truncate toward zero (the operands
//! are non-negative). The stake floor can make the sum of all winners'
//! payouts exceed the net pool when truncation losses are large relative
//! to small stakes; that behaviour is deliberate.

use vstd::prelude::*;
use vstd::arithmetic::div_mod::{lemma_div_is_ordered, lemma_div_multiples_vanish};
use vstd::arithmetic::mul::{lemma_mul_inequality, lemma_mul_upper_bound, lemma_mul_nonnegative};

verus! {

/// The largest pool a round may hold. Bounding the pool keeps every
/// intermediate product of the payout arithmetic inside 128 bits.
pub const MAX_POOL_AMOUNT: i128 = 3_000_000_000_000_000_000;

/// The pool net of the flat 3% protocol fee.
pub open spec fn spec_net_pool(pool: int) -> int {
    pool * 97 / 100
}

/// The proportional share of the net pool owed on a stake of `stake` in a
/// winning bin holding `bin_total` in all.
pub open spec fn spec_raw_payout(stake: int, pool: int, bin_total: int) -> int {
    stake * spec_net_pool(pool) / bin_total
}

/// The amount actually paid: the proportional share, but never less than
/// the winner's own stake.
pub open spec fn spec_final_payout(stake: int, pool: int, bin_total: int) -> int {
    if spec_raw_payout(stake, pool, bin_total) < stake {
        stake
    } else {
        spec_raw_payout(stake, pool, bin_total)
    }
}

/// A winner is never paid less than their own stake, whatever the pool and
/// bin totals are.
pub proof fn lemma_payout_at_least_stake(stake: int, pool: int, bin_total: int)
    ensures
        spec_final_payout(stake, pool, bin_total) >= stake,
{
}

/// On a bounded pool, the payout lies between the winner's stake and the
/// pool bound: the proportional share never exceeds the net pool.
pub proof fn lemma_final_payout_bounds(stake: int, pool: int, bin_total: int)
    requires
        0 < stake <= bin_total <= pool <= MAX_POOL_AMOUNT,
    ensures
        stake <= spec_final_payout(stake, pool, bin_total) <= MAX_POOL_AMOUNT,
{
    let net = spec_net_pool(pool);
    assert(0 <= net <= pool);
    lemma_mul_inequality(stake, bin_total, net);
    lemma_div_is_ordered(stake * net, bin_total * net, bin_total);
    lemma_div_multiples_vanish(net, bin_total);
    assert(spec_raw_payout(stake, pool, bin_total) <= net);
}

/// Compute the payout owed on `stake` out of a pool of `pool` whose
/// winning bin holds `bin_total`.
pub fn compute_payout(stake: i128, pool: i128, bin_total: i128) -> (payout: i128)
    requires
        0 < stake <= bin_total <= pool <= MAX_POOL_AMOUNT,
    ensures
        payout == spec_final_payout(stake as int, pool as int, bin_total as int),
        payout >= stake,
{
    let pool_u = pool as u128;
    let stake_u = stake as u128;
    let bin_total_u = bin_total as u128;
    let net_pool: u128 = pool_u * 97 / 100;
    proof {
        assert(net_pool == spec_net_pool(pool as int));
        assert(net_pool <= pool_u);
        lemma_mul_nonnegative(stake as int, net_pool as int);
        lemma_mul_upper_bound(
            stake as int,
            MAX_POOL_AMOUNT as int,
            net_pool as int,
            MAX_POOL_AMOUNT as int,
        );
    }
    let scaled: u128 = stake_u * net_pool;
    let raw: u128 = scaled / bin_total_u;
    proof {
        lemma_mul_inequality(stake as int, bin_total as int, net_pool as int);
        lemma_div_is_ordered(
            stake as int * net_pool as int,
            bin_total as int * net_pool as int,
            bin_total as int,
        );
        lemma_div_multiples_vanish(net_pool as int, bin_total as int);
        assert(raw <= net_pool);
        assert(raw == spec_raw_payout(stake as int, pool as int, bin_total as int));
    }
    if raw < stake_u {
        stake
    } else {
        raw as i128
    }
}

} // verus!
