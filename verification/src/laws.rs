//! The laws of the market: properties that hold of every reachable state,
//! stated over the contract's outcome functions and proved once and for
//! all. Together with the operation contracts — a failing operation leaves
//! the state exactly as it was — they pin down the behaviours the market
//! promises its users.

use vstd::prelude::*;

use crate::commitment::{sha256_of, winning_bin_of};
use crate::errors::Error;
use crate::market::{TrafficPulseContract, MIN_BET_AMOUNT};
use crate::payout::lemma_final_payout_bounds;
use crate::round::{pool_sum, BIN_COUNT};

verus! {

/// In every consistent state, a round's pool equals the sum of its five
/// bin totals.
pub proof fn lemma_pool_is_sum_of_bins(s: TrafficPulseContract, id: u32)
    requires
        s.wf(),
        s.has_round(id),
    ensures
        s.round_of(id).total_pool == pool_sum(s.round_of(id).bin_totals@),
{
    assert(s.round_entry_ok(id));
}

/// Finalizing is exactly-once: on a round that is already finalized,
/// `finalize_round` fails for every caller and every secret — with
/// `AlreadyFinalized` when the admin calls — and, by its contract, a
/// failing call leaves the whole state, the round's winning bin and its
/// finalized flag unchanged.
pub proof fn lemma_finalize_round_exactly_once(
    s: TrafficPulseContract,
    caller: u64,
    round_id: u32,
    seed: Seq<u8>,
)
    requires
        s.has_round(round_id),
        s.round_of(round_id).finalized,
    ensures
        s.finalize_outcome(caller, round_id, seed) is Err,
        s.spec_admin() == Some(caller) ==> s.finalize_outcome(caller, round_id, seed) == Err::<
            u32,
            Error,
        >(Error::AlreadyFinalized),
{
}

/// Claiming is exactly-once: once a user's claim marker for a round is
/// set, every further `claim` by that user on that round fails with
/// `AlreadyClaimed`, and by its contract leaves the state unchanged.
pub proof fn lemma_claim_exactly_once(s: TrafficPulseContract, user: u64, round_id: u32)
    requires
        s.spec_has_claimed(round_id, user),
    ensures
        s.claim_outcome(user, round_id) == Err::<i128, Error>(Error::AlreadyClaimed),
{
}

/// The winning bin is a function of the revealed secret alone: two
/// successful finalizations with the same secret — from any two states,
/// any rounds, any callers, whatever bets were placed — derive the same
/// winning bin.
pub proof fn lemma_finalize_deterministic(
    s1: TrafficPulseContract,
    s2: TrafficPulseContract,
    caller1: u64,
    caller2: u64,
    id1: u32,
    id2: u32,
    seed: Seq<u8>,
)
    requires
        s1.finalize_outcome(caller1, id1, seed) is Ok,
        s2.finalize_outcome(caller2, id2, seed) is Ok,
    ensures
        s1.finalize_outcome(caller1, id1, seed) == s2.finalize_outcome(caller2, id2, seed),
        s1.finalize_outcome(caller1, id1, seed)->Ok_0 == winning_bin_of(seed),
{
}

/// A revealed secret whose digest differs from the stored commitment is
/// always rejected with `InvalidSeed` when the admin finalizes an
/// existing, not yet finalized round; by the contract of
/// `finalize_round`, the round then stays unfinalized.
pub proof fn lemma_wrong_seed_rejected(
    s: TrafficPulseContract,
    caller: u64,
    round_id: u32,
    seed: Seq<u8>,
)
    requires
        s.spec_admin() == Some(caller),
        s.has_round(round_id),
        !s.round_of(round_id).finalized,
        sha256_of(seed) != s.commitment_of(round_id),
    ensures
        s.finalize_outcome(caller, round_id, seed) == Err::<u32, Error>(Error::InvalidSeed),
{
}

/// The anti-sniping window: an otherwise valid bet placed 181 seconds
/// before the round's end is accepted, and one placed 179 seconds before
/// the end is rejected as `RoundClosed`, although the round has not yet
/// ended.
pub proof fn lemma_anti_sniping_window(
    s: TrafficPulseContract,
    round_id: u32,
    bin_id: u32,
    amount: i128,
)
    requires
        s.has_round(round_id),
        bin_id < BIN_COUNT,
        amount >= MIN_BET_AMOUNT,
        s.round_of(round_id).end_time >= 181,
    ensures
        s.place_bet_outcome(round_id, bin_id, amount, (s.round_of(round_id).end_time - 181) as u64)
            is Ok,
        s.place_bet_outcome(round_id, bin_id, amount, (s.round_of(round_id).end_time - 179) as u64)
            == Err::<(), Error>(Error::RoundClosed),
{
}

/// Every successful claim pays the claimant at least their own stake in
/// the winning bin.
pub proof fn lemma_claim_pays_at_least_stake(s: TrafficPulseContract, user: u64, round_id: u32)
    requires
        s.wf(),
        s.claim_outcome(user, round_id) is Ok,
    ensures
        s.claim_outcome(user, round_id)->Ok_0 >= s.stake_of(
            round_id,
            s.round_of(round_id).winning_bin,
            user,
        ),
{
    let round = s.round_of(round_id);
    let bin = round.winning_bin;
    assert(s.round_entry_ok(round_id));
    assert(s.stake_entry_ok(round_id, bin, user));
    lemma_final_payout_bounds(
        s.stake_of(round_id, bin, user),
        round.total_pool as int,
        round.bin_totals@[bin as int] as int,
    );
}

/// A fully settled round can never change again: once it is finalized and
/// a user has settled it, a repeated finalize fails, and a repeated claim
/// by that user fails with `AlreadyClaimed`; by the operation contracts a
/// failing call leaves the state — the round's pool and bin totals
/// included — unchanged, and even a successful claim by another user
/// never touches any round record.
pub proof fn lemma_settled_round_is_immutable(
    s: TrafficPulseContract,
    caller: u64,
    user: u64,
    round_id: u32,
    seed: Seq<u8>,
)
    requires
        s.has_round(round_id),
        s.round_of(round_id).finalized,
        s.spec_has_claimed(round_id, user),
    ensures
        s.finalize_outcome(caller, round_id, seed) is Err,
        s.claim_outcome(user, round_id) == Err::<i128, Error>(Error::AlreadyClaimed),
{
}

} // verus!
