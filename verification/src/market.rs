//! The betting-market contract: round registry, betting ledger,
//! commit-reveal finalization and claim settlement.
//!
//! The contract is a pure state machine. Authorization signatures, the
//! ledger clock and token custody are host concerns: each operation takes
//! the authenticated caller and, where timing matters, the current time as
//! plain arguments, and returns the amount the host has to move. A failed
//! operation returns an error and leaves the state exactly as it was.

use std::collections::HashMap;
use vstd::prelude::*;

use crate::commitment::{bytes32_eq, derive_winning_bin, sha256, sha256_of, winning_bin_of};
use crate::errors::Error;
use crate::keys::{
    lemma_stake_key_injective, spec_claim_key, spec_stake_key, claim_key, stake_key,
};
use crate::payout::{compute_payout, spec_final_payout, MAX_POOL_AMOUNT};
use crate::round::{pool_sum, Round, BIN_COUNT, NO_WINNING_BIN};

verus! {

broadcast use vstd::std_specs::hash::group_hash_axioms, vstd::array::group_array_axioms;

/// The smallest stake a bet may place.
pub const MIN_BET_AMOUNT: i128 = 1;

/// No bets are accepted in this many seconds before a round's end time.
pub const SNIPING_PREVENTION_SECONDS: u64 = 180;

/// The betting-market contract state.
pub struct TrafficPulseContract {
    admin: Option<u64>,
    token: Option<u64>,
    rounds: HashMap<u32, Round>,
    commitments: HashMap<u32, [u8; 32]>,
    stakes: HashMap<u128, i128>,
    claimed: HashMap<u128, bool>,
}

impl TrafficPulseContract {
    /// The configured admin principal, if any.
    pub closed spec fn spec_admin(self) -> Option<u64> {
        self.admin
    }

    /// The configured token contract, if any.
    pub closed spec fn spec_token(self) -> Option<u64> {
        self.token
    }

    /// The stored rounds, by round id.
    pub closed spec fn rounds_map(self) -> Map<u32, Round> {
        self.rounds@
    }

    /// The stored commitment digests, by round id.
    pub closed spec fn commitments_map(self) -> Map<u32, [u8; 32]> {
        self.commitments@
    }

    /// The stored stake records, by packed stake key.
    pub closed spec fn stakes_map(self) -> Map<u128, i128> {
        self.stakes@
    }

    /// The stored claim markers, by packed claim key.
    pub closed spec fn claims_map(self) -> Map<u128, bool> {
        self.claimed@
    }

    /// Whether a round with this id exists.
    pub open spec fn has_round(self, id: u32) -> bool {
        self.rounds_map().contains_key(id)
    }

    /// The round stored under this id.
    pub open spec fn round_of(self, id: u32) -> Round
        recommends
            self.has_round(id),
    {
        self.rounds_map()[id]
    }

    /// The pool of the round stored under this id, or zero if none is.
    pub open spec fn pool_of(self, id: u32) -> int {
        if self.has_round(id) {
            self.round_of(id).total_pool as int
        } else {
            0
        }
    }

    /// The commitment digest bound to this round id.
    pub open spec fn commitment_of(self, id: u32) -> Seq<u8>
        recommends
            self.has_round(id),
    {
        self.commitments_map()[id]@
    }

    /// Whether this user holds a recorded stake on this round and bin.
    pub open spec fn has_stake(self, round_id: u32, bin_id: u32, user: u64) -> bool {
        self.stakes_map().contains_key(spec_stake_key(round_id, bin_id, user))
    }

    /// The stake this user holds on this round and bin; zero if none is
    /// recorded.
    pub open spec fn stake_of(self, round_id: u32, bin_id: u32, user: u64) -> int {
        if self.has_stake(round_id, bin_id, user) {
            self.stakes_map()[spec_stake_key(round_id, bin_id, user)] as int
        } else {
            0
        }
    }

    /// Whether this user has already settled this round.
    pub open spec fn spec_has_claimed(self, round_id: u32, user: u64) -> bool {
        self.claims_map().contains_key(spec_claim_key(round_id, user))
    }

    /// A token is configured exactly when an admin is.
    pub open spec fn config_wf(self) -> bool {
        self.spec_admin() is Some <==> self.spec_token() is Some
    }

    /// The round stored under `id` is internally consistent, carries its
    /// own id, and has a commitment bound to it.
    pub open spec fn round_entry_ok(self, id: u32) -> bool {
        &&& self.round_of(id).wf()
        &&& self.round_of(id).id == id
        &&& self.commitments_map().contains_key(id)
    }

    /// Every stored round satisfies `round_entry_ok`.
    pub open spec fn rounds_wf(self) -> bool {
        forall|id: u32| #[trigger] self.has_round(id) ==> self.round_entry_ok(id)
    }

    /// The stake record of `(r, b, u)` is positive, names an existing
    /// round and a valid bin, and is bounded by that bin's total.
    pub open spec fn stake_entry_ok(self, r: u32, b: u32, u: u64) -> bool {
        &&& b < BIN_COUNT
        &&& self.has_round(r)
        &&& 0 < self.stake_of(r, b, u) <= self.round_of(r).bin_totals@[b as int]
    }

    /// Every stored stake record satisfies `stake_entry_ok`.
    pub open spec fn stakes_wf(self) -> bool {
        forall|r: u32, b: u32, u: u64| #[trigger] self.has_stake(r, b, u) ==> self.stake_entry_ok(
            r,
            b,
            u,
        )
    }

    /// The contract invariant.
    pub open spec fn wf(self) -> bool {
        self.config_wf() && self.rounds_wf() && self.stakes_wf()
    }

    /// The round and stake invariants depend only on the three storage
    /// maps, not on the configured admin or token.
    proof fn lemma_storage_wf_from_maps(a: Self, b: Self)
        requires
            a.rounds_wf(),
            a.stakes_wf(),
            b.rounds_map() == a.rounds_map(),
            b.commitments_map() == a.commitments_map(),
            b.stakes_map() == a.stakes_map(),
        ensures
            b.rounds_wf(),
            b.stakes_wf(),
    {
        assert forall|id: u32| #[trigger] b.has_round(id) implies b.round_entry_ok(id) by {
            assert(a.has_round(id));
        }
        assert forall|r: u32, b2: u32, u: u64| #[trigger] b.has_stake(r, b2, u) implies b
            .stake_entry_ok(r, b2, u) by {
            assert(a.has_stake(r, b2, u));
        }
    }

    /// A fresh contract: no admin, no token, no rounds, no stakes, no
    /// claim markers.
    pub fn new() -> (c: TrafficPulseContract)
        ensures
            c.wf(),
            c.spec_admin() is None,
            c.spec_token() is None,
            c.rounds_map() == Map::<u32, Round>::empty(),
            c.commitments_map() == Map::<u32, [u8; 32]>::empty(),
            c.stakes_map() == Map::<u128, i128>::empty(),
            c.claims_map() == Map::<u128, bool>::empty(),
    {
        TrafficPulseContract {
            admin: None,
            token: None,
            rounds: HashMap::new(),
            commitments: HashMap::new(),
            stakes: HashMap::new(),
            claimed: HashMap::new(),
        }
    }

    /// Configure the admin principal and the token contract the market
    /// settles in. May succeed only once.
    pub fn initialize(&mut self, admin: u64, token: u64) -> (res: Result<(), Error>)
        requires
            old(self).wf(),
        ensures
            final(self).wf(),
            res is Ok <==> old(self).spec_admin() is None,
            res is Err ==> res == Err::<(), Error>(Error::AlreadyInitialized) && *final(self)
                == *old(self),
            res is Ok ==> {
                &&& final(self).spec_admin() == Some(admin)
                &&& final(self).spec_token() == Some(token)
                &&& final(self).rounds_map() == old(self).rounds_map()
                &&& final(self).commitments_map() == old(self).commitments_map()
                &&& final(self).stakes_map() == old(self).stakes_map()
                &&& final(self).claims_map() == old(self).claims_map()
            },
    {
        if self.admin.is_some() {
            return Err(Error::AlreadyInitialized);
        }
        self.admin = Some(admin);
        self.token = Some(token);
        proof {
            Self::lemma_storage_wf_from_maps(*old(self), *self);
        }
        Ok(())
    }

    /// The outcome `create_round` decides from a state and its arguments:
    /// only the admin may create rounds, the end time must lie in the
    /// future, and the round id must be fresh.
    pub open spec fn create_round_outcome(self, caller: u64, id: u32, end_time: u64, now: u64) -> Result<(), Error> {
        if self.spec_admin() is None {
            Err(Error::NotInitialized)
        } else if self.spec_admin() != Some(caller) {
            Err(Error::Unauthorized)
        } else if end_time <= now {
            Err(Error::InvalidEndTime)
        } else if self.has_round(id) {
            Err(Error::AlreadyExists)
        } else {
            Ok(())
        }
    }

    /// Create a new round that closes at `end_time`, bound to the
    /// commitment digest `commit` of the secret to be revealed at
    /// finalization. Admin only; `now` is the current ledger time.
    pub fn create_round(
        &mut self,
        caller: u64,
        id: u32,
        end_time: u64,
        commit: [u8; 32],
        now: u64,
    ) -> (res: Result<(), Error>)
        requires
            old(self).wf(),
        ensures
            final(self).wf(),
            res == old(self).create_round_outcome(caller, id, end_time, now),
            res is Err ==> *final(self) == *old(self),
            res is Ok ==> {
                &&& final(self).has_round(id)
                &&& final(self).round_of(id).id == id
                &&& final(self).round_of(id).end_time == end_time
                &&& final(self).round_of(id).total_pool == 0
                &&& forall|i: int| 0 <= i < 5 ==> final(self).round_of(id).bin_totals@[i] == 0
                &&& !final(self).round_of(id).finalized
                &&& final(self).round_of(id).winning_bin == NO_WINNING_BIN
                &&& final(self).commitment_of(id) == commit@
                &&& final(self).rounds_map() == old(self).rounds_map().insert(
                    id,
                    final(self).round_of(id),
                )
                &&& final(self).commitments_map() == old(self).commitments_map().insert(id, commit)
                &&& final(self).stakes_map() == old(self).stakes_map()
                &&& final(self).claims_map() == old(self).claims_map()
                &&& final(self).spec_admin() == old(self).spec_admin()
                &&& final(self).spec_token() == old(self).spec_token()
            },
    {
        let admin = match self.admin {
            Some(a) => a,
            None => {
                return Err(Error::NotInitialized);
            },
        };
        if caller != admin {
            return Err(Error::Unauthorized);
        }
        if end_time <= now {
            return Err(Error::InvalidEndTime);
        }
        if self.rounds.contains_key(&id) {
            return Err(Error::AlreadyExists);
        }
        let round = Round::new(id, end_time);
        self.rounds.insert(id, round);
        self.commitments.insert(id, commit);
        proof {
            assert forall|id2: u32| #[trigger] self.has_round(id2) implies self.round_entry_ok(
                id2,
            ) by {
                if id2 != id {
                    assert(old(self).has_round(id2));
                    assert(old(self).round_entry_ok(id2));
                }
            }
            assert forall|r: u32, b: u32, u: u64| #[trigger] self.has_stake(r, b, u) implies self
                .stake_entry_ok(r, b, u) by {
                assert(old(self).has_stake(r, b, u));
                assert(old(self).stake_entry_ok(r, b, u));
                assert(r != id);
            }
        }
        Ok(())
    }

    /// The outcome `place_bet` decides from a state and its arguments:
    /// the stake must reach the minimum, the bin must be one of the five,
    /// the round must exist, and the current time must lie strictly
    /// before the anti-sniping window that precedes the round's end.
    pub open spec fn place_bet_outcome(self, round_id: u32, bin_id: u32, amount: i128, now: u64) -> Result<(), Error> {
        if amount < MIN_BET_AMOUNT {
            Err(Error::InvalidAmount)
        } else if bin_id >= BIN_COUNT {
            Err(Error::InvalidBin)
        } else if !self.has_round(round_id) {
            Err(Error::RoundNotFound)
        } else if now >= self.round_of(round_id).end_time {
            Err(Error::RoundClosed)
        } else if self.round_of(round_id).end_time - now <= SNIPING_PREVENTION_SECONDS {
            Err(Error::RoundClosed)
        } else {
            Ok(())
        }
    }

    /// Record a bet of `amount` by `user` on `bin_id` of round
    /// `round_id`, at ledger time `now`. On success the caller owes the
    /// contract a transfer of `amount` from `user` to the contract's
    /// custody; if that transfer fails, the whole invocation must be
    /// rolled back.
    pub fn place_bet(
        &mut self,
        user: u64,
        round_id: u32,
        bin_id: u32,
        amount: i128,
        now: u64,
    ) -> (res: Result<(), Error>)
        requires
            old(self).wf(),
            amount + old(self).pool_of(round_id) <= MAX_POOL_AMOUNT,
        ensures
            final(self).wf(),
            res == old(self).place_bet_outcome(round_id, bin_id, amount, now),
            res is Err ==> *final(self) == *old(self),
            res is Ok ==> {
                &&& final(self).has_round(round_id)
                &&& final(self).round_of(round_id).total_pool == old(self).round_of(
                    round_id,
                ).total_pool + amount
                &&& final(self).round_of(round_id).bin_totals@ == old(self).round_of(
                    round_id,
                ).bin_totals@.update(
                    bin_id as int,
                    (old(self).round_of(round_id).bin_totals@[bin_id as int] + amount) as i128,
                )
                &&& final(self).round_of(round_id).id == old(self).round_of(round_id).id
                &&& final(self).round_of(round_id).end_time == old(self).round_of(
                    round_id,
                ).end_time
                &&& final(self).round_of(round_id).finalized == old(self).round_of(
                    round_id,
                ).finalized
                &&& final(self).round_of(round_id).winning_bin == old(self).round_of(
                    round_id,
                ).winning_bin
                &&& final(self).rounds_map() == old(self).rounds_map().insert(
                    round_id,
                    final(self).round_of(round_id),
                )
                &&& final(self).stake_of(round_id, bin_id, user) == old(self).stake_of(
                    round_id,
                    bin_id,
                    user,
                ) + amount
                &&& forall|r: u32, b: u32, u: u64|
                    !(r == round_id && b == bin_id && u == user) ==> #[trigger] final(self).stake_of(
                        r,
                        b,
                        u,
                    ) == old(self).stake_of(r, b, u)
                &&& final(self).commitments_map() == old(self).commitments_map()
                &&& final(self).claims_map() == old(self).claims_map()
                &&& final(self).spec_admin() == old(self).spec_admin()
                &&& final(self).spec_token() == old(self).spec_token()
            },
    {
        if amount < MIN_BET_AMOUNT {
            return Err(Error::InvalidAmount);
        }
        if bin_id >= BIN_COUNT {
            return Err(Error::InvalidBin);
        }
        let round = match self.rounds.get(&round_id) {
            Some(r) => *r,
            None => {
                return Err(Error::RoundNotFound);
            },
        };
        if now >= round.end_time {
            return Err(Error::RoundClosed);
        }
        if round.end_time - now <= SNIPING_PREVENTION_SECONDS {
            return Err(Error::RoundClosed);
        }
        proof {
            assert(old(self).has_round(round_id));
            assert(old(self).round_entry_ok(round_id));
        }
        let bin_index = bin_id as usize;
        let new_bin_total = round.bin_totals[bin_index] + amount;
        let mut updated = round;
        updated.bin_totals[bin_index] = new_bin_total;
        updated.total_pool = round.total_pool + amount;
        self.rounds.insert(round_id, updated);
        let key = stake_key(round_id, bin_id, user);
        let prior_stake = match self.stakes.get(&key) {
            Some(s) => *s,
            None => 0,
        };
        proof {
            if old(self).has_stake(round_id, bin_id, user) {
                assert(old(self).stake_entry_ok(round_id, bin_id, user));
            }
        }
        self.stakes.insert(key, prior_stake + amount);
        proof {
            self.lemma_place_bet_preserves_wf(*old(self), user, round_id, bin_id, amount);
        }
        Ok(())
    }

    /// After a recorded bet, every round and stake record is still
    /// consistent: the bet grew one bin and the pool of one round by the
    /// same amount, and one stake record by the same amount.
    proof fn lemma_place_bet_preserves_wf(
        self,
        prev: Self,
        user: u64,
        round_id: u32,
        bin_id: u32,
        amount: i128,
    )
        requires
            prev.wf(),
            prev.has_round(round_id),
            bin_id < BIN_COUNT,
            amount >= MIN_BET_AMOUNT,
            amount + prev.round_of(round_id).total_pool <= MAX_POOL_AMOUNT,
            self.has_round(round_id),
            self.rounds_map() == prev.rounds_map().insert(round_id, self.round_of(round_id)),
            self.round_of(round_id).id == prev.round_of(round_id).id,
            self.round_of(round_id).end_time == prev.round_of(round_id).end_time,
            self.round_of(round_id).finalized == prev.round_of(round_id).finalized,
            self.round_of(round_id).winning_bin == prev.round_of(round_id).winning_bin,
            self.round_of(round_id).total_pool == prev.round_of(round_id).total_pool + amount,
            self.round_of(round_id).bin_totals@ == prev.round_of(round_id).bin_totals@.update(
                bin_id as int,
                (prev.round_of(round_id).bin_totals@[bin_id as int] + amount) as i128,
            ),
            self.stakes_map() == prev.stakes_map().insert(
                spec_stake_key(round_id, bin_id, user),
                (prev.stake_of(round_id, bin_id, user) + amount) as i128,
            ),
            self.commitments_map() == prev.commitments_map(),
        ensures
            self.rounds_wf(),
            self.stakes_wf(),
    {
        let updated = self.round_of(round_id);
        assert(prev.round_entry_ok(round_id));
        assert(pool_sum(updated.bin_totals@) == pool_sum(prev.round_of(round_id).bin_totals@)
            + amount);
        assert(updated.wf());
        assert forall|id2: u32| #[trigger] self.has_round(id2) implies self.round_entry_ok(id2) by {
            if id2 != round_id {
                assert(prev.has_round(id2));
                assert(prev.round_entry_ok(id2));
            }
        }
        assert forall|r: u32, b: u32, u: u64| #[trigger] self.has_stake(r, b, u) implies self
            .stake_entry_ok(r, b, u) by {
            if r == round_id && b == bin_id && u == user {
                if prev.has_stake(r, b, u) {
                    assert(prev.stake_entry_ok(r, b, u));
                }
                assert(self.stake_of(r, b, u) == prev.stake_of(r, b, u) + amount);
            } else {
                if spec_stake_key(r, b, u) == spec_stake_key(round_id, bin_id, user) {
                    lemma_stake_key_injective(r, b, u, round_id, bin_id, user);
                }
                assert(prev.has_stake(r, b, u));
                assert(prev.stake_entry_ok(r, b, u));
                assert(self.stake_of(r, b, u) == prev.stake_of(r, b, u));
                if r == round_id {
                    if b == bin_id {
                        assert(updated.bin_totals@[b as int] == prev.round_of(
                            r,
                        ).bin_totals@[b as int] + amount);
                    } else {
                        assert(updated.bin_totals@[b as int] == prev.round_of(
                            r,
                        ).bin_totals@[b as int]);
                    }
                }
            }
        }
    }

    /// The outcome `finalize_round` decides from a state and its
    /// arguments: only the admin may finalize, the round must exist and
    /// not be finalized yet, and the revealed secret must hash to the
    /// stored commitment. On success the winning bin is a pure function
    /// of the revealed secret, independent of any bet history.
    pub open spec fn finalize_outcome(self, caller: u64, round_id: u32, seed: Seq<u8>) -> Result<u32, Error> {
        if self.spec_admin() is None {
            Err(Error::NotInitialized)
        } else if self.spec_admin() != Some(caller) {
            Err(Error::Unauthorized)
        } else if !self.has_round(round_id) {
            Err(Error::RoundNotFound)
        } else if self.round_of(round_id).finalized {
            Err(Error::AlreadyFinalized)
        } else if sha256_of(seed) != self.commitment_of(round_id) {
            Err(Error::InvalidSeed)
        } else {
            Ok(winning_bin_of(seed) as u32)
        }
    }

    /// Finalize a round by revealing the committed secret. Admin only;
    /// succeeds at most once per round. On success the round is marked
    /// finalized and its winning bin is derived from the secret; the
    /// returned bin is the payload for the finalize notification.
    pub fn finalize_round(&mut self, caller: u64, round_id: u32, seed: &[u8; 32]) -> (res: Result<
        u32,
        Error,
    >)
        requires
            old(self).wf(),
        ensures
            final(self).wf(),
            res == old(self).finalize_outcome(caller, round_id, seed@),
            res is Err ==> *final(self) == *old(self),
            res is Ok ==> {
                &&& final(self).has_round(round_id)
                &&& final(self).round_of(round_id).finalized
                &&& final(self).round_of(round_id).winning_bin == winning_bin_of(seed@)
                &&& final(self).round_of(round_id).id == old(self).round_of(round_id).id
                &&& final(self).round_of(round_id).end_time == old(self).round_of(
                    round_id,
                ).end_time
                &&& final(self).round_of(round_id).total_pool == old(self).round_of(
                    round_id,
                ).total_pool
                &&& final(self).round_of(round_id).bin_totals == old(self).round_of(
                    round_id,
                ).bin_totals
                &&& final(self).rounds_map() == old(self).rounds_map().insert(
                    round_id,
                    final(self).round_of(round_id),
                )
                &&& final(self).commitments_map() == old(self).commitments_map()
                &&& final(self).stakes_map() == old(self).stakes_map()
                &&& final(self).claims_map() == old(self).claims_map()
                &&& final(self).spec_admin() == old(self).spec_admin()
                &&& final(self).spec_token() == old(self).spec_token()
            },
    {
        let admin = match self.admin {
            Some(a) => a,
            None => {
                return Err(Error::NotInitialized);
            },
        };
        if caller != admin {
            return Err(Error::Unauthorized);
        }
        let round = match self.rounds.get(&round_id) {
            Some(r) => *r,
            None => {
                return Err(Error::RoundNotFound);
            },
        };
        if round.finalized {
            return Err(Error::AlreadyFinalized);
        }
        proof {
            assert(old(self).has_round(round_id));
            assert(old(self).round_entry_ok(round_id));
        }
        let commit = match self.commitments.get(&round_id) {
            Some(c) => *c,
            None => {
                // Unreachable: every stored round has a commitment.
                proof {
                    assert(false);
                }
                [0u8; 32]
            },
        };
        let digest = sha256(seed);
        if !bytes32_eq(&digest, &commit) {
            return Err(Error::InvalidSeed);
        }
        let bin = derive_winning_bin(seed);
        let mut updated = round;
        updated.finalized = true;
        updated.winning_bin = bin;
        self.rounds.insert(round_id, updated);
        proof {
            assert forall|id2: u32| #[trigger] self.has_round(id2) implies self.round_entry_ok(
                id2,
            ) by {
                if id2 != round_id {
                    assert(old(self).has_round(id2));
                    assert(old(self).round_entry_ok(id2));
                }
            }
            assert forall|r: u32, b: u32, u: u64| #[trigger] self.has_stake(r, b, u) implies self
                .stake_entry_ok(r, b, u) by {
                assert(old(self).has_stake(r, b, u));
                assert(old(self).stake_entry_ok(r, b, u));
            }
        }
        Ok(bin)
    }

    /// The outcome `claim` decides from a state and its arguments: a user
    /// may settle a finalized round once, and only with a recorded stake
    /// in its winning bin. The success payload is the payout owed.
    pub open spec fn claim_outcome(self, user: u64, round_id: u32) -> Result<i128, Error> {
        if self.spec_has_claimed(round_id, user) {
            Err(Error::AlreadyClaimed)
        } else if !self.has_round(round_id) {
            Err(Error::RoundNotFound)
        } else if !self.round_of(round_id).finalized {
            Err(Error::NotFinalized)
        } else if !self.has_stake(round_id, self.round_of(round_id).winning_bin, user) {
            Err(Error::NoWinningBet)
        } else if self.round_of(round_id).bin_totals@[self.round_of(round_id).winning_bin as int]
            == 0 {
            Err(Error::NoWinnersInBin)
        } else {
            Ok(
                spec_final_payout(
                    self.stake_of(round_id, self.round_of(round_id).winning_bin, user),
                    self.round_of(round_id).total_pool as int,
                    self.round_of(round_id).bin_totals@[self.round_of(round_id).winning_bin as int]
                        as int,
                ) as i128,
            )
        }
    }

    /// Settle a finalized round for `user`: compute the payout on their
    /// stake in the winning bin, set the write-once claim marker, and
    /// delete the settled stake record. On success the caller owes `user`
    /// a transfer of the returned payout from the contract's custody; if
    /// that transfer fails, the whole invocation must be rolled back.
    /// Round records — bin totals and pool included — are never changed.
    pub fn claim(&mut self, user: u64, round_id: u32) -> (res: Result<i128, Error>)
        requires
            old(self).wf(),
        ensures
            final(self).wf(),
            res == old(self).claim_outcome(user, round_id),
            res is Err ==> *final(self) == *old(self),
            res is Ok ==> {
                &&& res->Ok_0 >= old(self).stake_of(
                    round_id,
                    old(self).round_of(round_id).winning_bin,
                    user,
                )
                &&& final(self).rounds_map() == old(self).rounds_map()
                &&& final(self).commitments_map() == old(self).commitments_map()
                &&& final(self).spec_admin() == old(self).spec_admin()
                &&& final(self).spec_token() == old(self).spec_token()
                &&& final(self).spec_has_claimed(round_id, user)
                &&& final(self).claims_map() == old(self).claims_map().insert(
                    spec_claim_key(round_id, user),
                    true,
                )
                &&& final(self).stakes_map() == old(self).stakes_map().remove(
                    spec_stake_key(round_id, old(self).round_of(round_id).winning_bin, user),
                )
                &&& forall|r: u32, u2: u64|
                    !(r == round_id && u2 == user) ==> #[trigger] final(self).spec_has_claimed(
                        r,
                        u2,
                    ) == old(self).spec_has_claimed(r, u2)
                &&& forall|r: u32, b: u32, u2: u64|
                    !(r == round_id && b == old(self).round_of(round_id).winning_bin && u2 == user)
                        ==> #[trigger] final(self).stake_of(r, b, u2) == old(self).stake_of(
                        r,
                        b,
                        u2,
                    )
            },
    {
        let ckey = claim_key(round_id, user);
        if self.claimed.contains_key(&ckey) {
            return Err(Error::AlreadyClaimed);
        }
        let round = match self.rounds.get(&round_id) {
            Some(r) => *r,
            None => {
                return Err(Error::RoundNotFound);
            },
        };
        if !round.finalized {
            return Err(Error::NotFinalized);
        }
        proof {
            assert(old(self).has_round(round_id));
            assert(old(self).round_entry_ok(round_id));
        }
        let skey = stake_key(round_id, round.winning_bin, user);
        let user_stake = match self.stakes.get(&skey) {
            Some(s) => *s,
            None => {
                return Err(Error::NoWinningBet);
            },
        };
        proof {
            assert(old(self).has_stake(round_id, round.winning_bin, user));
            assert(old(self).stake_entry_ok(round_id, round.winning_bin, user));
        }
        let bin_total = round.bin_totals[round.winning_bin as usize];
        if bin_total == 0 {
            return Err(Error::NoWinnersInBin);
        }
        let payout = compute_payout(user_stake, round.total_pool, bin_total);
        self.claimed.insert(ckey, true);
        self.stakes.remove(&skey);
        proof {
            self.lemma_claim_preserves_wf(*old(self), user, round_id, round.winning_bin);
        }
        Ok(payout)
    }

    /// Deleting a settled stake record and adding a claim marker keeps
    /// every remaining round and stake record consistent, and touches no
    /// other stake or claim entry.
    proof fn lemma_claim_preserves_wf(self, prev: Self, user: u64, round_id: u32, bin: u32)
        requires
            prev.wf(),
            self.rounds_map() == prev.rounds_map(),
            self.commitments_map() == prev.commitments_map(),
            self.stakes_map() == prev.stakes_map().remove(spec_stake_key(round_id, bin, user)),
            self.claims_map() == prev.claims_map().insert(spec_claim_key(round_id, user), true),
        ensures
            self.rounds_wf(),
            self.stakes_wf(),
            forall|r: u32, u2: u64|
                !(r == round_id && u2 == user) ==> #[trigger] self.spec_has_claimed(r, u2)
                    == prev.spec_has_claimed(r, u2),
            forall|r: u32, b: u32, u2: u64|
                !(r == round_id && b == bin && u2 == user) ==> #[trigger] self.stake_of(r, b, u2)
                    == prev.stake_of(r, b, u2),
    {
        assert forall|id2: u32| #[trigger] self.has_round(id2) implies self.round_entry_ok(id2) by {
            assert(prev.has_round(id2));
            assert(prev.round_entry_ok(id2));
        }
        assert forall|r: u32, b2: u32, u2: u64| #[trigger] self.has_stake(r, b2, u2) implies self
            .stake_entry_ok(r, b2, u2) by {
            assert(prev.has_stake(r, b2, u2));
            assert(prev.stake_entry_ok(r, b2, u2));
        }
        assert forall|r: u32, u2: u64| !(r == round_id && u2 == user) implies #[trigger] self
            .spec_has_claimed(r, u2) == prev.spec_has_claimed(r, u2) by {
            if spec_claim_key(r, u2) == spec_claim_key(round_id, user) {
                crate::keys::lemma_claim_key_injective(r, u2, round_id, user);
            }
        }
        assert forall|r: u32, b2: u32, u2: u64| !(r == round_id && b2 == bin && u2 == user)
            implies #[trigger] self.stake_of(r, b2, u2) == prev.stake_of(r, b2, u2) by {
            if spec_stake_key(r, b2, u2) == spec_stake_key(round_id, bin, user) {
                lemma_stake_key_injective(r, b2, u2, round_id, bin, user);
            }
        }
    }

    /// Look up a round by id.
    pub fn get_round(&self, id: u32) -> (res: Option<Round>)
        ensures
            match res {
                Some(r) => self.has_round(id) && r == self.round_of(id),
                None => !self.has_round(id),
            },
    {
        match self.rounds.get(&id) {
            Some(r) => Some(*r),
            None => None,
        }
    }

    /// A user's accumulated stake on a round and bin; zero if none.
    pub fn get_user_bet(&self, round_id: u32, bin_id: u32, user: u64) -> (res: i128)
        ensures
            res == self.stake_of(round_id, bin_id, user),
    {
        let key = stake_key(round_id, bin_id, user);
        match self.stakes.get(&key) {
            Some(amount) => *amount,
            None => 0,
        }
    }

    /// Whether a user has already settled a round.
    pub fn has_claimed(&self, round_id: u32, user: u64) -> (res: bool)
        ensures
            res == self.spec_has_claimed(round_id, user),
    {
        let key = claim_key(round_id, user);
        self.claimed.contains_key(&key)
    }

    /// The configured admin principal, if any.
    pub fn get_admin(&self) -> (res: Option<u64>)
        ensures
            res == self.spec_admin(),
    {
        self.admin
    }

    /// The configured token contract, if any.
    pub fn get_token(&self) -> (res: Option<u64>)
        ensures
            res == self.spec_token(),
    {
        self.token
    }
}

} // verus!
