//! Composite storage keys.
//!
//! Stakes are keyed by `(round id, bin id, user)` and claim markers and
//! allowances by pairs of principals or ids. The maps that hold them use a
//! single 128-bit integer key, packing the components into disjoint bit
//! ranges; the packings below are injective, so distinct component tuples
//! never collide.

use vstd::prelude::*;

verus! {

/// 2^64, the span reserved for the low component of a packed key.
pub const KEY_SPAN_LOW: u128 = 0x1_0000_0000_0000_0000;

/// 2^96, the span reserved for the top component of a stake key.
pub const KEY_SPAN_HIGH: u128 = 0x1_0000_0000_0000_0000_0000_0000;

/// The packed key of a stake record: round id, bin id and user, in
/// disjoint bit ranges.
pub open spec fn spec_stake_key(round_id: u32, bin_id: u32, user: u64) -> u128 {
    (round_id * KEY_SPAN_HIGH + bin_id * KEY_SPAN_LOW + user) as u128
}

/// The packed key of a claim marker: round id and user.
pub open spec fn spec_claim_key(round_id: u32, user: u64) -> u128 {
    (round_id * KEY_SPAN_LOW + user) as u128
}

/// The packed key of an allowance record: owner and spender.
pub open spec fn spec_allowance_key(owner: u64, spender: u64) -> u128 {
    (owner * KEY_SPAN_LOW + spender) as u128
}

/// Distinct (round, bin, user) triples pack to distinct stake keys.
pub proof fn lemma_stake_key_injective(r1: u32, b1: u32, u1: u64, r2: u32, b2: u32, u2: u64)
    requires
        spec_stake_key(r1, b1, u1) == spec_stake_key(r2, b2, u2),
    ensures
        r1 == r2 && b1 == b2 && u1 == u2,
{
    assert(r1 * KEY_SPAN_HIGH + b1 * KEY_SPAN_LOW + u1 == r2 * KEY_SPAN_HIGH + b2 * KEY_SPAN_LOW
        + u2);
}

/// Distinct (round, user) pairs pack to distinct claim keys.
pub proof fn lemma_claim_key_injective(r1: u32, u1: u64, r2: u32, u2: u64)
    requires
        spec_claim_key(r1, u1) == spec_claim_key(r2, u2),
    ensures
        r1 == r2 && u1 == u2,
{
    assert(r1 * KEY_SPAN_LOW + u1 == r2 * KEY_SPAN_LOW + u2);
}

/// Distinct (owner, spender) pairs pack to distinct allowance keys.
pub proof fn lemma_allowance_key_injective(o1: u64, s1: u64, o2: u64, s2: u64)
    requires
        spec_allowance_key(o1, s1) == spec_allowance_key(o2, s2),
    ensures
        o1 == o2 && s1 == s2,
{
    assert(o1 * KEY_SPAN_LOW + s1 == o2 * KEY_SPAN_LOW + s2);
}

/// Pack a stake key.
pub(crate) fn stake_key(round_id: u32, bin_id: u32, user: u64) -> (k: u128)
    ensures
        k == spec_stake_key(round_id, bin_id, user),
{
    (round_id as u128) * KEY_SPAN_HIGH + (bin_id as u128) * KEY_SPAN_LOW + (user as u128)
}

/// Pack a claim-marker key.
pub(crate) fn claim_key(round_id: u32, user: u64) -> (k: u128)
    ensures
        k == spec_claim_key(round_id, user),
{
    (round_id as u128) * KEY_SPAN_LOW + (user as u128)
}

/// Pack an allowance key.
pub(crate) fn allowance_key(owner: u64, spender: u64) -> (k: u128)
    ensures
        k == spec_allowance_key(owner, spender),
{
    (owner as u128) * KEY_SPAN_LOW + (spender as u128)
}

} // verus!
