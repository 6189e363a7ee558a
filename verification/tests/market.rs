//! The market contract: initialization, round creation, betting, the
//! commit-reveal finalization and claim settlement.

use sha2::Digest;
use traffic_pulse::{PulseToken, TrafficPulseContract};

/// The commitment digest of a secret, computed as the contract computes it.
fn market_commit(seed: &[u8; 32]) -> [u8; 32] {
    sha2::Sha256::digest(seed).into()
}

#[test]
fn test_initialize() {
    let mut contract = TrafficPulseContract::new();
    let admin: u64 = 1;
    let token: u64 = 2;

    contract.initialize(admin, token).unwrap();

    let stored_admin = contract.get_admin();
    assert_eq!(stored_admin, Some(admin));

    let stored_token = contract.get_token();
    assert_eq!(stored_token, Some(token));
}

#[test]
#[should_panic(expected = "AlreadyInitialized")]
fn test_initialize_twice_panics() {
    let mut contract = TrafficPulseContract::new();
    let admin: u64 = 1;
    let token: u64 = 2;

    contract.initialize(admin, token).unwrap();
    contract.initialize(admin, token).unwrap(); // Should panic
}

#[test]
fn test_create_round() {
    let mut contract = TrafficPulseContract::new();
    let admin: u64 = 1;
    let token: u64 = 2;
    contract.initialize(admin, token).unwrap();

    let seed: [u8; 32] = [1u8; 32];
    let commit = market_commit(&seed);
    let now: u64 = 0;
    let end_time = now + 600; // 10 minutes from now

    contract.create_round(admin, 1u32, end_time, commit, now).unwrap();

    let round = contract.get_round(1u32);
    assert!(round.is_some());
    let round = round.unwrap();
    assert_eq!(round.id, 1u32);
    assert_eq!(round.end_time, end_time);
    assert_eq!(round.total_pool, 0i128);
    assert_eq!(round.bin_totals, [0i128, 0, 0, 0, 0]);
    assert!(!round.finalized);
    assert_eq!(round.winning_bin, 99u32);
}

#[test]
fn test_place_bet() {
    let mut contract = TrafficPulseContract::new();
    let admin: u64 = 1;
    let user: u64 = 2;
    let token_id: u64 = 3;
    let contract_id: u64 = 4;

    // The token ledger the market settles in.
    let mut token = PulseToken::new();
    token.initialize(admin).unwrap();
    token.mint(admin, user, 1000i128).unwrap();

    contract.initialize(admin, token_id).unwrap();

    // Create a round.
    let seed: [u8; 32] = [1u8; 32];
    let commit = market_commit(&seed);
    let now: u64 = 0;
    let end_time = now + 600;
    contract.create_round(admin, 1u32, end_time, commit, now).unwrap();

    // User approves the contract to spend tokens.
    token.approve(user, contract_id, 100i128).unwrap();

    // Place bet on bin 2.
    contract.place_bet(user, 1u32, 2u32, 100i128, now).unwrap();
    // The host moves the stake into the contract's custody.
    assert!(token.transfer_from(contract_id, user, contract_id, 100i128).unwrap());

    // Verify round state.
    let round = contract.get_round(1u32).unwrap();
    assert_eq!(round.total_pool, 100i128);
    assert_eq!(round.bin_totals[2], 100i128);

    // Verify user bet.
    let user_bet = contract.get_user_bet(1u32, 2u32, user);
    assert_eq!(user_bet, 100i128);
}

#[test]
#[should_panic(expected = "InvalidBin")]
fn test_place_bet_invalid_bin_panics() {
    let mut contract = TrafficPulseContract::new();
    let admin: u64 = 1;
    let user: u64 = 2;
    let token_id: u64 = 3;

    contract.initialize(admin, token_id).unwrap();

    let seed: [u8; 32] = [1u8; 32];
    let commit = market_commit(&seed);
    let now: u64 = 0;
    let end_time = now + 600;
    contract.create_round(admin, 1u32, end_time, commit, now).unwrap();

    // Try to bet on invalid bin (5 is out of range).
    contract.place_bet(user, 1u32, 5u32, 100i128, now).unwrap();
}

#[test]
#[should_panic(expected = "InvalidAmount")]
fn test_place_bet_zero_amount_panics() {
    let mut contract = TrafficPulseContract::new();
    let admin: u64 = 1;
    let user: u64 = 2;
    let token_id: u64 = 3;

    contract.initialize(admin, token_id).unwrap();

    let seed: [u8; 32] = [1u8; 32];
    let commit = market_commit(&seed);
    let now: u64 = 0;
    let end_time = now + 600;
    contract.create_round(admin, 1u32, end_time, commit, now).unwrap();

    // Try to bet 0.
    contract.place_bet(user, 1u32, 2u32, 0i128, now).unwrap();
}

#[test]
#[should_panic(expected = "RoundClosed")]
fn test_place_bet_after_round_closed_panics() {
    let mut contract = TrafficPulseContract::new();
    let admin: u64 = 1;
    let user: u64 = 2;
    let token_id: u64 = 3;

    contract.initialize(admin, token_id).unwrap();

    let seed: [u8; 32] = [1u8; 32];
    let commit = market_commit(&seed);
    let now: u64 = 0;
    let end_time = now + 600;
    contract.create_round(admin, 1u32, end_time, commit, now).unwrap();

    // Try to place a bet after the round has ended.
    contract.place_bet(user, 1u32, 2u32, 100i128, end_time + 1).unwrap();
}

#[test]
fn test_finalize_round() {
    let mut contract = TrafficPulseContract::new();
    let admin: u64 = 1;
    let token: u64 = 2;
    contract.initialize(admin, token).unwrap();

    let seed: [u8; 32] = [42u8; 32];
    let commit = market_commit(&seed);
    let now: u64 = 0;
    let end_time = now + 600;
    contract.create_round(admin, 1u32, end_time, commit, now).unwrap();

    // Finalize with correct seed.
    contract.finalize_round(admin, 1u32, &seed).unwrap();

    let round = contract.get_round(1u32).unwrap();
    assert!(round.finalized);
    // winning_bin should be determined from seed
    assert!(round.winning_bin < 5);
}

#[test]
#[should_panic(expected = "InvalidSeed")]
fn test_finalize_with_wrong_seed_panics() {
    let mut contract = TrafficPulseContract::new();
    let admin: u64 = 1;
    let token: u64 = 2;
    contract.initialize(admin, token).unwrap();

    let seed: [u8; 32] = [42u8; 32];
    let commit = market_commit(&seed);
    let now: u64 = 0;
    let end_time = now + 600;
    contract.create_round(admin, 1u32, end_time, commit, now).unwrap();

    // Try to finalize with wrong seed.
    let wrong_seed: [u8; 32] = [99u8; 32];
    contract.finalize_round(admin, 1u32, &wrong_seed).unwrap();
}

#[test]
#[should_panic(expected = "AlreadyFinalized")]
fn test_finalize_twice_panics() {
    let mut contract = TrafficPulseContract::new();
    let admin: u64 = 1;
    let token: u64 = 2;
    contract.initialize(admin, token).unwrap();

    let seed: [u8; 32] = [42u8; 32];
    let commit = market_commit(&seed);
    let now: u64 = 0;
    let end_time = now + 600;
    contract.create_round(admin, 1u32, end_time, commit, now).unwrap();

    contract.finalize_round(admin, 1u32, &seed).unwrap();
    contract.finalize_round(admin, 1u32, &seed).unwrap(); // Should panic
}

#[test]
#[should_panic(expected = "NotFinalized")]
fn test_claim_before_finalized_panics() {
    let mut contract = TrafficPulseContract::new();
    let admin: u64 = 1;
    let user: u64 = 2;
    let token_id: u64 = 3;

    contract.initialize(admin, token_id).unwrap();

    let seed: [u8; 32] = [1u8; 32];
    let commit = market_commit(&seed);
    let now: u64 = 0;
    let end_time = now + 600;
    contract.create_round(admin, 1u32, end_time, commit, now).unwrap();

    // Try to claim before finalized.
    contract.claim(user, 1u32).unwrap();
}

#[test]
#[should_panic(expected = "NoWinningBet")]
fn test_claim_without_bet_panics() {
    let mut contract = TrafficPulseContract::new();
    let admin: u64 = 1;
    let user: u64 = 2;
    let token: u64 = 3;
    contract.initialize(admin, token).unwrap();

    let seed: [u8; 32] = [42u8; 32];
    let commit = market_commit(&seed);
    let now: u64 = 0;
    let end_time = now + 600;
    contract.create_round(admin, 1u32, end_time, commit, now).unwrap();

    contract.finalize_round(admin, 1u32, &seed).unwrap();

    // User didn't bet, should panic.
    contract.claim(user, 1u32).unwrap();
}

#[test]
fn test_has_claimed() {
    let mut contract = TrafficPulseContract::new();
    let admin: u64 = 1;
    let user: u64 = 2;
    let token: u64 = 3;
    contract.initialize(admin, token).unwrap();

    let seed: [u8; 32] = [42u8; 32];
    let commit = market_commit(&seed);
    let now: u64 = 0;
    let end_time = now + 600;
    contract.create_round(admin, 1u32, end_time, commit, now).unwrap();

    // Initially not claimed.
    assert!(!contract.has_claimed(1u32, user));
}
