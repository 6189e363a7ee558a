//! The token ledger: metadata, minting, transfers and allowances.

use traffic_pulse::{Error, PulseToken};

#[test]
fn test_token_metadata() {
    let token = PulseToken::new();
    assert_eq!(token.name(), "PULSE");
    assert_eq!(token.symbol(), "PLS");
    assert_eq!(token.decimals(), 18);
}

#[test]
fn test_mint_and_balance() {
    let mut token = PulseToken::new();
    let admin: u64 = 1;
    let user: u64 = 2;
    token.initialize(admin).unwrap();
    token.mint(admin, user, 1000).unwrap();
    assert_eq!(token.balance(user), 1000);
}

#[test]
fn test_transfer() {
    let mut token = PulseToken::new();
    let admin: u64 = 1;
    let from: u64 = 2;
    let to: u64 = 3;
    token.initialize(admin).unwrap();
    token.mint(admin, from, 1000).unwrap();

    let success = token.transfer(from, to, 100).unwrap();
    assert!(success);

    assert_eq!(token.balance(from), 900);
    assert_eq!(token.balance(to), 100);
}

#[test]
fn test_insufficient_balance() {
    let mut token = PulseToken::new();
    let admin: u64 = 1;
    let from: u64 = 2;
    let to: u64 = 3;
    token.initialize(admin).unwrap();

    let success = token.transfer(from, to, 100).unwrap();
    assert!(!success);
}

#[test]
fn test_approve_and_allowance() {
    let mut token = PulseToken::new();
    let admin: u64 = 1;
    let owner: u64 = 2;
    let spender: u64 = 3;
    token.initialize(admin).unwrap();

    token.approve(owner, spender, 500).unwrap();
    assert_eq!(token.allowance(owner, spender), 500);
}

#[test]
fn test_transfer_from_spends_allowance() {
    let mut token = PulseToken::new();
    let admin: u64 = 1;
    let owner: u64 = 2;
    let spender: u64 = 3;
    let sink: u64 = 4;
    token.initialize(admin).unwrap();
    token.mint(admin, owner, 1000).unwrap();
    token.approve(owner, spender, 300).unwrap();

    assert!(token.transfer_from(spender, owner, sink, 200).unwrap());
    assert_eq!(token.balance(owner), 800);
    assert_eq!(token.balance(sink), 200);
    assert_eq!(token.allowance(owner, spender), 100);

    // The remaining allowance no longer covers another 200.
    assert!(!token.transfer_from(spender, owner, sink, 200).unwrap());
    assert_eq!(token.balance(owner), 800);
}

#[test]
fn test_total_supply_is_conserved() {
    let mut token = PulseToken::new();
    let admin: u64 = 1;
    let a: u64 = 2;
    let b: u64 = 3;
    token.initialize(admin).unwrap();
    token.mint(admin, a, 1000).unwrap();
    assert_eq!(token.total_supply(), 1000);

    assert!(token.transfer(a, b, 250).unwrap());
    assert_eq!(token.total_supply(), 1000);

    token.burn(admin, a, 400).unwrap();
    assert_eq!(token.total_supply(), 600);
    assert_eq!(token.balance(a), 350);
    assert_eq!(token.balance(b), 250);
}

#[test]
fn test_token_error_variants() {
    let mut token = PulseToken::new();
    let admin: u64 = 1;
    let user: u64 = 2;

    // Not initialized yet.
    assert_eq!(token.mint(admin, user, 10), Err(Error::NotInitialized));

    token.initialize(admin).unwrap();
    assert_eq!(token.initialize(admin), Err(Error::AlreadyInitialized));

    // Only the admin mints and burns.
    assert_eq!(token.mint(user, user, 10), Err(Error::Unauthorized));
    assert_eq!(token.burn(user, user, 10), Err(Error::Unauthorized));

    // Amounts must be positive; approvals may be zero but not negative.
    assert_eq!(token.mint(admin, user, 0), Err(Error::InvalidAmount));
    assert_eq!(token.transfer(user, admin, -5), Err(Error::InvalidAmount));
    assert_eq!(token.approve(user, admin, -1), Err(Error::InvalidAmount));
    assert_eq!(token.approve(user, admin, 0), Ok(()));

    // Burning more than the balance is refused.
    token.mint(admin, user, 100).unwrap();
    assert_eq!(token.burn(admin, user, 101), Err(Error::InsufficientBalance));
    assert_eq!(token.balance(user), 100);
}

#[test]
fn test_self_transfer_changes_nothing() {
    let mut token = PulseToken::new();
    let admin: u64 = 1;
    let user: u64 = 2;
    token.initialize(admin).unwrap();
    token.mint(admin, user, 500).unwrap();

    assert!(token.transfer(user, user, 200).unwrap());
    assert_eq!(token.balance(user), 500);
    assert_eq!(token.total_supply(), 500);
}
