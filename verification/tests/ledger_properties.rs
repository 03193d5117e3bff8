//! Scenario checks for the ledger-wide guarantees: supply staying equal to
//! the sum of balances, the authorization gate, absolute (not additive)
//! approval, default-zero reads, and every error variant on an input that
//! produces it.

use token_bdb::auth::Authorizer;
use token_bdb::token::TokenBDB;
use token_bdb::Error;

#[test]
fn test_not_authorized_mint() {
    let mut token = TokenBDB::new();
    let admin: u64 = 1;
    let user: u64 = 2;

    token.initialize(admin, String::from("Token"), String::from("TOK"), 7).unwrap();

    let auth = Authorizer::deny_all();
    assert_eq!(token.mint(user, 100, &auth), Err(Error::NotAuthorized));
    assert_eq!(token.total_supply(), 0);
    assert_eq!(token.balance(user), 0);
}

#[test]
fn test_allow_list_authorization() {
    let mut token = TokenBDB::new();
    let admin: u64 = 1;
    let alice: u64 = 2;
    let bob: u64 = 3;

    token.initialize(admin, String::from("Token"), String::from("TOK"), 7).unwrap();

    // The collaborator vouches for the admin and alice, not for bob.
    let auth = Authorizer::allow_accounts(vec![admin, alice]);

    token.mint(alice, 500, &auth).unwrap();
    token.burn(alice, 100, &auth).unwrap();
    assert_eq!(token.balance(alice), 400);

    // Transfers and approvals acted by bob are refused.
    assert_eq!(token.transfer(bob, alice, 10, &auth), Err(Error::NotAuthorized));
    assert_eq!(token.approve(bob, alice, 10, &auth), Err(Error::NotAuthorized));
    assert_eq!(token.transfer_from(bob, alice, bob, 10, &auth), Err(Error::NotAuthorized));
}

#[test]
fn test_approve_resets_absolutely() {
    let mut token = TokenBDB::new();
    let admin: u64 = 1;
    let alice: u64 = 2;
    let bob: u64 = 3;
    let charlie: u64 = 4;

    token.initialize(admin, String::from("Token"), String::from("TOK"), 7).unwrap();

    let auth = Authorizer::allow_all();
    token.mint(alice, 1000, &auth).unwrap();
    token.approve(alice, bob, 300, &auth).unwrap();
    token.transfer_from(bob, alice, charlie, 200, &auth).unwrap();
    assert_eq!(token.allowance(alice, bob), 100);

    // A later approve overwrites the remaining 100; it does not add to it.
    token.approve(alice, bob, 500, &auth).unwrap();
    assert_eq!(token.allowance(alice, bob), 500);
}

#[test]
fn test_approve_zero_revokes() {
    let mut token = TokenBDB::new();
    let admin: u64 = 1;
    let alice: u64 = 2;
    let bob: u64 = 3;

    token.initialize(admin, String::from("Token"), String::from("TOK"), 7).unwrap();

    let auth = Authorizer::allow_all();
    token.mint(alice, 1000, &auth).unwrap();
    token.approve(alice, bob, 300, &auth).unwrap();
    token.approve(alice, bob, 0, &auth).unwrap();
    assert_eq!(token.allowance(alice, bob), 0);
    assert_eq!(
        token.transfer_from(bob, alice, bob, 1, &auth),
        Err(Error::InsufficientAllowance)
    );
}

#[test]
fn test_transfer_from_insufficient_balance() {
    let mut token = TokenBDB::new();
    let admin: u64 = 1;
    let alice: u64 = 2;
    let bob: u64 = 3;
    let charlie: u64 = 4;

    token.initialize(admin, String::from("Token"), String::from("TOK"), 7).unwrap();

    let auth = Authorizer::allow_all();
    token.mint(alice, 100, &auth).unwrap();
    token.approve(alice, bob, 300, &auth).unwrap();

    // The allowance covers the amount but the balance does not: the balance
    // error is reported, and only after the allowance was found sufficient.
    let result = token.transfer_from(bob, alice, charlie, 200, &auth);
    assert_eq!(result, Err(Error::InsufficientBalance));
    assert_eq!(token.allowance(alice, bob), 300);
    assert_eq!(token.balance(alice), 100);
}

#[test]
fn test_transfer_from_back_to_owner() {
    let mut token = TokenBDB::new();
    let admin: u64 = 1;
    let alice: u64 = 2;
    let bob: u64 = 3;

    token.initialize(admin, String::from("Token"), String::from("TOK"), 7).unwrap();

    let auth = Authorizer::allow_all();
    token.mint(alice, 1000, &auth).unwrap();
    token.approve(alice, bob, 300, &auth).unwrap();

    // Moving funds from the owner back to the owner still consumes the
    // allowance, and leaves every balance as it was.
    token.transfer_from(bob, alice, alice, 200, &auth).unwrap();
    assert_eq!(token.balance(alice), 1000);
    assert_eq!(token.allowance(alice, bob), 100);
    assert_eq!(token.total_supply(), 1000);
}

#[test]
fn test_burn_zero_fails() {
    let mut token = TokenBDB::new();
    let admin: u64 = 1;
    let alice: u64 = 2;

    token.initialize(admin, String::from("Token"), String::from("TOK"), 7).unwrap();

    let auth = Authorizer::allow_all();
    token.mint(alice, 100, &auth).unwrap();
    assert_eq!(token.burn(alice, 0, &auth), Err(Error::InvalidAmount));
    assert_eq!(token.balance(alice), 100);
}

#[test]
fn test_burn_insufficient_balance() {
    let mut token = TokenBDB::new();
    let admin: u64 = 1;
    let alice: u64 = 2;

    token.initialize(admin, String::from("Token"), String::from("TOK"), 7).unwrap();

    let auth = Authorizer::allow_all();
    token.mint(alice, 100, &auth).unwrap();
    assert_eq!(token.burn(alice, 101, &auth), Err(Error::InsufficientBalance));
    assert_eq!(token.balance(alice), 100);
    assert_eq!(token.total_supply(), 100);
}

#[test]
fn test_decimals_boundaries() {
    let mut token = TokenBDB::new();
    assert!(token.initialize(1, String::from("Token"), String::from("TOK"), 18).is_ok());
    assert_eq!(token.decimals(), 18);

    let mut plain = TokenBDB::new();
    assert!(plain.initialize(1, String::from("Whole"), String::from("WHL"), 0).is_ok());
    assert_eq!(plain.decimals(), 0);
}

#[test]
fn test_default_zero_reads() {
    let token = TokenBDB::new();
    // Reads never fail, initialized or not, and absent entries are zero.
    assert_eq!(token.balance(42), 0);
    assert_eq!(token.allowance(42, 43), 0);
    assert_eq!(token.total_supply(), 0);

    let mut initialized = TokenBDB::new();
    initialized.initialize(1, String::from("Token"), String::from("TOK"), 7).unwrap();
    assert_eq!(initialized.balance(42), 0);
    assert_eq!(initialized.allowance(42, 43), 0);
}

#[test]
fn test_registry_operations_without_init() {
    let mut token = TokenBDB::new();
    let alice: u64 = 2;
    let bob: u64 = 3;

    let auth = Authorizer::allow_all();
    assert_eq!(token.approve(alice, bob, 100, &auth), Err(Error::NotInitialized));
    assert_eq!(
        token.transfer_from(bob, alice, bob, 100, &auth),
        Err(Error::NotInitialized)
    );
}

#[test]
fn test_supply_equals_sum_of_balances() {
    let mut token = TokenBDB::new();
    let admin: u64 = 1;
    let alice: u64 = 2;
    let bob: u64 = 3;
    let charlie: u64 = 4;

    token.initialize(admin, String::from("Token"), String::from("TOK"), 7).unwrap();

    let auth = Authorizer::allow_all();
    token.mint(alice, 1000, &auth).unwrap();
    token.mint(bob, 500, &auth).unwrap();
    token.transfer(alice, charlie, 250, &auth).unwrap();
    token.burn(bob, 100, &auth).unwrap();
    token.approve(alice, bob, 300, &auth).unwrap();
    token.transfer_from(bob, alice, charlie, 200, &auth).unwrap();

    let sum = token.balance(alice) + token.balance(bob) + token.balance(charlie);
    assert_eq!(token.balance(alice), 550);
    assert_eq!(token.balance(bob), 400);
    assert_eq!(token.balance(charlie), 450);
    assert_eq!(token.total_supply(), sum);
    assert_eq!(token.total_supply(), 1400);
}

#[test]
fn test_mint_accumulates() {
    let mut token = TokenBDB::new();
    let admin: u64 = 1;
    let alice: u64 = 2;

    token.initialize(admin, String::from("Token"), String::from("TOK"), 7).unwrap();

    let auth = Authorizer::allow_all();
    token.mint(alice, 1000, &auth).unwrap();
    token.mint(alice, 500, &auth).unwrap();
    assert_eq!(token.balance(alice), 1500);
    assert_eq!(token.total_supply(), 1500);
}

#[test]
fn test_burn_entire_balance() {
    let mut token = TokenBDB::new();
    let admin: u64 = 1;
    let alice: u64 = 2;
    let bob: u64 = 3;

    token.initialize(admin, String::from("Token"), String::from("TOK"), 7).unwrap();

    let auth = Authorizer::allow_all();
    token.mint(alice, 100, &auth).unwrap();
    token.burn(alice, 100, &auth).unwrap();

    // Zero is the tombstone state: the account reads as empty again.
    assert_eq!(token.balance(alice), 0);
    assert_eq!(token.total_supply(), 0);
    assert_eq!(token.transfer(alice, bob, 1, &auth), Err(Error::InsufficientBalance));
}

#[test]
fn test_transfer_entire_balance() {
    let mut token = TokenBDB::new();
    let admin: u64 = 1;
    let alice: u64 = 2;
    let bob: u64 = 3;

    token.initialize(admin, String::from("Token"), String::from("TOK"), 7).unwrap();

    let auth = Authorizer::allow_all();
    token.mint(alice, 100, &auth).unwrap();
    token.transfer(alice, bob, 100, &auth).unwrap();

    assert_eq!(token.balance(alice), 0);
    assert_eq!(token.balance(bob), 100);
    assert_eq!(token.total_supply(), 100);
}

#[test]
fn test_mint_up_to_integer_width() {
    let mut token = TokenBDB::new();
    let admin: u64 = 1;
    let alice: u64 = 2;

    token.initialize(admin, String::from("Token"), String::from("TOK"), 7).unwrap();

    // The storage representation is the only upper bound on the supply.
    let auth = Authorizer::allow_all();
    token.mint(alice, u64::MAX, &auth).unwrap();
    assert_eq!(token.balance(alice), u64::MAX);
    assert_eq!(token.total_supply(), u64::MAX);
}
