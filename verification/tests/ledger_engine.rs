use solana_erc3643::error::TokenError;
use solana_erc3643::ledger::{burn_amount, mint_amount, move_amount};

#[test]
fn move_amount_takes_from_source_and_gives_to_destination() {
    assert_eq!(move_amount(100, 0, 40), Ok((60, 40)));
}

#[test]
fn move_amount_rejects_more_than_the_source_holds() {
    assert_eq!(move_amount(60, 0, 1000), Err(TokenError::InsufficientFunds));
}

#[test]
fn move_amount_rejects_overflow_of_the_destination() {
    assert_eq!(move_amount(10, u64::MAX - 5, 6), Err(TokenError::TransferExceedsLimit));
    assert_eq!(move_amount(10, u64::MAX - 5, 5), Ok((5, u64::MAX)));
}

#[test]
fn mint_amount_grows_supply_and_balance() {
    assert_eq!(mint_amount(0, 0, 50), Ok((50, 50)));
    assert_eq!(mint_amount(u64::MAX, 0, 1), Err(TokenError::TransferExceedsLimit));
    assert_eq!(mint_amount(0, u64::MAX, 1), Err(TokenError::TransferExceedsLimit));
}

#[test]
fn burn_amount_shrinks_supply_and_balance() {
    assert_eq!(burn_amount(100, 60, 60), Ok((40, 0)));
    assert_eq!(burn_amount(100, 60, 1000), Err(TokenError::InsufficientFunds));
    assert_eq!(burn_amount(10, 60, 20), Err(TokenError::InsufficientFunds));
}
