use vaultpair::error::Error;
use vaultpair::ledger_book::{to_e6, LedgerBook};
use vaultpair::types::TokenId;

#[test]
fn available_and_reserved_move_together() {
    let mut b = LedgerBook::new();
    let a = "alice".to_string();
    assert_eq!(b.available(&a, TokenId::USDC), 0);
    b.credit_available(&a, TokenId::USDC, 100);
    assert_eq!(b.reserve_for_lp(&a, TokenId::USDC, 30), Ok(()));
    assert_eq!(b.available(&a, TokenId::USDC), 70);
    assert_eq!(b.reserved(&a, TokenId::USDC), 30);
    assert_eq!(b.release_from_lp(&a, TokenId::USDC, 10), Ok(()));
    assert_eq!(b.available(&a, TokenId::USDC), 80);
    assert_eq!(b.reserved(&a, TokenId::USDC), 20);
    assert_eq!(b.debit_available(&a, TokenId::USDC, 80), Ok(()));
    assert_eq!(b.available(&a, TokenId::USDC), 0);
    assert_eq!(b.available(&a, TokenId::USDT), 0);
}

#[test]
fn overdrafts_are_refused() {
    let mut b = LedgerBook::new();
    let a = "alice".to_string();
    b.set_available(&a, TokenId::ICP, 5);
    assert_eq!(b.debit_available(&a, TokenId::ICP, 6), Err(Error::BalanceTooLow));
    assert_eq!(b.reserve_for_lp(&a, TokenId::ICP, 6), Err(Error::BalanceTooLow));
    assert_eq!(b.release_from_lp(&a, TokenId::ICP, 1), Err(Error::BalanceTooLow));
    assert_eq!(b.available(&a, TokenId::ICP), 5);
}

#[test]
fn sync_keeps_reserved_out_of_available() {
    let mut b = LedgerBook::new();
    let a = "alice".to_string();
    b.credit_available(&a, TokenId::BOB, 50);
    b.reserve_for_lp(&a, TokenId::BOB, 40).unwrap();
    b.sync_available(&a, TokenId::BOB, 10_000);
    assert_eq!(b.available(&a, TokenId::BOB), 60);
    b.sync_available(&a, TokenId::BOB, 1_000);
    assert_eq!(b.available(&a, TokenId::BOB), 0);
    assert_eq!(to_e6(TokenId::USDT, 1_234), 1_234);
    assert_eq!(to_e6(TokenId::ICP, 1_234), 12);
}

#[test]
fn rows_are_per_user_and_token() {
    let mut b = LedgerBook::new();
    let a = "alice".to_string();
    let c = "carol".to_string();
    b.set_available(&a, TokenId::USDC, 1);
    b.set_available(&a, TokenId::USDT, 2);
    b.set_available(&c, TokenId::USDC, 3);
    assert_eq!(
        b.get_available_all(&a),
        vec![(TokenId::USDC, 1), (TokenId::USDT, 2), (TokenId::ICP, 0), (TokenId::BOB, 0)]
    );
    assert_eq!(b.get_available_all(&c)[0], (TokenId::USDC, 3));
    assert_eq!(b.get_reserved_all(&c), vec![(TokenId::USDC, 0), (TokenId::USDT, 0), (TokenId::ICP, 0), (TokenId::BOB, 0)]);
}
