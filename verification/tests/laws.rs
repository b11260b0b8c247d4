use erc721::account::Account;
use erc721::events::Event;
use erc721::ledger::{ERC721, ERC721Params};
use erc721::token::TokenId;

fn fresh() -> ERC721 {
    ERC721::new(ERC721Params {
        name: "Test NFT".to_string(),
        symbol: "TEST".to_string(),
        base_uri: "https://example.com".to_string(),
    })
}

#[test]
fn balance_counts_owned_tokens() {
    let mut l = fresh();
    let a = Account::from_u64(1);
    let b = Account::from_u64(2);
    for i in 1..=4u64 {
        assert_eq!(l.mint(a, TokenId::from_u64(i)), Ok(()));
    }
    assert_eq!(l.balance_of(a), 4);
    assert_eq!(l.transfer_from(a, a, b, TokenId::from_u64(2)), Ok(()));
    assert_eq!(l.burn(TokenId::from_u64(3)), Ok(()));
    assert_eq!(l.balance_of(a), 2);
    assert_eq!(l.balance_of(b), 1);
}

#[test]
fn single_owner_across_transfers() {
    let mut l = fresh();
    let a = Account::from_u64(1);
    let b = Account::from_u64(2);
    let t = TokenId::from_u64(1);
    assert_eq!(l.mint(a, t), Ok(()));
    assert_eq!(l.transfer_from(a, a, b, t), Ok(()));
    assert_eq!(l.owner_of(t), b);
    assert_ne!(l.owner_of(t), a);
    assert_eq!(l.balance_of(a), 0);
}

#[test]
fn transfer_clears_prior_approval() {
    let mut l = fresh();
    let a = Account::from_u64(1);
    let b = Account::from_u64(2);
    let c = Account::from_u64(3);
    let t = TokenId::from_u64(1);
    assert_eq!(l.mint(a, t), Ok(()));
    assert_eq!(l.approve(a, c, t), Ok(()));
    assert_eq!(l.get_approved(t), Ok(c));
    assert_eq!(l.transfer_from(a, a, b, t), Ok(()));
    assert_eq!(l.get_approved(t), Ok(Account::null()));
}

#[test]
fn double_approval_is_idempotent_but_notifies_twice() {
    let mut l = fresh();
    let a = Account::from_u64(1);
    let op = Account::from_u64(9);
    assert_eq!(l.set_approval_for_all(a, op, true), Ok(()));
    assert!(l.is_approved_for_all(a, op));
    assert_eq!(l.set_approval_for_all(a, op, true), Ok(()));
    assert!(l.is_approved_for_all(a, op));
    let log = l.event_log();
    assert_eq!(log.len(), 2);
    let note = Event::ApprovalForAll { owner: a, operator: op, approved: true };
    assert_eq!(log[0], note);
    assert_eq!(log[1], note);
}

#[test]
fn transfer_round_trip_restores_state() {
    let mut l = fresh();
    let a = Account::from_u64(1);
    let b = Account::from_u64(2);
    let t = TokenId::from_u64(1);
    assert_eq!(l.mint(a, t), Ok(()));
    assert_eq!(l.mint(b, TokenId::from_u64(2)), Ok(()));
    let bal_a = l.balance_of(a);
    let bal_b = l.balance_of(b);
    assert_eq!(l.transfer_from(a, a, b, t), Ok(()));
    assert_eq!(l.transfer_from(b, b, a, t), Ok(()));
    assert_eq!(l.owner_of(t), a);
    assert_eq!(l.balance_of(a), bal_a);
    assert_eq!(l.balance_of(b), bal_b);
}
