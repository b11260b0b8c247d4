use erc721::account::Account;
use erc721::errors::Erc721Error;
use erc721::events::Event;
use erc721::ledger::{ERC721, ERC721Params};
use erc721::token::TokenId;

fn fresh() -> ERC721 {
    ERC721::new(ERC721Params {
        name: "Test NFT".to_string(),
        symbol: "TEST".to_string(),
        base_uri: "https://example.com".to_string(),
    })
}

#[test]
fn mint_assigns_owner_and_balance() {
    let mut l = fresh();
    let a = Account::from_u64(1);
    let b = Account::from_u64(2);
    let t = TokenId::from_u64(1);
    assert_eq!(l.mint(a, t), Ok(()));
    assert_eq!(l.owner_of(t), a);
    assert_eq!(l.balance_of(a), 1);
    assert_eq!(l.balance_of(b), 0);
}

#[test]
fn approved_delegate_can_transfer() {
    let mut l = fresh();
    let a = Account::from_u64(1);
    let b = Account::from_u64(2);
    let c = Account::from_u64(3);
    let t = TokenId::from_u64(1);
    assert_eq!(l.mint(a, t), Ok(()));
    assert_eq!(l.approve(a, b, t), Ok(()));
    assert_eq!(l.get_approved(t), Ok(b));
    assert_eq!(l.transfer_from(b, a, c, t), Ok(()));
    assert_eq!(l.owner_of(t), c);
    assert_eq!(l.get_approved(t), Ok(Account::null()));
    assert_eq!(l.balance_of(a), 0);
    assert_eq!(l.balance_of(c), 1);
}

#[test]
fn unrelated_actor_cannot_transfer() {
    let mut l = fresh();
    let a = Account::from_u64(1);
    let c = Account::from_u64(3);
    let d = Account::from_u64(4);
    let t = TokenId::from_u64(1);
    assert_eq!(l.mint(a, t), Ok(()));
    let events_before = l.event_log().len();
    assert_eq!(
        l.transfer_from(d, a, c, t),
        Err(Erc721Error::InsufficientApproval { operator: d, token_id: t })
    );
    assert_eq!(l.owner_of(t), a);
    assert_eq!(l.balance_of(a), 1);
    assert_eq!(l.balance_of(c), 0);
    assert_eq!(l.event_log().len(), events_before);
}

#[test]
fn never_minted_token_reads() {
    let l = fresh();
    let t = TokenId::from_u64(999);
    assert_eq!(l.owner_of(t), Account::null());
    assert_eq!(
        l.get_approved(t),
        Err(Erc721Error::TokenNotFound { token_id: t })
    );
}

#[test]
fn null_operator_rejected() {
    let mut l = fresh();
    let a = Account::from_u64(1);
    assert_eq!(
        l.set_approval_for_all(a, Account::null(), true),
        Err(Erc721Error::InvalidOperator { operator: Account::null() })
    );
    assert_eq!(l.event_log().len(), 0);
    assert!(!l.is_approved_for_all(a, Account::null()));
}

#[test]
fn transfer_to_null_receiver_rejected() {
    let mut l = fresh();
    let a = Account::from_u64(1);
    let t = TokenId::from_u64(1);
    assert_eq!(l.mint(a, t), Ok(()));
    let events_before = l.event_log().len();
    assert_eq!(
        l.transfer_from(a, a, Account::null(), t),
        Err(Erc721Error::InvalidReceiver { receiver: Account::null() })
    );
    assert_eq!(l.owner_of(t), a);
    assert_eq!(l.balance_of(a), 1);
    assert_eq!(l.event_log().len(), events_before);
}

#[test]
fn incorrect_owner_reported() {
    let mut l = fresh();
    let a = Account::from_u64(1);
    let b = Account::from_u64(2);
    let c = Account::from_u64(3);
    let t = TokenId::from_u64(1);
    assert_eq!(l.mint(a, t), Ok(()));
    assert_eq!(
        l.transfer_from(a, c, b, t),
        Err(Erc721Error::IncorrectOwner { sender: c, token_id: t, owner: a })
    );
    assert_eq!(l.owner_of(t), a);
}

#[test]
fn mint_of_existing_token_rejected() {
    let mut l = fresh();
    let a = Account::from_u64(1);
    let b = Account::from_u64(2);
    let t = TokenId::from_u64(1);
    assert_eq!(l.mint(a, t), Ok(()));
    assert_eq!(
        l.mint(b, t),
        Err(Erc721Error::InvalidSender { sender: Account::null() })
    );
    assert_eq!(l.owner_of(t), a);
}

#[test]
fn mint_to_null_rejected() {
    let mut l = fresh();
    let t = TokenId::from_u64(1);
    assert_eq!(
        l.mint(Account::null(), t),
        Err(Erc721Error::InvalidReceiver { receiver: Account::null() })
    );
}

#[test]
fn burn_destroys_token() {
    let mut l = fresh();
    let a = Account::from_u64(1);
    let t = TokenId::from_u64(1);
    assert_eq!(l.mint(a, t), Ok(()));
    assert_eq!(l.burn(t), Ok(()));
    assert_eq!(l.owner_of(t), Account::null());
    assert_eq!(l.balance_of(a), 0);
    assert_eq!(
        l.get_approved(t),
        Err(Erc721Error::TokenNotFound { token_id: t })
    );
}

#[test]
fn burn_of_nonexistent_token_rejected() {
    let mut l = fresh();
    let t = TokenId::from_u64(5);
    assert_eq!(l.burn(t), Err(Erc721Error::TokenNotFound { token_id: t }));
}

#[test]
fn transfer_of_nonexistent_token_rejected() {
    let mut l = fresh();
    let a = Account::from_u64(1);
    let b = Account::from_u64(2);
    let t = TokenId::from_u64(5);
    assert_eq!(
        l.transfer_from(a, a, b, t),
        Err(Erc721Error::TokenNotFound { token_id: t })
    );
}

#[test]
fn approve_of_nonexistent_token_rejected() {
    let mut l = fresh();
    let a = Account::from_u64(1);
    let b = Account::from_u64(2);
    let t = TokenId::from_u64(5);
    assert_eq!(
        l.approve(a, b, t),
        Err(Erc721Error::TokenNotFound { token_id: t })
    );
}

#[test]
fn approve_by_unrelated_actor_rejected() {
    let mut l = fresh();
    let a = Account::from_u64(1);
    let b = Account::from_u64(2);
    let d = Account::from_u64(4);
    let t = TokenId::from_u64(1);
    assert_eq!(l.mint(a, t), Ok(()));
    assert_eq!(
        l.approve(d, b, t),
        Err(Erc721Error::InvalidOperator { operator: d })
    );
    assert_eq!(l.get_approved(t), Ok(Account::null()));
}

#[test]
fn blanket_operator_can_transfer() {
    let mut l = fresh();
    let a = Account::from_u64(1);
    let b = Account::from_u64(2);
    let c = Account::from_u64(3);
    let t = TokenId::from_u64(1);
    assert_eq!(l.mint(a, t), Ok(()));
    assert_eq!(l.set_approval_for_all(a, b, true), Ok(()));
    assert!(l.is_approved_for_all(a, b));
    assert_eq!(l.transfer_from(b, a, c, t), Ok(()));
    assert_eq!(l.owner_of(t), c);
}

#[test]
fn revoked_operator_cannot_transfer() {
    let mut l = fresh();
    let a = Account::from_u64(1);
    let b = Account::from_u64(2);
    let c = Account::from_u64(3);
    let t = TokenId::from_u64(1);
    assert_eq!(l.mint(a, t), Ok(()));
    assert_eq!(l.set_approval_for_all(a, b, true), Ok(()));
    assert_eq!(l.set_approval_for_all(a, b, false), Ok(()));
    assert!(!l.is_approved_for_all(a, b));
    assert_eq!(
        l.transfer_from(b, a, c, t),
        Err(Erc721Error::InsufficientApproval { operator: b, token_id: t })
    );
}

#[test]
fn operator_can_delegate_single_token() {
    let mut l = fresh();
    let a = Account::from_u64(1);
    let b = Account::from_u64(2);
    let c = Account::from_u64(3);
    let t = TokenId::from_u64(1);
    assert_eq!(l.mint(a, t), Ok(()));
    assert_eq!(l.set_approval_for_all(a, b, true), Ok(()));
    assert_eq!(l.approve(b, c, t), Ok(()));
    assert_eq!(l.get_approved(t), Ok(c));
}

#[test]
fn transfer_to_self_keeps_balance() {
    let mut l = fresh();
    let a = Account::from_u64(1);
    let t = TokenId::from_u64(1);
    assert_eq!(l.mint(a, t), Ok(()));
    assert_eq!(l.transfer_from(a, a, a, t), Ok(()));
    assert_eq!(l.owner_of(t), a);
    assert_eq!(l.balance_of(a), 1);
}

#[test]
fn safe_transfer_matches_transfer() {
    let mut l = fresh();
    let a = Account::from_u64(1);
    let b = Account::from_u64(2);
    let t = TokenId::from_u64(1);
    assert_eq!(l.mint(a, t), Ok(()));
    assert_eq!(l.safe_transfer_from(a, a, b, t), Ok(()));
    assert_eq!(l.owner_of(t), b);
}

#[test]
fn balance_of_null_account_is_zero() {
    let mut l = fresh();
    let a = Account::from_u64(1);
    let t = TokenId::from_u64(1);
    assert_eq!(l.mint(a, t), Ok(()));
    assert_eq!(l.burn(t), Ok(()));
    assert_eq!(l.balance_of(Account::null()), 0);
}

#[test]
fn transfer_events_recorded_in_order() {
    let mut l = fresh();
    let a = Account::from_u64(1);
    let b = Account::from_u64(2);
    let t = TokenId::from_u64(1);
    assert_eq!(l.mint(a, t), Ok(()));
    assert_eq!(l.transfer_from(a, a, b, t), Ok(()));
    assert_eq!(l.burn(t), Ok(()));
    let log = l.event_log();
    assert_eq!(log.len(), 3);
    assert_eq!(
        log[0],
        Event::Transfer { from: Account::null(), to: a, token_id: t }
    );
    assert_eq!(log[1], Event::Transfer { from: a, to: b, token_id: t });
    assert_eq!(
        log[2],
        Event::Transfer { from: b, to: Account::null(), token_id: t }
    );
}

#[test]
fn authorization_rule() {
    let mut l = fresh();
    let a = Account::from_u64(1);
    let b = Account::from_u64(2);
    let c = Account::from_u64(3);
    let t = TokenId::from_u64(1);
    assert_eq!(l.mint(a, t), Ok(()));
    assert!(l.is_authorized(a, a, t));
    assert!(!l.is_authorized(a, b, t));
    assert!(!l.is_authorized(a, Account::null(), t));
    assert_eq!(l.approve(a, b, t), Ok(()));
    assert!(l.is_authorized(a, b, t));
    assert!(!l.is_authorized(a, c, t));
    assert_eq!(l.set_approval_for_all(a, c, true), Ok(()));
    assert!(l.is_authorized(a, c, t));
}

#[test]
fn approval_events_recorded() {
    let mut l = fresh();
    let a = Account::from_u64(1);
    let b = Account::from_u64(2);
    let t = TokenId::from_u64(1);
    assert_eq!(l.mint(a, t), Ok(()));
    assert_eq!(l.approve(a, b, t), Ok(()));
    assert_eq!(l.set_approval_for_all(a, b, true), Ok(()));
    let log = l.event_log();
    assert_eq!(log.len(), 3);
    assert_eq!(
        log[1],
        Event::Approval { owner: a, approved: b, token_id: t }
    );
    assert_eq!(
        log[2],
        Event::ApprovalForAll { owner: a, operator: b, approved: true }
    );
}
