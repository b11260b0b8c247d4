use erc721::account::Account;
use erc721::dec::dec_string;
use erc721::errors::Erc721Error;
use erc721::ledger::{ERC721, ERC721Params};
use erc721::token::TokenId;

fn fresh() -> ERC721 {
    ERC721::new(ERC721Params {
        name: "Test NFT".to_string(),
        symbol: "TEST".to_string(),
        base_uri: "https://example.com".to_string(),
    })
}

#[test]
fn name_and_symbol_are_distinct() {
    let l = fresh();
    assert_eq!(l.name().as_str(), "Test NFT");
    assert_eq!(l.symbol().as_str(), "TEST");
}

#[test]
fn token_uri_appends_decimal_id() {
    let mut l = fresh();
    let a = Account::from_u64(1);
    let t = TokenId::from_u64(1);
    assert_eq!(l.mint(a, t), Ok(()));
    assert_eq!(l.token_uri(t), Ok("https://example.com1".to_string()));
}

#[test]
fn token_uri_multi_digit() {
    let mut l = fresh();
    let a = Account::from_u64(1);
    let t = TokenId::from_u64(1234567890);
    assert_eq!(l.mint(a, t), Ok(()));
    assert_eq!(
        l.token_uri(t),
        Ok("https://example.com1234567890".to_string())
    );
}

#[test]
fn token_uri_of_nonexistent_token_rejected() {
    let l = fresh();
    let t = TokenId::from_u64(42);
    assert_eq!(
        l.token_uri(t),
        Err(Erc721Error::TokenNotFound { token_id: t })
    );
}

#[test]
fn decimal_of_zero() {
    assert_eq!(dec_string(TokenId::from_u64(0)).as_str(), "0");
}

#[test]
fn decimal_of_small_values() {
    assert_eq!(dec_string(TokenId::from_u64(7)).as_str(), "7");
    assert_eq!(dec_string(TokenId::from_u64(10)).as_str(), "10");
    assert_eq!(dec_string(TokenId::from_u64(105)).as_str(), "105");
    assert_eq!(
        dec_string(TokenId::from_u64(u64::MAX)).as_str(),
        "18446744073709551615"
    );
}

#[test]
fn decimal_of_largest_identifier() {
    let t = TokenId::new(u64::MAX, u64::MAX, u64::MAX, u64::MAX);
    assert_eq!(
        dec_string(t).as_str(),
        "115792089237316195423570985008687907853269984665640564039457584007913129639935"
    );
}

#[test]
fn decimal_of_wide_limbs() {
    // 2^64 == 18446744073709551616
    let t = TokenId::new(0, 1, 0, 0);
    assert_eq!(dec_string(t).as_str(), "18446744073709551616");
}
