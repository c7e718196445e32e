use nft_market::Event;
use nft_market::Market;
use nft_market::NftError;

fn fresh(price_per_mint: u128) -> Market {
    Market::new(1, 100, price_per_mint, b"u/".to_vec())
}

#[test]
fn mint_assigns_owner() {
    let mut m = fresh(5);
    assert_eq!(m.mint(2, b"A".to_vec(), 5), Ok(()));
    assert_eq!(m.owner_of(&b"A".to_vec()), Some(2));
    assert!(m.holds(2, &b"A".to_vec()));
    assert!(!m.holds(3, &b"A".to_vec()));
    assert_eq!(m.total_minted(), 1);
    assert_eq!(m.events_len(), 1);
    assert_eq!(
        m.event_at(0),
        &Event::Transfer { from: None, to: Some(2), id: b"A".to_vec() }
    );
}

#[test]
fn duplicate_mint_rejected() {
    let mut m = fresh(5);
    assert_eq!(m.mint(2, b"A".to_vec(), 5), Ok(()));
    assert_eq!(m.mint(3, b"A".to_vec(), 5), Err(NftError::DuplicateAsset));
    assert_eq!(m.owner_of(&b"A".to_vec()), Some(2));
    assert_eq!(m.total_minted(), 1);
    assert_eq!(m.events_len(), 1);
}

#[test]
fn mint_to_has_no_owner_gate() {
    let mut m = fresh(5);
    assert_eq!(m.mint_to(4, b"A".to_vec(), 5), Ok(()));
    assert_eq!(m.owner_of(&b"A".to_vec()), Some(4));
}

#[test]
fn bad_mint_value_rejected() {
    let mut m = fresh(5);
    assert_eq!(m.mint(2, b"A".to_vec(), 4), Err(NftError::BadMintValue));
    assert_eq!(m.mint(2, b"A".to_vec(), 6), Err(NftError::BadMintValue));
    assert_eq!(m.owner_of(&b"A".to_vec()), None);
    assert_eq!(m.total_minted(), 0);
}

#[test]
fn supply_ceiling_enforced() {
    let mut m = Market::new(1, 1, 0, Vec::new());
    assert_eq!(m.mint(2, b"A".to_vec(), 0), Ok(()));
    assert_eq!(m.mint(2, b"B".to_vec(), 0), Err(NftError::CollectionIsFull));
    assert_eq!(m.total_minted(), 1);
}

#[test]
fn list_by_non_owner_rejected() {
    let mut m = fresh(0);
    assert_eq!(m.mint(2, b"A".to_vec(), 0), Ok(()));
    assert_eq!(m.list(3, b"A".to_vec(), 7), Err(NftError::NotTokenOwner));
    assert_eq!(m.price_of(&b"A".to_vec()), None);
}

#[test]
fn list_sets_and_overwrites_price() {
    let mut m = fresh(0);
    assert_eq!(m.mint(2, b"A".to_vec(), 0), Ok(()));
    assert_eq!(m.list(2, b"A".to_vec(), 7), Ok(()));
    assert_eq!(m.price_of(&b"A".to_vec()), Some(7));
    assert_eq!(m.list(2, b"A".to_vec(), 9), Ok(()));
    assert_eq!(m.price_of(&b"A".to_vec()), Some(9));
}

#[test]
fn delist_unlisted_rejected() {
    let mut m = fresh(0);
    assert_eq!(m.mint(2, b"A".to_vec(), 0), Ok(()));
    assert_eq!(m.delist(2, b"A".to_vec()), Err(NftError::NotForSale));
}

#[test]
fn delist_clears_listing() {
    let mut m = fresh(0);
    assert_eq!(m.mint(2, b"A".to_vec(), 0), Ok(()));
    assert_eq!(m.list(2, b"A".to_vec(), 7), Ok(()));
    assert_eq!(m.delist(2, b"A".to_vec()), Ok(()));
    assert_eq!(m.price_of(&b"A".to_vec()), None);
}

#[test]
fn delist_by_non_owner_rejected() {
    let mut m = fresh(0);
    assert_eq!(m.mint(2, b"A".to_vec(), 0), Ok(()));
    assert_eq!(m.list(2, b"A".to_vec(), 7), Ok(()));
    assert_eq!(m.delist(3, b"A".to_vec()), Err(NftError::NotTokenOwner));
    assert_eq!(m.price_of(&b"A".to_vec()), Some(7));
}

#[test]
fn purchase_price_mismatch_changes_nothing() {
    let mut m = fresh(0);
    assert_eq!(m.mint(2, b"A".to_vec(), 0), Ok(()));
    assert_eq!(m.list(2, b"A".to_vec(), 7), Ok(()));
    assert_eq!(m.purchase(3, b"A".to_vec(), 6), Err(NftError::PriceMismatch));
    assert_eq!(m.purchase(3, b"A".to_vec(), 8), Err(NftError::PriceMismatch));
    assert_eq!(m.owner_of(&b"A".to_vec()), Some(2));
    assert_eq!(m.price_of(&b"A".to_vec()), Some(7));
    assert_eq!(m.funds_of(2), 0);
    assert_eq!(m.funds_of(3), 0);
    assert_eq!(m.events_len(), 1);
}

#[test]
fn purchase_by_owner_rejected() {
    let mut m = fresh(0);
    assert_eq!(m.mint(2, b"A".to_vec(), 0), Ok(()));
    assert_eq!(m.list(2, b"A".to_vec(), 7), Ok(()));
    assert_eq!(m.purchase(2, b"A".to_vec(), 7), Err(NftError::SelfPurchase));
    assert_eq!(m.owner_of(&b"A".to_vec()), Some(2));
}

#[test]
fn purchase_settles_payment_and_ownership() {
    let mut m = fresh(0);
    assert_eq!(m.mint(2, b"A".to_vec(), 0), Ok(()));
    assert_eq!(m.list(2, b"A".to_vec(), 7), Ok(()));
    assert_eq!(m.purchase(3, b"A".to_vec(), 7), Ok(()));
    assert_eq!(m.funds_of(2), 7);
    assert_eq!(m.owner_of(&b"A".to_vec()), Some(3));
    assert!(m.holds(3, &b"A".to_vec()));
    assert_eq!(m.price_of(&b"A".to_vec()), None);
    assert_eq!(m.events_len(), 3);
    assert_eq!(
        m.event_at(1),
        &Event::Transfer { from: Some(2), to: Some(3), id: b"A".to_vec() }
    );
    assert_eq!(
        m.event_at(2),
        &Event::Trade { seller: 2, buyer: 3, id: b"A".to_vec(), price: 7 }
    );
    let mut trades = 0;
    for i in 0..m.events_len() {
        if matches!(m.event_at(i), Event::Trade { .. }) {
            trades += 1;
        }
    }
    assert_eq!(trades, 1);
}

#[test]
fn purchase_of_unminted_rejected() {
    let mut m = fresh(0);
    assert_eq!(m.purchase(3, b"A".to_vec(), 7), Err(NftError::AssetNotFound));
}

#[test]
fn purchase_of_unlisted_rejected() {
    let mut m = fresh(0);
    assert_eq!(m.mint(2, b"A".to_vec(), 0), Ok(()));
    assert_eq!(m.purchase(3, b"A".to_vec(), 7), Err(NftError::NotForSale));
}

#[test]
fn purchase_payment_overflow_rejected() {
    let mut m = fresh(0);
    assert_eq!(m.mint(2, b"A".to_vec(), 0), Ok(()));
    assert_eq!(m.list(2, b"A".to_vec(), u128::MAX), Ok(()));
    assert_eq!(m.purchase(3, b"A".to_vec(), u128::MAX), Ok(()));
    assert_eq!(m.funds_of(2), u128::MAX);
    assert_eq!(m.mint(2, b"B".to_vec(), 0), Ok(()));
    assert_eq!(m.list(2, b"B".to_vec(), 1), Ok(()));
    assert_eq!(
        m.purchase(3, b"B".to_vec(), 1),
        Err(NftError::PaymentTransferFailed)
    );
    assert_eq!(m.owner_of(&b"B".to_vec()), Some(2));
    assert_eq!(m.price_of(&b"B".to_vec()), Some(1));
    assert_eq!(m.funds_of(2), u128::MAX);
}

#[test]
fn reentrant_mint_rejected() {
    let mut m = fresh(0);
    assert_eq!(m.guard_acquire(), Ok(()));
    assert_eq!(m.mint(2, b"A".to_vec(), 0), Err(NftError::ReentrancyDetected));
    assert_eq!(m.mint_to(3, b"A".to_vec(), 0), Err(NftError::ReentrancyDetected));
    assert_eq!(m.owner_of(&b"A".to_vec()), None);
    assert_eq!(m.total_minted(), 0);
    assert_eq!(m.guard_acquire(), Err(NftError::ReentrancyDetected));
    m.guard_release();
    assert_eq!(m.mint(2, b"A".to_vec(), 0), Ok(()));
    assert_eq!(m.total_minted(), 1);
}

#[test]
fn token_uri_appends_identifier() {
    let mut m = Market::new(1, 100, 0, b"https://x/".to_vec());
    assert_eq!(m.mint(2, b"abc".to_vec(), 0), Ok(()));
    assert_eq!(m.token_uri(&b"abc".to_vec()), Ok(b"https://x/abc".to_vec()));
    assert_eq!(m.token_uri(&b"zzz".to_vec()), Err(NftError::AssetNotFound));
}

#[test]
fn empty_identifier_is_allowed() {
    let mut m = Market::new(1, 100, 0, b"base".to_vec());
    assert_eq!(m.mint(2, Vec::new(), 0), Ok(()));
    assert_eq!(m.token_uri(&Vec::new()), Ok(b"base".to_vec()));
}

#[test]
fn set_base_uri_is_owner_gated() {
    let mut m = Market::new(1, 100, 0, b"old/".to_vec());
    assert_eq!(m.set_base_uri(2, b"new/".to_vec()), Err(NftError::NotAuthorized));
    assert_eq!(m.base_uri(), &b"old/".to_vec());
    assert_eq!(m.set_base_uri(1, b"new/".to_vec()), Ok(()));
    assert_eq!(m.base_uri(), &b"new/".to_vec());
    assert_eq!(m.mint(2, b"a".to_vec(), 0), Ok(()));
    assert_eq!(m.token_uri(&b"a".to_vec()), Ok(b"new/a".to_vec()));
}

#[test]
fn set_max_supply_is_owner_gated() {
    let mut m = fresh(0);
    assert_eq!(m.set_max_supply(2, 5), Err(NftError::NotAuthorized));
    assert_eq!(m.max_supply(), 100);
    assert_eq!(m.set_max_supply(1, 5), Ok(()));
    assert_eq!(m.max_supply(), 5);
}

#[test]
fn set_max_supply_below_minted_rejected() {
    let mut m = fresh(0);
    assert_eq!(m.mint(2, b"A".to_vec(), 0), Ok(()));
    assert_eq!(m.mint(2, b"B".to_vec(), 0), Ok(()));
    assert_eq!(m.set_max_supply(1, 1), Err(NftError::CollectionIsFull));
    assert_eq!(m.max_supply(), 100);
    assert_eq!(m.set_max_supply(1, 2), Ok(()));
    assert_eq!(m.max_supply(), 2);
}

#[test]
fn price_getters() {
    let m = fresh(42);
    assert_eq!(m.price(), 42);
    assert_eq!(m.max_supply(), 100);
    assert_eq!(m.total_minted(), 0);
    assert_eq!(m.funds_of(7), 0);
    assert_eq!(m.events_len(), 0);
}

#[test]
fn internal_checks() {
    let mut m = fresh(5);
    assert_eq!(m.check_fid(&b"A".to_vec()), Ok(()));
    assert_eq!(m.check_value(5), Ok(()));
    assert_eq!(m.check_value(4), Err(NftError::BadMintValue));
    assert_eq!(m.token_exists(&b"A".to_vec()), Err(NftError::AssetNotFound));
    assert_eq!(m.check_owner(2, &b"A".to_vec()), Err(NftError::AssetNotFound));
    assert_eq!(m.mint(2, b"A".to_vec(), 5), Ok(()));
    assert_eq!(m.token_exists(&b"A".to_vec()), Ok(()));
    assert_eq!(m.check_owner(2, &b"A".to_vec()), Ok(()));
    assert_eq!(m.check_owner(3, &b"A".to_vec()), Err(NftError::NotTokenOwner));
}

#[test]
fn list_of_unminted_rejected() {
    let mut m = fresh(0);
    assert_eq!(m.list(2, b"A".to_vec(), 7), Err(NftError::AssetNotFound));
    assert_eq!(m.delist(2, b"A".to_vec()), Err(NftError::AssetNotFound));
}

#[test]
fn error_names() {
    assert_eq!(NftError::DuplicateAsset.as_str(), "DuplicateAsset");
    assert_eq!(NftError::AssetNotFound.as_str(), "AssetNotFound");
    assert_eq!(NftError::InvalidExternalId.as_str(), "InvalidExternalId");
    assert_eq!(NftError::BadMintValue.as_str(), "BadMintValue");
    assert_eq!(NftError::NotAuthorized.as_str(), "NotAuthorized");
    assert_eq!(NftError::NotTokenOwner.as_str(), "NotTokenOwner");
    assert_eq!(NftError::NotForSale.as_str(), "NotForSale");
    assert_eq!(NftError::SelfPurchase.as_str(), "SelfPurchase");
    assert_eq!(NftError::PriceMismatch.as_str(), "PriceMismatch");
    assert_eq!(NftError::PaymentTransferFailed.as_str(), "PaymentTransferFailed");
    assert_eq!(NftError::ReentrancyDetected.as_str(), "ReentrancyDetected");
    assert_eq!(NftError::CollectionIsFull.as_str(), "CollectionIsFull");
}
