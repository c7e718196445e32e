//! The laws of the marketplace.
//!
//! Each operation's postcondition is a transition relation, so the
//! behavioural guarantees of the library can be stated and proved once,
//! over those relations, for every state and every input.

use crate::errors::NftError;
use crate::events::EventView;
use crate::market::Market;
use crate::market::delist_spec;
use crate::market::list_spec;
use crate::market::mint_spec;
use crate::market::purchase_spec;
use vstd::prelude::*;

verus! {

/// Minting the same identifier twice fails the second time with
/// `DuplicateAsset`, and the failed attempt changes nothing — in
/// particular the owner mapping is untouched.
pub proof fn lemma_mint_duplicate(
    pre: Market,
    to1: u64,
    fid: Seq<u8>,
    v1: u128,
    mid: Market,
    to2: u64,
    v2: u128,
    r2: Result<(), NftError>,
    post: Market,
)
    requires
        mint_spec(pre, to1, fid, v1, Ok(()), mid),
        mint_spec(mid, to2, fid, v2, r2, post),
    ensures
        r2 == Err::<(), NftError>(NftError::DuplicateAsset),
        post == mid,
        post.owners() == mid.owners(),
{
    assert(mid.owners().contains_key(fid));
}

/// After a successful mint of `fid` to `to`, the owner of `fid` is `to`
/// and `to`'s holdings include `fid`.
pub proof fn lemma_mint_ownership(pre: Market, to: u64, fid: Seq<u8>, attached: u128, post: Market)
    requires
        mint_spec(pre, to, fid, attached, Ok(()), post),
    ensures
        post.owners().contains_key(fid),
        post.owners()[fid] == to,
        post.owns(to, fid),
{
}

/// Listing is owner-gated: a non-owner's attempt fails with
/// `NotTokenOwner` and changes nothing, while the owner's attempt sets
/// the asset's price, overwriting any earlier listing.
pub proof fn lemma_list(
    pre: Market,
    caller: u64,
    fid: Seq<u8>,
    price: u128,
    r: Result<(), NftError>,
    post: Market,
)
    requires
        list_spec(pre, caller, fid, price, r, post),
        pre.owners().contains_key(fid),
    ensures
        pre.owners()[fid] != caller ==> r == Err::<(), NftError>(NftError::NotTokenOwner) && post
            == pre,
        pre.owners()[fid] == caller ==> r == Ok::<(), NftError>(()) && post.listings().contains_key(
            fid,
        ) && post.listings()[fid] == price,
{
}

/// For the asset's owner, delisting an unlisted asset fails with
/// `NotForSale` and changes nothing, while delisting a listed asset
/// clears its price.
pub proof fn lemma_delist(
    pre: Market,
    caller: u64,
    fid: Seq<u8>,
    r: Result<(), NftError>,
    post: Market,
)
    requires
        delist_spec(pre, caller, fid, r, post),
        pre.owns(caller, fid),
    ensures
        !pre.listings().contains_key(fid) ==> r == Err::<(), NftError>(NftError::NotForSale) && post
            == pre,
        pre.listings().contains_key(fid) ==> r == Ok::<(), NftError>(())
            && !post.listings().contains_key(fid),
{
}

/// A purchase whose attached value differs from the listed price fails
/// with `PriceMismatch` and leaves owner, listing and balances unchanged.
pub proof fn lemma_purchase_price_mismatch(
    pre: Market,
    caller: u64,
    fid: Seq<u8>,
    attached: u128,
    r: Result<(), NftError>,
    post: Market,
)
    requires
        purchase_spec(pre, caller, fid, attached, r, post),
        pre.owners().contains_key(fid),
        pre.owners()[fid] != caller,
        pre.listings().contains_key(fid),
        attached != pre.listings()[fid],
    ensures
        r == Err::<(), NftError>(NftError::PriceMismatch),
        post == pre,
        post.owners() == pre.owners(),
        post.listings() == pre.listings(),
        post.balances() == pre.balances(),
{
}

/// A purchase by the asset's current owner fails with `SelfPurchase` and
/// changes nothing.
pub proof fn lemma_purchase_self(
    pre: Market,
    caller: u64,
    fid: Seq<u8>,
    attached: u128,
    r: Result<(), NftError>,
    post: Market,
)
    requires
        purchase_spec(pre, caller, fid, attached, r, post),
        pre.owns(caller, fid),
    ensures
        r == Err::<(), NftError>(NftError::SelfPurchase),
        post == pre,
{
}

/// A successful purchase of `fid` by `caller` pays the seller exactly the
/// listed price, makes `caller` the owner, removes the listing, and
/// appends one transfer record and one trade record — and nothing else —
/// to the log.
pub proof fn lemma_purchase_ok(
    pre: Market,
    caller: u64,
    fid: Seq<u8>,
    attached: u128,
    post: Market,
)
    requires
        purchase_spec(pre, caller, fid, attached, Ok(()), post),
    ensures
        attached == pre.listings()[fid],
        post.balances()[pre.owners()[fid]] == pre.balances()[pre.owners()[fid]] + attached,
        post.owns(caller, fid),
        !post.listings().contains_key(fid),
        post.log().len() == pre.log().len() + 2,
        post.log()[post.log().len() - 2] == (EventView::Transfer {
            from: Some(pre.owners()[fid]),
            to: Some(caller),
            id: fid,
        }),
        post.log()[post.log().len() - 1] == (EventView::Trade {
            seller: pre.owners()[fid],
            buyer: caller,
            id: fid,
            price: attached,
        }),
        forall|i: int| 0 <= i < pre.log().len() ==> post.log()[i] == pre.log()[i],
{
}

/// A mint attempted while a guarded operation is in flight fails with
/// `ReentrancyDetected` and does not create an asset.
pub proof fn lemma_mint_reentrancy(
    pre: Market,
    to: u64,
    fid: Seq<u8>,
    attached: u128,
    r: Result<(), NftError>,
    post: Market,
)
    requires
        mint_spec(pre, to, fid, attached, r, post),
        pre.entered,
    ensures
        r == Err::<(), NftError>(NftError::ReentrancyDetected),
        post == pre,
        post.owners() == pre.owners(),
        post.minted == pre.minted,
{
}

} // verus!
