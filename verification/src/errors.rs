//! The error taxonomy of the marketplace.
//!
//! Every failure aborts the current operation with no state mutation and
//! surfaces one of these kinds to the caller; nothing is retried internally.

use vstd::prelude::*;

verus! {

/// Why a marketplace operation was refused.
#[derive(Clone, Copy, Debug, PartialEq, Eq, Structural)]
pub enum NftError {
    /// `mint`: the asset identifier already has an owner.
    DuplicateAsset,
    /// The referenced asset has never been minted.
    AssetNotFound,
    /// The external identifier was rejected by the validator.
    InvalidExternalId,
    /// `mint`: the attached payment differs from the per-mint price.
    BadMintValue,
    /// The caller is not the collection owner.
    NotAuthorized,
    /// The caller does not own the referenced asset.
    NotTokenOwner,
    /// The referenced asset carries no sale listing.
    NotForSale,
    /// The buyer already owns the referenced asset.
    SelfPurchase,
    /// The attached payment differs from the listed price.
    PriceMismatch,
    /// The currency transfer to the seller failed.
    PaymentTransferFailed,
    /// A guarded operation was entered again before the outer call finished.
    ReentrancyDetected,
    /// The supply ceiling forbids the requested mint or ceiling change.
    CollectionIsFull,
}

impl NftError {
    /// The error's name, as shown to callers.
    pub open spec fn text(self) -> Seq<char> {
        match self {
            NftError::DuplicateAsset => "DuplicateAsset"@,
            NftError::AssetNotFound => "AssetNotFound"@,
            NftError::InvalidExternalId => "InvalidExternalId"@,
            NftError::BadMintValue => "BadMintValue"@,
            NftError::NotAuthorized => "NotAuthorized"@,
            NftError::NotTokenOwner => "NotTokenOwner"@,
            NftError::NotForSale => "NotForSale"@,
            NftError::SelfPurchase => "SelfPurchase"@,
            NftError::PriceMismatch => "PriceMismatch"@,
            NftError::PaymentTransferFailed => "PaymentTransferFailed"@,
            NftError::ReentrancyDetected => "ReentrancyDetected"@,
            NftError::CollectionIsFull => "CollectionIsFull"@,
        }
    }

    /// The error's name, for messages and logs.
    pub fn as_str(&self) -> (s: &'static str)
        ensures
            s@ == self.text(),
    {
        match self {
            NftError::DuplicateAsset => "DuplicateAsset",
            NftError::AssetNotFound => "AssetNotFound",
            NftError::InvalidExternalId => "InvalidExternalId",
            NftError::BadMintValue => "BadMintValue",
            NftError::NotAuthorized => "NotAuthorized",
            NftError::NotTokenOwner => "NotTokenOwner",
            NftError::NotForSale => "NotForSale",
            NftError::SelfPurchase => "SelfPurchase",
            NftError::PriceMismatch => "PriceMismatch",
            NftError::PaymentTransferFailed => "PaymentTransferFailed",
            NftError::ReentrancyDetected => "ReentrancyDetected",
            NftError::CollectionIsFull => "CollectionIsFull",
        }
    }
}

} // verus!
