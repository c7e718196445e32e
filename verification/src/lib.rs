//! A digital-asset registry and marketplace.
//!
//! The library issues unique assets identified by a caller-supplied byte
//! identifier ("fid"), tracks ownership, and lets owners list, delist and
//! sell assets for a native-currency price.  All state lives in an explicit
//! [`market::Market`] value; the surrounding platform (accounts, attached
//! payments, event delivery) is modelled by plain values handed in and out.

pub mod bank;
pub mod bytemap;
pub mod errors;
pub mod events;
pub mod laws;
pub mod market;

pub use errors::NftError;
pub use events::Event;
pub use market::Config;
pub use market::Market;
