//! A verified model of an on-ledger NFT marketplace with a custodial
//! royalty layer.
//!
//! The library models each contract's persistent state as an explicit
//! value and each entry point as a function from state and call
//! context to a new state and a result; `world` and `delegated`
//! compose the contracts with models of their external collaborators
//! and prove the protocol's end-to-end properties.  Host-side concerns
//! (argument marshalling, storage, purse movement) live outside the
//! library; the 512-bit ledger arithmetic is carried out by
//! `casper-types` behind a small set of trusted wrappers.

pub mod amount;
pub mod call_stack;
pub mod codec;
pub mod custodial;
pub mod delegated;
pub mod error;
pub mod ids;
pub mod kv;
pub mod marketplace;
pub mod royalty;
pub mod token;
pub mod world;
