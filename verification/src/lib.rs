//! Verified state-transition logic for two cooperating on-chain contracts:
//! a permissioned catalog of asset metadata and a capped-supply token ledger.

pub mod assetlist;
pub mod coin;
pub mod factory;
pub mod keyed;
pub mod response;
pub mod text;
