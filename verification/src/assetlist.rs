//! The asset list: a permissioned catalog of asset metadata, found by
//! denomination or by symbol.

pub mod catalog;
pub mod contract;
pub mod error;
pub mod laws;
pub mod msg;
pub mod samples;
pub mod state;
