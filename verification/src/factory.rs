//! The token factory: a capped-supply ledger for one fungible unit, which
//! the host's ledger modules issue, move and destroy on its instructions.

pub mod address;
pub mod contract;
pub mod error;
pub mod laws;
pub mod msg;
pub mod state;
