//! The ways in which a token factory operation is refused.

use vstd::prelude::*;

verus! {

/// A refusal. Every refusal leaves the ledger as it was.
#[derive(Debug, Clone, Copy, PartialEq, Eq, Structural)]
pub enum ContractError {
    /// The caller is not the ledger's admin.
    Unauthorized,
    /// The new cap lies below what was already minted.
    CurrentSupply,
    /// The mint would take the total past the cap.
    SupplyCap,
    /// The transfer at this position of the batch is not acceptable.
    TransferInvalid(usize),
    /// The mint at this position of the batch is not acceptable.
    MintInvalid(usize),
    /// The contract's own address has no bech32 form, so that no null
    /// address can be derived from it.
    NullAddress,
}

} // verus!
