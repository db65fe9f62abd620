//! The ways in which an asset list operation is refused.

use crate::assetlist::state::Field;
use vstd::prelude::*;

verus! {

/// A refusal. Every refusal leaves the state as it was.
#[derive(Debug, PartialEq, Eq)]
pub enum ContractError {
    /// Only the owner may update the configuration.
    NotOwner,
    /// Adding and editing are restricted to admins.
    AddPermissioned,
    /// Removing is restricted to admins.
    RemovePermissioned,
    /// The caller is neither the listing's author nor an admin.
    Unauthorized,
    /// A fee is due and no funds were attached.
    MissingFee,
    /// Funds of more than one denomination were attached.
    MultipleFees,
    /// The attached denomination is not in the fee schedule.
    InvalidFee,
    /// The attached amount does not cover every listing of the batch.
    InsufficientFee,
    /// The denomination or symbol named is already listed.
    DuplicateListing(String),
    /// Nothing is listed under the denomination or symbol named.
    ListingNotFound(String),
    /// The metadata lacks a field that the configuration demands.
    MissingField(Field),
}

/// What a `ContractError` stands for in contracts.
pub enum ContractErrorView {
    NotOwner,
    AddPermissioned,
    RemovePermissioned,
    Unauthorized,
    MissingFee,
    MultipleFees,
    InvalidFee,
    InsufficientFee,
    DuplicateListing(Seq<char>),
    ListingNotFound(Seq<char>),
    MissingField(Field),
}

impl View for ContractError {
    type V = ContractErrorView;

    open spec fn view(&self) -> ContractErrorView {
        match *self {
            ContractError::NotOwner => ContractErrorView::NotOwner,
            ContractError::AddPermissioned => ContractErrorView::AddPermissioned,
            ContractError::RemovePermissioned => ContractErrorView::RemovePermissioned,
            ContractError::Unauthorized => ContractErrorView::Unauthorized,
            ContractError::MissingFee => ContractErrorView::MissingFee,
            ContractError::MultipleFees => ContractErrorView::MultipleFees,
            ContractError::InvalidFee => ContractErrorView::InvalidFee,
            ContractError::InsufficientFee => ContractErrorView::InsufficientFee,
            ContractError::DuplicateListing(k) => ContractErrorView::DuplicateListing(k@),
            ContractError::ListingNotFound(k) => ContractErrorView::ListingNotFound(k@),
            ContractError::MissingField(f) => ContractErrorView::MissingField(f),
        }
    }
}

} // verus!
