//! The messages that the token factory accepts and the answers it gives.

use vstd::prelude::*;

verus! {

#[derive(Debug)]
pub struct InstantiateMsg {
    pub symbol: String,
    /// Minted to the contract itself at once; none if absent.
    pub initial_supply: Option<u128>,
    /// The cap; absent or 0 for none.
    pub max_supply: Option<u128>,
    /// Defaults to the sender.
    pub admin: Option<String>,
}

#[derive(Debug)]
pub enum ExecuteMsg {
    /// Mints to each receiver.
    Mint(Vec<Receiver>),
    /// Transfers from the contract's own balance to each receiver.
    Send(Vec<Receiver>),
    /// Burns from the contract's own balance.
    Burn(u128),
    /// Sets the cap; 0 removes it.
    UpdateSupply(u128),
    /// Gives the authority over the unit away for good.
    Revoke,
}

#[derive(Debug, PartialEq, Eq)]
pub struct Receiver {
    pub address: String,
    pub amount: u128,
}

/// What a `Receiver` stands for in contracts.
pub struct ReceiverView {
    pub address: Seq<char>,
    pub amount: nat,
}

impl View for Receiver {
    type V = ReceiverView;

    open spec fn view(&self) -> ReceiverView {
        ReceiverView { address: self.address@, amount: self.amount as nat }
    }
}

/// The views of a batch of receivers, in order.
pub open spec fn receivers_view(receivers: Seq<Receiver>) -> Seq<ReceiverView> {
    Seq::new(receivers.len(), |i: int| receivers[i]@)
}

#[derive(Debug, Clone, Copy, PartialEq, Eq, Structural)]
pub enum QueryMsg {
    /// The unit's denomination and supply figures.
    TokenInfo,
    /// Whether more can be minted.
    Mintable,
}

#[derive(Debug, PartialEq, Eq)]
pub struct TokenInfoResponse {
    pub symbol: String,
    pub denom: String,
    /// What the host reports as in circulation.
    pub current_supply: u128,
    pub max_supply: u128,
    pub minted: u128,
    /// Minted and no longer in circulation.
    pub burned: u128,
}

#[derive(Debug, Clone, Copy, PartialEq, Eq, Structural)]
pub struct MintableResponse {
    /// There is a cap and all of it was minted.
    pub cap_reached: bool,
    /// The host's authority over the unit is not this contract.
    pub revoked: bool,
}

} // verus!
