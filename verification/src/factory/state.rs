//! The token factory's stored values.

use vstd::prelude::*;

verus! {

/// The storage slots of the token factory.
#[derive(Debug, Clone, Copy, PartialEq, Eq, Structural)]
pub enum TopKey {
    Admin,
    Symbol,
    Denom,
    MaxSupply,
    TotalMinted,
}

impl TopKey {
    /// The one-letter storage prefix of a slot.
    pub fn as_str(&self) -> (s: &'static str)
        ensures
            s@ == match *self {
                TopKey::Admin => "a"@,
                TopKey::Symbol => "b"@,
                TopKey::Denom => "c"@,
                TopKey::MaxSupply => "d"@,
                TopKey::TotalMinted => "e"@,
            },
    {
        match self {
            TopKey::Admin => "a",
            TopKey::Symbol => "b",
            TopKey::Denom => "c",
            TopKey::MaxSupply => "d",
            TopKey::TotalMinted => "e",
        }
    }
}

/// The books of one fungible unit whose issuance the host carries out.
#[derive(Debug, PartialEq, Eq)]
pub struct SupplyLedger {
    /// The only address that may operate the ledger.
    pub admin: String,
    /// The unit's full denomination on the host.
    pub denom: String,
    /// The unit's symbol.
    pub symbol: String,
    /// The most that may ever be minted; 0 means no cap.
    pub max_supply: u128,
    /// All that was ever minted. Burning does not lower it.
    pub total_minted: u128,
}

/// What a `SupplyLedger` stands for in contracts.
pub struct SupplyLedgerView {
    pub admin: Seq<char>,
    pub denom: Seq<char>,
    pub symbol: Seq<char>,
    pub max_supply: nat,
    pub total_minted: nat,
}

impl SupplyLedgerView {
    /// The cap, where there is one, has not been exceeded.
    pub open spec fn within_cap(self) -> bool {
        self.max_supply != 0 ==> self.total_minted <= self.max_supply
    }
}

impl View for SupplyLedger {
    type V = SupplyLedgerView;

    open spec fn view(&self) -> SupplyLedgerView {
        SupplyLedgerView {
            admin: self.admin@,
            denom: self.denom@,
            symbol: self.symbol@,
            max_supply: self.max_supply as nat,
            total_minted: self.total_minted as nat,
        }
    }
}

impl Clone for SupplyLedger {
    fn clone(&self) -> (l: SupplyLedger)
        ensures
            l@ == self@,
    {
        SupplyLedger {
            admin: self.admin.clone(),
            denom: self.denom.clone(),
            symbol: self.symbol.clone(),
            max_supply: self.max_supply,
            total_minted: self.total_minted,
        }
    }
}

} // verus!
