//! What holds of the ledger's rules, whatever the ledger and the batch.

use crate::factory::contract::{cap_refused, mint_outcome};
use crate::factory::msg::ReceiverView;
use crate::factory::state::SupplyLedgerView;
use vstd::prelude::*;

verus! {

/// A mint that goes through leaves the ledger within its cap, whatever it
/// was before, changes nothing but the count of what was minted, and never
/// lowers that count.
pub proof fn lemma_mint_within_cap(
    ledger: SupplyLedgerView,
    contract: Seq<char>,
    receivers: Seq<ReceiverView>,
    valid: Seq<bool>,
)
    ensures
        mint_outcome(ledger, contract, receivers, valid) matches Ok(p) ==> {
            &&& p.0.within_cap()
            &&& p.0.total_minted >= ledger.total_minted
            &&& p.0.total_minted <= u128::MAX
            &&& p.0 == SupplyLedgerView { total_minted: p.0.total_minted, ..ledger }
        },
{
}

/// A batch of receivers with the host's verdicts on their addresses.
pub type Batch = (Seq<ReceiverView>, Seq<bool>);

/// The ledger after a sequence of mints, each either carried out or refused.
pub open spec fn after_mints(
    ledger: SupplyLedgerView,
    contract: Seq<char>,
    batches: Seq<Batch>,
) -> SupplyLedgerView
    decreases batches.len(),
{
    if batches.len() == 0 {
        ledger
    } else {
        let before = after_mints(ledger, contract, batches.drop_last());
        match mint_outcome(before, contract, batches.last().0, batches.last().1) {
            Ok(p) => p.0,
            Err(_) => before,
        }
    }
}

/// No sequence of mints takes a ledger past its cap, and none lowers the
/// count of what was minted or touches the cap.
pub proof fn lemma_mints_within_cap(
    ledger: SupplyLedgerView,
    contract: Seq<char>,
    batches: Seq<Batch>,
)
    requires
        ledger.within_cap(),
    ensures
        after_mints(ledger, contract, batches).within_cap(),
        after_mints(ledger, contract, batches).total_minted >= ledger.total_minted,
        after_mints(ledger, contract, batches).max_supply == ledger.max_supply,
    decreases batches.len(),
{
    if batches.len() > 0 {
        lemma_mints_within_cap(ledger, contract, batches.drop_last());
        lemma_mint_within_cap(
            after_mints(ledger, contract, batches.drop_last()),
            contract,
            batches.last().0,
            batches.last().1,
        );
    }
}

/// A new cap that is accepted is 0 or lies at or above what was minted, so
/// that the ledger is within it.
pub proof fn lemma_cap_never_below_minted(ledger: SupplyLedgerView, new_max: nat)
    requires
        !cap_refused(ledger.total_minted, new_max),
    ensures
        new_max == 0 || new_max >= ledger.total_minted,
        (SupplyLedgerView { max_supply: new_max, ..ledger }).within_cap(),
{
}

} // verus!
