//! The token factory's operations: the bookkeeping of the ledger and the
//! instructions it emits for the host.

use crate::factory::address::{null_address, null_address_of};
use crate::factory::error::ContractError;
use crate::factory::msg::{
    receivers_view, ExecuteMsg, InstantiateMsg, MintableResponse, QueryMsg, Receiver, ReceiverView,
    TokenInfoResponse,
};
use crate::factory::state::{SupplyLedger, SupplyLedgerView};
use crate::response::{
    Attribute, AttributeView, Instruction, InstructionView, Response, ResponseView,
};
use crate::text::{copy_str, decimal, decimal_string, same_text};
use vstd::prelude::*;
use vstd::string::StringExecFns;

verus! {

/// The name under which the factory registers a symbol with the host.
pub open spec fn subdenom_of(symbol: Seq<char>) -> Seq<char> {
    "tfa/"@ + symbol
}

/// The full denomination of a symbol registered by the contract.
pub open spec fn denom_of(contract: Seq<char>, symbol: Seq<char>) -> Seq<char> {
    "factory/"@ + contract + "/"@ + subdenom_of(symbol)
}

/// An absent amount counts as zero.
pub open spec fn amount_of(a: Option<u128>) -> nat {
    match a {
        Some(n) => n as nat,
        None => 0,
    }
}

/// The ledger that an instantiation opens.
pub open spec fn initial_ledger(
    sender: Seq<char>,
    contract: Seq<char>,
    symbol: Seq<char>,
    initial_supply: nat,
    max_supply: nat,
    admin: Option<Seq<char>>,
) -> SupplyLedgerView {
    SupplyLedgerView {
        admin: match admin {
            Some(a) => a,
            None => sender,
        },
        denom: denom_of(contract, symbol),
        symbol,
        max_supply,
        total_minted: initial_supply,
    }
}

/// What an instantiation hands to the host: the registration of the unit
/// and, for a positive initial supply, its minting to the contract itself.
pub open spec fn initial_response(
    contract: Seq<char>,
    symbol: Seq<char>,
    initial_supply: nat,
) -> ResponseView {
    let base = ResponseView::empty().add_message(
        InstructionView::CreateDenom { sender: contract, subdenom: subdenom_of(symbol) },
    );
    if initial_supply == 0 {
        base.add_attribute("action"@, "instantiate"@).add_attribute("action"@, "create_denom"@)
    } else {
        base.add_message(
            InstructionView::Mint {
                sender: contract,
                denom: denom_of(contract, symbol),
                amount: initial_supply,
                mint_to_address: contract,
            },
        ).add_attribute("action"@, "instantiate"@).add_attribute(
            "action"@,
            "create_denom"@,
        ).add_attribute("initial_mint"@, decimal(initial_supply))
    }
}

/// Opens the ledger of a new unit. An initial supply above a nonzero cap is
/// refused with `SupplyCap`.
pub fn instantiate(sender: &str, contract: &str, msg: InstantiateMsg) -> (r: Result<
    (SupplyLedger, Response),
    ContractError,
>)
    ensures
        match r {
            Ok(p) => {
                &&& !(amount_of(msg.initial_supply) > amount_of(msg.max_supply) && amount_of(
                    msg.max_supply,
                ) != 0)
                &&& p.0@ == initial_ledger(
                    sender@,
                    contract@,
                    msg.symbol@,
                    amount_of(msg.initial_supply),
                    amount_of(msg.max_supply),
                    crate::text::opt_text(msg.admin),
                )
                &&& p.0@.within_cap()
                &&& p.1@ == initial_response(contract@, msg.symbol@, amount_of(msg.initial_supply))
            },
            Err(e) => e == ContractError::SupplyCap && amount_of(msg.initial_supply) > amount_of(
                msg.max_supply,
            ) && amount_of(msg.max_supply) != 0,
        },
{
    let initial_supply: u128 = match msg.initial_supply {
        Some(n) => n,
        None => 0,
    };
    let max_supply: u128 = match msg.max_supply {
        Some(n) => n,
        None => 0,
    };
    if initial_supply > max_supply && max_supply != 0 {
        return Err(ContractError::SupplyCap);
    }
    let admin = match msg.admin {
        Some(a) => a,
        None => copy_str(sender),
    };
    let subdenom = String::from_str("tfa/").concat(msg.symbol.as_str());
    let denom = String::from_str("factory/").concat(contract).concat("/").concat(subdenom.as_str());
    let response = Response::new().add_message(
        Instruction::CreateDenom { sender: copy_str(contract), subdenom },
    );
    let response = if initial_supply == 0 {
        response.add_attribute("action", "instantiate").add_attribute("action", "create_denom")
    } else {
        let minted = decimal_string(initial_supply);
        response.add_message(
            Instruction::Mint {
                sender: copy_str(contract),
                denom: denom.clone(),
                amount: initial_supply,
                mint_to_address: copy_str(contract),
            },
        ).add_attribute("action", "instantiate").add_attribute(
            "action",
            "create_denom",
        ).add_attribute("initial_mint", minted.as_str())
    };
    let ledger = SupplyLedger {
        admin,
        denom,
        symbol: msg.symbol,
        max_supply,
        total_minted: initial_supply,
    };
    Ok((ledger, response))
}

/// What a burn hands to the host: the destruction of the amount from the
/// contract's own balance.
pub open spec fn burn_response(contract: Seq<char>, denom: Seq<char>, amount: nat) -> ResponseView {
    ResponseView::empty().add_message(
        InstructionView::Burn { sender: contract, denom, amount, burn_from_address: contract },
    ).add_attribute("action"@, "burn"@).add_attribute("amount"@, decimal(amount))
}

/// Burns from the contract's balance. The ledger's count of what was minted
/// does not change.
pub fn execute_burn(ledger: &SupplyLedger, contract: &str, burn_amount: u128) -> (r: Result<
    Response,
    ContractError,
>)
    ensures
        r matches Ok(resp) && resp@ == burn_response(contract@, ledger@.denom, burn_amount as nat),
{
    let amount = decimal_string(burn_amount);
    Ok(
        Response::new().add_message(
            Instruction::Burn {
                sender: copy_str(contract),
                denom: ledger.denom.clone(),
                amount: burn_amount,
                burn_from_address: copy_str(contract),
            },
        ).add_attribute("action", "burn").add_attribute("amount", amount.as_str()),
    )
}

/// A cap below what was already minted is refused; 0 lifts the cap.
pub open spec fn cap_refused(total_minted: nat, new_max: nat) -> bool {
    new_max < total_minted && new_max != 0
}

/// Sets the cap.
pub fn execute_update_supply(ledger: &mut SupplyLedger, new_max: u128) -> (r: Result<
    Response,
    ContractError,
>)
    ensures
        old(ledger)@.within_cap() ==> final(ledger)@.within_cap(),
        match r {
            Ok(resp) => !cap_refused(old(ledger)@.total_minted, new_max as nat) && resp@
                == ResponseView::action("update_metadata"@) && final(ledger)@ == (SupplyLedgerView {
                max_supply: new_max as nat,
                ..old(ledger)@
            }) && final(ledger)@.within_cap(),
            Err(e) => cap_refused(old(ledger)@.total_minted, new_max as nat) && e
                == ContractError::CurrentSupply && *final(ledger) == *old(ledger),
        },
{
    if new_max < ledger.total_minted && new_max != 0 {
        return Err(ContractError::CurrentSupply);
    }
    ledger.max_supply = new_max;
    Ok(Response::action("update_metadata"))
}

/// What a revocation hands to the host: the authority over the unit goes to
/// the null address.
pub open spec fn revoke_response(
    contract: Seq<char>,
    denom: Seq<char>,
    null: Seq<char>,
) -> ResponseView {
    ResponseView::empty().add_message(
        InstructionView::ChangeAdmin { sender: contract, denom, new_admin: null },
    ).add_attribute("action"@, "burn_minter"@)
}

/// The instruction that gives the authority over the ledger's unit to a
/// null address.
pub fn revoke_to(ledger: &SupplyLedger, contract: &str, null: String) -> (r: Response)
    ensures
        r@ == revoke_response(contract@, ledger@.denom, null@),
{
    Response::new().add_message(
        Instruction::ChangeAdmin {
            sender: copy_str(contract),
            denom: ledger.denom.clone(),
            new_admin: null,
        },
    ).add_attribute("action", "burn_minter")
}

/// Gives the authority over the unit to the null address of the contract's
/// chain. The ledger keeps no record of it. A contract address without a
/// bech32 form is refused with `NullAddress`.
pub fn execute_revoke(ledger: &SupplyLedger, contract: &str) -> (r: Result<Response, ContractError>)
    ensures
        match null_address_of(contract@) {
            Some(null) => r matches Ok(resp) && resp@ == revoke_response(
                contract@,
                ledger@.denom,
                null,
            ),
            None => r == Err::<Response, ContractError>(ContractError::NullAddress),
        },
{
    match null_address(contract) {
        Some(null) => Ok(revoke_to(ledger, contract, null)),
        None => Err(ContractError::NullAddress),
    }
}

/// The unit's figures. `burned` is what was minted and is no longer in
/// circulation; where the host reports more in circulation than was ever
/// minted there is no such figure and no answer.
pub fn query_info(ledger: &SupplyLedger, current_supply: u128) -> (r: Option<TokenInfoResponse>)
    ensures
        match r {
            Some(info) => {
                &&& current_supply <= ledger.total_minted
                &&& info.symbol@ == ledger@.symbol
                &&& info.denom@ == ledger@.denom
                &&& info.current_supply == current_supply
                &&& info.max_supply == ledger.max_supply
                &&& info.minted == ledger.total_minted
                &&& info.burned == ledger.total_minted - current_supply
            },
            None => current_supply > ledger.total_minted,
        },
{
    if current_supply > ledger.total_minted {
        return None;
    }
    Some(
        TokenInfoResponse {
            symbol: ledger.symbol.clone(),
            denom: ledger.denom.clone(),
            current_supply,
            max_supply: ledger.max_supply,
            minted: ledger.total_minted,
            burned: ledger.total_minted - current_supply,
        },
    )
}

/// Whether more can be minted: not where a cap is set and reached, and not
/// by this contract where the host names another authority over the unit.
pub fn query_mintable(ledger: &SupplyLedger, contract: &str, authority: &str) -> (r:
    MintableResponse)
    ensures
        r.cap_reached == (ledger.max_supply != 0 && ledger.total_minted == ledger.max_supply),
        r.revoked == (authority@ != contract@),
{
    MintableResponse {
        cap_reached: ledger.max_supply != 0 && ledger.total_minted == ledger.max_supply,
        revoked: !same_text(authority, contract),
    }
}

/// The host's verdict on the address at a position of a batch. An address
/// without a verdict counts as invalid.
pub open spec fn verdict(valid: Seq<bool>, i: int) -> bool {
    0 <= i < valid.len() && valid[i]
}

/// The sum of the amounts of a batch.
pub open spec fn total_amount(receivers: Seq<ReceiverView>) -> nat
    decreases receivers.len(),
{
    if receivers.len() == 0 {
        0
    } else {
        total_amount(receivers.drop_last()) + receivers.last().amount
    }
}

/// The item at a position is not acceptable: its amount is zero or its
/// address is invalid. In a `bounded` batch an item is also refused where
/// the amounts up to and including it add up to more than a `u128` holds.
pub open spec fn rejected(
    receivers: Seq<ReceiverView>,
    valid: Seq<bool>,
    bounded: bool,
    i: int,
) -> bool {
    ||| receivers[i].amount == 0
    ||| !verdict(valid, i)
    ||| bounded && total_amount(receivers.take(i + 1)) > u128::MAX
}

/// The first position from `from` on whose item is not acceptable.
pub open spec fn first_rejected(
    receivers: Seq<ReceiverView>,
    valid: Seq<bool>,
    bounded: bool,
    from: int,
) -> Option<int>
    decreases receivers.len() - from,
{
    if from < 0 || from >= receivers.len() {
        None
    } else if rejected(receivers, valid, bounded, from) {
        Some(from)
    } else {
        first_rejected(receivers, valid, bounded, from + 1)
    }
}

/// A recipient and an amount for each item of a batch, in order.
pub open spec fn receiver_attributes(receivers: Seq<ReceiverView>) -> Seq<AttributeView>
    decreases receivers.len(),
{
    if receivers.len() == 0 {
        Seq::empty()
    } else {
        receiver_attributes(receivers.drop_last()).push(
            ("recipient"@, receivers.last().address),
        ).push(("amount"@, decimal(receivers.last().amount)))
    }
}

/// One issuance per item of a batch, in order.
pub open spec fn mint_messages(
    contract: Seq<char>,
    denom: Seq<char>,
    receivers: Seq<ReceiverView>,
) -> Seq<InstructionView> {
    Seq::new(
        receivers.len(),
        |i: int|
            InstructionView::Mint {
                sender: contract,
                denom,
                amount: receivers[i].amount,
                mint_to_address: receivers[i].address,
            },
    )
}

/// What a mint hands to the host. The attribute `total_minted` tells what
/// had been minted before this batch.
pub open spec fn mint_response(
    contract: Seq<char>,
    denom: Seq<char>,
    minted_before: nat,
    receivers: Seq<ReceiverView>,
) -> ResponseView {
    ResponseView {
        messages: mint_messages(contract, denom, receivers),
        attributes: (seq![("action"@, "mint"@)] + receiver_attributes(receivers)).push(
            ("total_minted"@, decimal(minted_before)),
        ),
    }
}

/// Minting `amount` more would pass the cap, or pass what the ledger can
/// count.
pub open spec fn exceeds_cap(ledger: SupplyLedgerView, amount: nat) -> bool {
    ||| ledger.total_minted + amount > u128::MAX
    ||| ledger.max_supply != 0 && ledger.total_minted + amount > ledger.max_supply
}

/// What a mint gives: every item must be acceptable, the first that is not
/// names the refusal; then the batch as a whole must fit under the cap.
pub open spec fn mint_outcome(
    ledger: SupplyLedgerView,
    contract: Seq<char>,
    receivers: Seq<ReceiverView>,
    valid: Seq<bool>,
) -> Result<(SupplyLedgerView, ResponseView), ContractError> {
    match first_rejected(receivers, valid, false, 0) {
        Some(i) => Err(ContractError::MintInvalid(i as usize)),
        None => if exceeds_cap(ledger, total_amount(receivers)) {
            Err(ContractError::SupplyCap)
        } else {
            Ok(
                (
                    SupplyLedgerView {
                        total_minted: ledger.total_minted + total_amount(receivers),
                        ..ledger
                    },
                    mint_response(contract, ledger.denom, ledger.total_minted, receivers),
                ),
            )
        },
    }
}

proof fn lemma_total_step(receivers: Seq<ReceiverView>, i: int)
    requires
        0 <= i < receivers.len(),
    ensures
        total_amount(receivers.take(i + 1)) == total_amount(receivers.take(i))
            + receivers[i].amount,
        receiver_attributes(receivers.take(i + 1)) == receiver_attributes(receivers.take(i)).push(
            ("recipient"@, receivers[i].address),
        ).push(("amount"@, decimal(receivers[i].amount))),
{
    assert(receivers.take(i + 1).drop_last() =~= receivers.take(i));
    assert(receivers.take(i + 1).last() == receivers[i]);
}

fn receiver_attribute_pair(attributes: &mut Vec<Attribute>, receiver: &Receiver)
    ensures
        attributes_view(final(attributes)@) == attributes_view(old(attributes)@).push(
            ("recipient"@, receiver@.address),
        ).push(("amount"@, decimal(receiver@.amount))),
{
    let ghost before = attributes_view(attributes@);
    attributes.push(Attribute { key: copy_str("recipient"), value: receiver.address.clone() });
    let amount = decimal_string(receiver.amount);
    attributes.push(Attribute { key: copy_str("amount"), value: amount });
    assert(attributes_view(attributes@) =~= before.push(("recipient"@, receiver@.address)).push(
        ("amount"@, decimal(receiver@.amount)),
    ));
}

/// The views of a list of attributes, in order.
pub open spec fn attributes_view(attributes: Seq<Attribute>) -> Seq<AttributeView> {
    Seq::new(attributes.len(), |i: int| attributes[i]@)
}

/// The views of a list of instructions, in order.
pub open spec fn instructions_view(messages: Seq<Instruction>) -> Seq<InstructionView> {
    Seq::new(messages.len(), |i: int| messages[i]@)
}

/// Mints to each receiver of the batch. `valid[i]` is the host's verdict on
/// the address of `receivers[i]`. Where the batch is refused the ledger
/// stays as it was.
pub fn execute_mint(
    ledger: &mut SupplyLedger,
    contract: &str,
    receivers: &[Receiver],
    valid: &[bool],
) -> (r: Result<Response, ContractError>)
    ensures
        old(ledger)@.within_cap() ==> final(ledger)@.within_cap(),
        match mint_outcome(old(ledger)@, contract@, receivers_view(receivers@), valid@) {
            Ok(p) => {
                &&& r matches Ok(resp) && resp@ == p.1
                &&& final(ledger)@ == p.0
                &&& final(ledger)@.within_cap()
            },
            Err(e) => r == Err::<Response, ContractError>(e) && *final(ledger) == *old(ledger),
        },
{
    let ghost rv = receivers_view(receivers@);
    let mut messages: Vec<Instruction> = Vec::new();
    let mut attributes: Vec<Attribute> = Vec::new();
    attributes.push(Attribute { key: copy_str("action"), value: copy_str("mint") });
    let mut sum: u128 = 0;
    let mut over = false;
    let mut i: usize = 0;
    assert(rv.take(0) =~= Seq::<ReceiverView>::empty());
    assert(attributes_view(attributes@) =~= seq![("action"@, "mint"@)] + receiver_attributes(
        rv.take(0),
    ));
    while i < receivers.len()
        invariant
            i <= receivers.len(),
            *ledger == *old(ledger),
            rv == receivers_view(receivers@),
            first_rejected(rv, valid@, false, 0) == first_rejected(rv, valid@, false, i as int),
            over ==> total_amount(rv.take(i as int)) > u128::MAX,
            !over ==> sum == total_amount(rv.take(i as int)),
            instructions_view(messages@) == mint_messages(
                contract@,
                ledger@.denom,
                rv.take(i as int),
            ),
            attributes_view(attributes@) == seq![("action"@, "mint"@)] + receiver_attributes(
                rv.take(i as int),
            ),
            messages@.len() == i,
        decreases receivers.len() - i,
    {
        let receiver = &receivers[i];
        assert(rv[i as int] == receiver@);
        let address_ok = i < valid.len() && valid[i];
        if receiver.amount == 0 || !address_ok {
            return Err(ContractError::MintInvalid(i));
        }
        proof {
            lemma_total_step(rv, i as int);
        }
        if !over {
            match sum.checked_add(receiver.amount) {
                Some(s) => {
                    sum = s;
                },
                None => {
                    over = true;
                },
            }
        }
        let ghost sent = instructions_view(messages@);
        messages.push(
            Instruction::Mint {
                sender: copy_str(contract),
                denom: ledger.denom.clone(),
                amount: receiver.amount,
                mint_to_address: receiver.address.clone(),
            },
        );
        proof {
            let issued = InstructionView::Mint {
                sender: contract@,
                denom: ledger@.denom,
                amount: receiver@.amount,
                mint_to_address: receiver@.address,
            };
            assert(messages@[i as int]@ == issued);
            assert(instructions_view(messages@) =~= sent.push(issued));
            assert(mint_messages(contract@, ledger@.denom, rv.take(i + 1)) =~= mint_messages(
                contract@,
                ledger@.denom,
                rv.take(i as int),
            ).push(issued));
        }
        let ghost noted = attributes_view(attributes@);
        receiver_attribute_pair(&mut attributes, receiver);
        assert(attributes_view(attributes@) =~= seq![("action"@, "mint"@)] + receiver_attributes(
            rv.take(i + 1),
        ));
        i = i + 1;
    }
    assert(rv.take(i as int) =~= rv);
    let fits = if over {
        None
    } else {
        sum.checked_add(ledger.total_minted)
    };
    match fits {
        None => Err(ContractError::SupplyCap),
        Some(total) => {
            if ledger.max_supply != 0 && total > ledger.max_supply {
                return Err(ContractError::SupplyCap);
            }
            let before = decimal_string(ledger.total_minted);
            let ghost noted = attributes_view(attributes@);
            attributes.push(Attribute { key: copy_str("total_minted"), value: before });
            assert(attributes_view(attributes@) =~= noted.push(
                ("total_minted"@, decimal(ledger@.total_minted)),
            ));
            ledger.total_minted = total;
            let response = Response { messages, attributes };
            assert(response@.messages =~= instructions_view(messages@));
            assert(response@.attributes =~= attributes_view(attributes@));
            Ok(response)
        },
    }
}

/// One transfer per item of a batch, in order.
pub open spec fn transfer_messages(denom: Seq<char>, receivers: Seq<ReceiverView>) -> Seq<
    InstructionView,
> {
    Seq::new(
        receivers.len(),
        |i: int|
            InstructionView::Send {
                to_address: receivers[i].address,
                denom,
                amount: receivers[i].amount,
            },
    )
}

/// What a transfer hands to the host.
pub open spec fn transfer_response(denom: Seq<char>, receivers: Seq<ReceiverView>) -> ResponseView {
    ResponseView {
        messages: transfer_messages(denom, receivers),
        attributes: (seq![("action"@, "transfer"@)] + receiver_attributes(receivers)).push(
            ("total_transferred"@, decimal(total_amount(receivers))),
        ),
    }
}

/// What a transfer gives: every item must be acceptable, and the amounts
/// must add up to what a `u128` holds; the first item that fails either
/// names the refusal.
pub open spec fn transfer_outcome(
    denom: Seq<char>,
    receivers: Seq<ReceiverView>,
    valid: Seq<bool>,
) -> Result<ResponseView, ContractError> {
    match first_rejected(receivers, valid, true, 0) {
        Some(i) => Err(ContractError::TransferInvalid(i as usize)),
        None => Ok(transfer_response(denom, receivers)),
    }
}

/// Transfers from the contract's balance to each receiver of the batch.
/// `valid[i]` is the host's verdict on the address of `messages[i]`.
pub fn execute_transfer(ledger: &SupplyLedger, messages: &[Receiver], valid: &[bool]) -> (r: Result<
    Response,
    ContractError,
>)
    ensures
        match transfer_outcome(ledger@.denom, receivers_view(messages@), valid@) {
            Ok(v) => r matches Ok(resp) && resp@ == v,
            Err(e) => r == Err::<Response, ContractError>(e),
        },
{
    let ghost rv = receivers_view(messages@);
    let mut sends: Vec<Instruction> = Vec::new();
    let mut attributes: Vec<Attribute> = Vec::new();
    attributes.push(Attribute { key: copy_str("action"), value: copy_str("transfer") });
    let mut sum: u128 = 0;
    let mut i: usize = 0;
    assert(rv.take(0) =~= Seq::<ReceiverView>::empty());
    assert(attributes_view(attributes@) =~= seq![("action"@, "transfer"@)] + receiver_attributes(
        rv.take(0),
    ));
    while i < messages.len()
        invariant
            i <= messages.len(),
            rv == receivers_view(messages@),
            first_rejected(rv, valid@, true, 0) == first_rejected(rv, valid@, true, i as int),
            sum == total_amount(rv.take(i as int)),
            sends@.len() == i,
            instructions_view(sends@) == transfer_messages(ledger@.denom, rv.take(i as int)),
            attributes_view(attributes@) == seq![("action"@, "transfer"@)] + receiver_attributes(
                rv.take(i as int),
            ),
        decreases messages.len() - i,
    {
        let receiver = &messages[i];
        assert(rv[i as int] == receiver@);
        proof {
            lemma_total_step(rv, i as int);
        }
        let address_ok = i < valid.len() && valid[i];
        if receiver.amount == 0 || !address_ok {
            return Err(ContractError::TransferInvalid(i));
        }
        match sum.checked_add(receiver.amount) {
            Some(s) => {
                sum = s;
            },
            None => {
                return Err(ContractError::TransferInvalid(i));
            },
        }
        let ghost sent = instructions_view(sends@);
        sends.push(
            Instruction::Send {
                to_address: receiver.address.clone(),
                denom: ledger.denom.clone(),
                amount: receiver.amount,
            },
        );
        proof {
            let moved = InstructionView::Send {
                to_address: receiver@.address,
                denom: ledger@.denom,
                amount: receiver@.amount,
            };
            assert(sends@[i as int]@ == moved);
            assert(instructions_view(sends@) =~= sent.push(moved));
            assert(transfer_messages(ledger@.denom, rv.take(i + 1)) =~= transfer_messages(
                ledger@.denom,
                rv.take(i as int),
            ).push(moved));
        }
        receiver_attribute_pair(&mut attributes, receiver);
        assert(attributes_view(attributes@) =~= seq![("action"@, "transfer"@)]
            + receiver_attributes(rv.take(i + 1)));
        i = i + 1;
    }
    assert(rv.take(i as int) =~= rv);
    let total = decimal_string(sum);
    let ghost noted = attributes_view(attributes@);
    attributes.push(Attribute { key: copy_str("total_transferred"), value: total });
    assert(attributes_view(attributes@) =~= noted.push(
        ("total_transferred"@, decimal(total_amount(rv))),
    ));
    let response = Response { messages: sends, attributes };
    assert(response@.messages =~= instructions_view(sends@));
    assert(response@.attributes =~= attributes_view(attributes@));
    Ok(response)
}

/// Carries out one message for the caller, who must be the ledger's admin.
/// `contract` is the contract's own address, and `valid` holds the host's
/// verdicts on the addresses of a batch, position by position.
pub fn execute(
    ledger: &mut SupplyLedger,
    sender: &str,
    contract: &str,
    msg: ExecuteMsg,
    valid: &[bool],
) -> (r: Result<Response, ContractError>)
    ensures
        old(ledger)@.within_cap() ==> final(ledger)@.within_cap(),
        r is Err ==> *final(ledger) == *old(ledger),
        sender@ != old(ledger)@.admin ==> r == Err::<Response, ContractError>(
            ContractError::Unauthorized,
        ),
        sender@ == old(ledger)@.admin ==> match msg {
            ExecuteMsg::Mint(receivers) => match mint_outcome(
                old(ledger)@,
                contract@,
                receivers_view(receivers@),
                valid@,
            ) {
                Ok(p) => r matches Ok(resp) && resp@ == p.1 && final(ledger)@ == p.0,
                Err(e) => r == Err::<Response, ContractError>(e),
            },
            ExecuteMsg::Burn(amount) => {
                &&& *final(ledger) == *old(ledger)
                &&& r matches Ok(resp) && resp@ == burn_response(
                    contract@,
                    old(ledger)@.denom,
                    amount as nat,
                )
            },
            ExecuteMsg::Send(receivers) => *final(ledger) == *old(ledger) && match transfer_outcome(
                old(ledger)@.denom,
                receivers_view(receivers@),
                valid@,
            ) {
                Ok(v) => r matches Ok(resp) && resp@ == v,
                Err(e) => r == Err::<Response, ContractError>(e),
            },
            ExecuteMsg::UpdateSupply(new_max) => if cap_refused(
                old(ledger)@.total_minted,
                new_max as nat,
            ) {
                r == Err::<Response, ContractError>(ContractError::CurrentSupply)
            } else {
                r matches Ok(resp) && resp@ == ResponseView::action("update_metadata"@)
                    && final(ledger)@ == (SupplyLedgerView {
                    max_supply: new_max as nat,
                    ..old(ledger)@
                })
            },
            ExecuteMsg::Revoke => *final(ledger) == *old(ledger) && match null_address_of(
                contract@,
            ) {
                Some(null) => r matches Ok(resp) && resp@ == revoke_response(
                    contract@,
                    old(ledger)@.denom,
                    null,
                ),
                None => r == Err::<Response, ContractError>(ContractError::NullAddress),
            },
        },
{
    if !same_text(sender, ledger.admin.as_str()) {
        return Err(ContractError::Unauthorized);
    }
    match msg {
        ExecuteMsg::Mint(receivers) => execute_mint(ledger, contract, receivers.as_slice(), valid),
        ExecuteMsg::Burn(amount) => execute_burn(ledger, contract, amount),
        ExecuteMsg::Send(receivers) => execute_transfer(ledger, receivers.as_slice(), valid),
        ExecuteMsg::UpdateSupply(new_max) => execute_update_supply(ledger, new_max),
        ExecuteMsg::Revoke => execute_revoke(ledger, contract),
    }
}

/// An answer to a query.
#[derive(Debug, PartialEq, Eq)]
pub enum QueryResponse {
    TokenInfo(TokenInfoResponse),
    Mintable(MintableResponse),
}

/// Answers a query from the ledger and from what the host reports: the
/// unit's circulating supply and the address that holds the authority over
/// it. `None` where `query_info` has no answer.
pub fn query(
    ledger: &SupplyLedger,
    contract: &str,
    msg: QueryMsg,
    current_supply: u128,
    authority: &str,
) -> (r: Option<QueryResponse>)
    ensures
        match msg {
            QueryMsg::TokenInfo => match r {
                Some(QueryResponse::TokenInfo(info)) => {
                    &&& current_supply <= ledger.total_minted
                    &&& info.symbol@ == ledger@.symbol
                    &&& info.denom@ == ledger@.denom
                    &&& info.current_supply == current_supply
                    &&& info.max_supply == ledger.max_supply
                    &&& info.minted == ledger.total_minted
                    &&& info.burned == ledger.total_minted - current_supply
                },
                Some(_) => false,
                None => current_supply > ledger.total_minted,
            },
            QueryMsg::Mintable => r matches Some(QueryResponse::Mintable(m)) && m.cap_reached == (
            ledger.max_supply != 0 && ledger.total_minted == ledger.max_supply) && m.revoked == (
            authority@ != contract@),
        },
{
    match msg {
        QueryMsg::TokenInfo => match query_info(ledger, current_supply) {
            Some(info) => Some(QueryResponse::TokenInfo(info)),
            None => None,
        },
        QueryMsg::Mintable => Some(
            QueryResponse::Mintable(query_mintable(ledger, contract, authority)),
        ),
    }
}

} // verus!
