//! What an operation hands back: instructions for the host's ledger modules
//! and attributes for its event log.

use crate::text::copy_str;
use vstd::prelude::*;

verus! {

/// An instruction for a ledger module of the host. It is carried out after
/// the operation that emitted it has returned, and only if that succeeded.
#[derive(Debug, PartialEq, Eq)]
pub enum Instruction {
    /// Register a new unit `factory/{sender}/{subdenom}`.
    CreateDenom { sender: String, subdenom: String },
    /// Issue `amount` of `denom` to `mint_to_address`.
    Mint { sender: String, denom: String, amount: u128, mint_to_address: String },
    /// Destroy `amount` of `denom` held by `burn_from_address`.
    Burn { sender: String, denom: String, amount: u128, burn_from_address: String },
    /// Hand the authority over `denom` to `new_admin`.
    ChangeAdmin { sender: String, denom: String, new_admin: String },
    /// Transfer `amount` of `denom` from the contract to `to_address`.
    Send { to_address: String, denom: String, amount: u128 },
}

/// What an `Instruction` stands for in contracts.
pub enum InstructionView {
    CreateDenom { sender: Seq<char>, subdenom: Seq<char> },
    Mint { sender: Seq<char>, denom: Seq<char>, amount: nat, mint_to_address: Seq<char> },
    Burn { sender: Seq<char>, denom: Seq<char>, amount: nat, burn_from_address: Seq<char> },
    ChangeAdmin { sender: Seq<char>, denom: Seq<char>, new_admin: Seq<char> },
    Send { to_address: Seq<char>, denom: Seq<char>, amount: nat },
}

impl View for Instruction {
    type V = InstructionView;

    open spec fn view(&self) -> InstructionView {
        match *self {
            Instruction::CreateDenom { sender, subdenom } => InstructionView::CreateDenom {
                sender: sender@,
                subdenom: subdenom@,
            },
            Instruction::Mint { sender, denom, amount, mint_to_address } => InstructionView::Mint {
                sender: sender@,
                denom: denom@,
                amount: amount as nat,
                mint_to_address: mint_to_address@,
            },
            Instruction::Burn { sender, denom, amount, burn_from_address } => InstructionView::Burn {
                sender: sender@,
                denom: denom@,
                amount: amount as nat,
                burn_from_address: burn_from_address@,
            },
            Instruction::ChangeAdmin { sender, denom, new_admin } => InstructionView::ChangeAdmin {
                sender: sender@,
                denom: denom@,
                new_admin: new_admin@,
            },
            Instruction::Send { to_address, denom, amount } => InstructionView::Send {
                to_address: to_address@,
                denom: denom@,
                amount: amount as nat,
            },
        }
    }
}

/// A key and a value for the event log.
#[derive(Debug, PartialEq, Eq)]
pub struct Attribute {
    pub key: String,
    pub value: String,
}

/// An attribute as a pair of texts.
pub type AttributeView = (Seq<char>, Seq<char>);

impl View for Attribute {
    type V = AttributeView;

    open spec fn view(&self) -> AttributeView {
        (self.key@, self.value@)
    }
}

/// The result of a successful operation.
#[derive(Debug, PartialEq, Eq)]
pub struct Response {
    pub messages: Vec<Instruction>,
    pub attributes: Vec<Attribute>,
}

/// What a `Response` stands for in contracts.
pub struct ResponseView {
    pub messages: Seq<InstructionView>,
    pub attributes: Seq<AttributeView>,
}

impl ResponseView {
    pub open spec fn empty() -> ResponseView {
        ResponseView { messages: Seq::empty(), attributes: Seq::empty() }
    }

    pub open spec fn add_message(self, m: InstructionView) -> ResponseView {
        ResponseView { messages: self.messages.push(m), attributes: self.attributes }
    }

    pub open spec fn add_attribute(self, key: Seq<char>, value: Seq<char>) -> ResponseView {
        ResponseView { messages: self.messages, attributes: self.attributes.push((key, value)) }
    }

    /// The response that carries nothing but the name of the action.
    pub open spec fn action(name: Seq<char>) -> ResponseView {
        ResponseView::empty().add_attribute("action"@, name)
    }
}

impl View for Response {
    type V = ResponseView;

    open spec fn view(&self) -> ResponseView {
        ResponseView {
            messages: Seq::new(self.messages@.len(), |i: int| self.messages@[i]@),
            attributes: Seq::new(self.attributes@.len(), |i: int| self.attributes@[i]@),
        }
    }
}

impl Response {
    pub fn new() -> (r: Response)
        ensures
            r@ == ResponseView::empty(),
    {
        let r = Response { messages: Vec::new(), attributes: Vec::new() };
        assert(r@.messages =~= Seq::empty());
        assert(r@.attributes =~= Seq::empty());
        r
    }

    /// Appends an instruction.
    pub fn add_message(self, m: Instruction) -> (r: Response)
        ensures
            r@ == self@.add_message(m@),
    {
        let mut r = self;
        r.messages.push(m);
        assert(r@.messages =~= self@.messages.push(m@));
        assert(r@.attributes =~= self@.attributes);
        r
    }

    /// Appends an attribute.
    pub fn add_attribute(self, key: &str, value: &str) -> (r: Response)
        ensures
            r@ == self@.add_attribute(key@, value@),
    {
        let mut r = self;
        r.attributes.push(Attribute { key: copy_str(key), value: copy_str(value) });
        assert(r@.attributes =~= self@.attributes.push((key@, value@)));
        assert(r@.messages =~= self@.messages);
        r
    }

    /// The response that carries nothing but the name of the action.
    pub fn action(name: &str) -> (r: Response)
        ensures
            r@ == ResponseView::action(name@),
    {
        Response::new().add_attribute("action", name)
    }
}

} // verus!
