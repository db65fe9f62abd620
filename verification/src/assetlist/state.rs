//! The asset list's stored values: its configuration and its listings.

use crate::coin::{coins_view, copy_coins, Coin, CoinView};
use crate::text::{copy_opt, opt_text};
use vstd::prelude::*;

verus! {

/// The storage slots of the asset list.
#[derive(Debug, Clone, Copy, PartialEq, Eq, Structural)]
pub enum TopKey {
    Config,
    DenomMap,
    SymbolMap,
}

impl TopKey {
    /// The one-letter storage prefix of a slot.
    pub fn as_str(&self) -> (s: &'static str)
        ensures
            s@ == match *self {
                TopKey::Config => "a"@,
                TopKey::DenomMap => "b"@,
                TopKey::SymbolMap => "c"@,
            },
    {
        match self {
            TopKey::Config => "a",
            TopKey::DenomMap => "b",
            TopKey::SymbolMap => "c",
        }
    }
}

/// An optional part of a listing's metadata that a configuration may demand.
#[derive(Debug, Clone, Copy, PartialEq, Eq, Structural)]
pub enum Field {
    Exp,
    Logo,
    Chain,
}

/// What is published about an asset.
#[derive(Debug, PartialEq, Eq)]
pub struct Metadata {
    /// Human-readable name, unique over the catalog.
    pub symbol: String,
    /// Exponent for conversion from base units.
    pub exp: Option<u32>,
    /// URL of a logo image.
    pub logo: Option<String>,
    /// Identifier of the source chain.
    pub chain: Option<String>,
}

/// What a `Metadata` stands for in contracts.
pub struct MetadataView {
    pub symbol: Seq<char>,
    pub exp: Option<u32>,
    pub logo: Option<Seq<char>>,
    pub chain: Option<Seq<char>>,
}

impl View for Metadata {
    type V = MetadataView;

    open spec fn view(&self) -> MetadataView {
        MetadataView {
            symbol: self.symbol@,
            exp: self.exp,
            logo: opt_text(self.logo),
            chain: opt_text(self.chain),
        }
    }
}

impl Clone for Metadata {
    fn clone(&self) -> (m: Metadata)
        ensures
            m@ == self@,
    {
        Metadata {
            symbol: self.symbol.clone(),
            exp: self.exp,
            logo: copy_opt(&self.logo),
            chain: copy_opt(&self.chain),
        }
    }
}

/// A catalog record: the metadata and who may edit it.
#[derive(Debug, PartialEq, Eq)]
pub struct Listing {
    /// The address that published the listing; `None` if an admin did.
    pub author: Option<String>,
    pub metadata: Metadata,
}

/// What a `Listing` stands for in contracts.
pub struct ListingView {
    pub author: Option<Seq<char>>,
    pub metadata: MetadataView,
}

impl View for Listing {
    type V = ListingView;

    open spec fn view(&self) -> ListingView {
        ListingView { author: opt_text(self.author), metadata: self.metadata@ }
    }
}

impl Clone for Listing {
    fn clone(&self) -> (l: Listing)
        ensures
            l@ == self@,
    {
        Listing { author: copy_opt(&self.author), metadata: self.metadata.clone() }
    }
}

/// The asset list's settings. The same shape serves as the payload of a
/// configuration update, where an absent field means "keep the current value".
#[derive(Debug)]
pub struct Config {
    /// When true only admins can add or edit listings.
    pub add_permissioned: Option<bool>,
    /// When true only admins can remove listings.
    pub remove_permissioned: Option<bool>,
    /// The metadata fields that every listing must carry.
    pub required_fields: Option<Vec<Field>>,
    /// The accepted per-listing fees, one entry per denomination.
    pub fee: Option<Vec<Coin>>,
    /// The addresses that may manage the list, besides the owner.
    pub admins: Option<Vec<String>>,
    /// The address that may change the configuration.
    pub owner: Option<String>,
}

/// What a `Config` stands for in contracts.
pub struct ConfigView {
    pub add_permissioned: Option<bool>,
    pub remove_permissioned: Option<bool>,
    pub required_fields: Option<Seq<Field>>,
    pub fee: Option<Seq<CoinView>>,
    pub admins: Option<Seq<Seq<char>>>,
    pub owner: Option<Seq<char>>,
}

/// The characters of each text of a list, in order.
pub open spec fn texts_view(texts: Seq<String>) -> Seq<Seq<char>> {
    Seq::new(texts.len(), |i: int| texts[i]@)
}

impl View for Config {
    type V = ConfigView;

    open spec fn view(&self) -> ConfigView {
        ConfigView {
            add_permissioned: self.add_permissioned,
            remove_permissioned: self.remove_permissioned,
            required_fields: match self.required_fields {
                Some(f) => Some(f@),
                None => None,
            },
            fee: match self.fee {
                Some(f) => Some(coins_view(f@)),
                None => None,
            },
            admins: match self.admins {
                Some(a) => Some(texts_view(a@)),
                None => None,
            },
            owner: opt_text(self.owner),
        }
    }
}

/// A copy of a list of texts.
pub fn copy_texts(texts: &Vec<String>) -> (r: Vec<String>)
    ensures
        texts_view(r@) == texts_view(texts@),
{
    let mut r: Vec<String> = Vec::new();
    let mut i: usize = 0;
    while i < texts.len()
        invariant
            i <= texts.len(),
            r.len() == i,
            forall|j: int| 0 <= j < i ==> r[j]@ == texts[j]@,
        decreases texts.len() - i,
    {
        r.push(texts[i].clone());
        i = i + 1;
    }
    assert(texts_view(r@) =~= texts_view(texts@));
    r
}

/// A copy of a list of field tags.
pub fn copy_fields(fields: &Vec<Field>) -> (r: Vec<Field>)
    ensures
        r@ == fields@,
{
    let mut r: Vec<Field> = Vec::new();
    let mut i: usize = 0;
    while i < fields.len()
        invariant
            i <= fields.len(),
            r.len() == i,
            forall|j: int| 0 <= j < i ==> r[j] == fields[j],
        decreases fields.len() - i,
    {
        r.push(fields[i]);
        i = i + 1;
    }
    assert(r@ =~= fields@);
    r
}

impl Clone for Config {
    fn clone(&self) -> (c: Config)
        ensures
            c@ == self@,
    {
        Config {
            add_permissioned: self.add_permissioned,
            remove_permissioned: self.remove_permissioned,
            required_fields: match &self.required_fields {
                Some(f) => Some(copy_fields(f)),
                None => None,
            },
            fee: match &self.fee {
                Some(f) => Some(copy_coins(f)),
                None => None,
            },
            admins: match &self.admins {
                Some(a) => Some(copy_texts(a)),
                None => None,
            },
            owner: copy_opt(&self.owner),
        }
    }
}

} // verus!
