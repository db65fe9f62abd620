//! The messages that the asset list accepts.

use crate::assetlist::state::{Config, Metadata, MetadataView};
use vstd::prelude::*;

verus! {

/// The initial configuration. An absent owner defaults to the sender.
#[derive(Debug)]
pub struct InstantiateMsg(pub Config);

#[derive(Debug)]
pub enum ExecuteMsg {
    Listing(ListingMsg),
    /// Replaces the fields that are present; see `execute_update_config`.
    UpdateConfig(Config),
}

#[derive(Debug)]
pub enum ListingMsg {
    /// Adds listings, each a denomination with its metadata.
    Add(Vec<(String, Metadata)>),
    /// Rewrites existing listings.
    Update(Vec<(String, Metadata)>),
    /// Removes listings by denomination.
    Remove(Vec<String>),
}

#[derive(Debug)]
pub enum QueryMsg {
    Listing(ListingQuery),
    Config,
}

#[derive(Debug)]
pub enum ListingQuery {
    /// The metadata of each denomination named.
    Denom(Vec<String>),
    /// The metadata of each symbol named.
    Symbol(Vec<String>),
    /// One page of all listings, ascending by denomination.
    All { start_after: Option<String>, limit: Option<u32> },
}

#[derive(Debug)]
pub struct MigrateMsg {}

/// A batch of denominations with metadata, as texts and metadata views.
pub open spec fn items_view(items: Seq<(String, Metadata)>) -> Seq<(Seq<char>, MetadataView)> {
    Seq::new(items.len(), |i: int| (items[i].0@, items[i].1@))
}

} // verus!
