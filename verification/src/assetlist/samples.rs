//! Sample listings for trying the asset list out.

use crate::assetlist::msg::items_view;
use crate::assetlist::state::{Metadata, MetadataView};
use crate::text::copy_str;
use vstd::prelude::*;

verus! {

/// The two sample listings as views.
pub open spec fn valid_listings() -> Seq<(Seq<char>, MetadataView)> {
    seq![
        (
            "uosmo"@,
            MetadataView {
                symbol: "OSMO"@,
                exp: Some(6u32),
                logo: Some("https://osmosis.zone/logo.png"@),
                chain: Some("osmosis-1"@),
            },
        ),
        (
            "uion"@,
            MetadataView {
                symbol: "ION"@,
                exp: Some(6u32),
                logo: Some("https://osmosis.zone/logo.png"@),
                chain: Some("ion-1"@),
            },
        ),
    ]
}

/// Two listings that carry every field a configuration can demand: `uosmo`
/// under the symbol `OSMO` and `uion` under the symbol `ION`.
pub fn get_valid_listings() -> (r: Vec<(String, Metadata)>)
    ensures
        items_view(r@) == valid_listings(),
{
    let mut r: Vec<(String, Metadata)> = Vec::new();
    r.push(
        (
            copy_str("uosmo"),
            Metadata {
                symbol: copy_str("OSMO"),
                exp: Some(6),
                logo: Some(copy_str("https://osmosis.zone/logo.png")),
                chain: Some(copy_str("osmosis-1")),
            },
        ),
    );
    r.push(
        (
            copy_str("uion"),
            Metadata {
                symbol: copy_str("ION"),
                exp: Some(6),
                logo: Some(copy_str("https://osmosis.zone/logo.png")),
                chain: Some(copy_str("ion-1")),
            },
        ),
    );
    assert(items_view(r@) =~= valid_listings());
    r
}

} // verus!
