//! What holds of the asset list's rules, whatever the catalog and the batch.

use crate::assetlist::catalog::{
    lemma_with_consistent, lemma_without_consistent, Catalog, CatalogView,
};
use crate::assetlist::contract::{
    add_batch, add_step, admission, author_of, find_fee, is_admin, merged_config, page_limit,
    remove_batch, remove_listings, remove_step, update_batch, update_listings, update_step, Item,
};
use crate::assetlist::error::ContractErrorView;
use crate::assetlist::state::{ConfigView, Field, ListingView};
use crate::coin::CoinView;
use vstd::prelude::*;

verus! {

/// In a catalog whose indexes agree, no two listings share a symbol.
pub proof fn lemma_symbols_unique(c: CatalogView, d1: Seq<char>, d2: Seq<char>)
    requires
        c.consistent(),
        c.denoms.contains_key(d1),
        c.denoms.contains_key(d2),
        c.denoms[d1].metadata.symbol == c.denoms[d2].metadata.symbol,
    ensures
        d1 == d2,
{
}

/// A successful batch of additions leaves the indexes in agreement.
pub proof fn lemma_add_consistent(
    c: CatalogView,
    author: Option<Seq<char>>,
    required: Seq<Field>,
    items: Seq<Item>,
)
    requires
        c.consistent(),
    ensures
        add_batch(c, author, required, items) matches Ok(v) ==> v.consistent(),
    decreases items.len(),
{
    if items.len() > 0 {
        match add_step(c, author, required, items[0]) {
            Ok(n) => {
                lemma_with_consistent(c, items[0].0, ListingView { author, metadata: items[0].1 });
                lemma_add_consistent(n, author, required, items.skip(1));
            },
            Err(_) => {},
        }
    }
}

/// A successful batch of updates leaves the indexes in agreement.
pub proof fn lemma_update_consistent(
    c: CatalogView,
    sender: Seq<char>,
    admin: bool,
    required: Seq<Field>,
    items: Seq<Item>,
)
    requires
        c.consistent(),
    ensures
        update_batch(c, sender, admin, required, items) matches Ok(v) ==> v.consistent(),
    decreases items.len(),
{
    if items.len() > 0 {
        match update_step(c, sender, admin, required, items[0]) {
            Ok(n) => {
                lemma_without_consistent(c, items[0].0);
                lemma_with_consistent(
                    c.without(items[0].0),
                    items[0].0,
                    ListingView { author: author_of(sender, admin), metadata: items[0].1 },
                );
                lemma_update_consistent(n, sender, admin, required, items.skip(1));
            },
            Err(_) => {},
        }
    }
}

/// A successful batch of removals leaves the indexes in agreement.
pub proof fn lemma_remove_consistent(
    c: CatalogView,
    sender: Seq<char>,
    admin: bool,
    denoms: Seq<Seq<char>>,
)
    requires
        c.consistent(),
    ensures
        remove_batch(c, sender, admin, denoms) matches Ok(v) ==> v.consistent(),
    decreases denoms.len(),
{
    if denoms.len() > 0 {
        match remove_step(c, sender, admin, denoms[0]) {
            Ok(n) => {
                lemma_without_consistent(c, denoms[0]);
                lemma_remove_consistent(n, sender, admin, denoms.skip(1));
            },
            Err(_) => {},
        }
    }
}

/// A batch that holds, at any position, a denomination or a symbol that the
/// catalog already lists is refused; where the first item does, the refusal
/// is `DuplicateListing` and names the key.
pub proof fn lemma_add_duplicate(
    c: CatalogView,
    author: Option<Seq<char>>,
    required: Seq<Field>,
    items: Seq<Item>,
    k: int,
)
    requires
        0 <= k < items.len(),
        c.denoms.contains_key(items[k].0) || c.symbols.contains_key(items[k].1.symbol),
    ensures
        add_batch(c, author, required, items) is Err,
        k == 0 ==> add_batch(c, author, required, items) == Err::<
            CatalogView,
            ContractErrorView,
        >(
            ContractErrorView::DuplicateListing(
                if c.denoms.contains_key(items[0].0) {
                    items[0].0
                } else {
                    items[0].1.symbol
                },
            ),
        ),
    decreases k,
{
    if k > 0 {
        match add_step(c, author, required, items[0]) {
            Ok(n) => {
                assert(items.skip(1)[k - 1] == items[k]);
                lemma_add_duplicate(n, author, required, items.skip(1), k - 1);
            },
            Err(_) => {},
        }
    }
}

/// A listing that the caller did not write is out of a non-admin caller's
/// reach: a batch of updates that names it is refused, and a batch that goes
/// through leaves it as it was.
pub proof fn lemma_update_respects_authorship(
    c: CatalogView,
    sender: Seq<char>,
    required: Seq<Field>,
    items: Seq<Item>,
    denom: Seq<char>,
)
    requires
        c.consistent(),
        c.denoms.contains_key(denom),
        c.denoms[denom].author != Some(sender),
    ensures
        (exists|k: int| 0 <= k < items.len() && (#[trigger] items[k]).0 == denom) ==> update_batch(
            c,
            sender,
            false,
            required,
            items,
        ) is Err,
        items.len() > 0 && items[0].0 == denom ==> update_batch(c, sender, false, required, items)
            == Err::<CatalogView, ContractErrorView>(ContractErrorView::Unauthorized),
        update_batch(c, sender, false, required, items) matches Ok(v) ==> v.denoms.contains_key(
            denom,
        ) && v.denoms[denom] == c.denoms[denom],
    decreases items.len(),
{
    if items.len() > 0 {
        match update_step(c, sender, false, required, items[0]) {
            Ok(n) => {
                let d0 = items[0].0;
                assert(d0 != denom);
                lemma_without_consistent(c, d0);
                lemma_with_consistent(
                    c.without(d0),
                    d0,
                    ListingView { author: author_of(sender, false), metadata: items[0].1 },
                );
                lemma_update_respects_authorship(n, sender, required, items.skip(1), denom);
                if exists|k: int| 0 <= k < items.len() && (#[trigger] items[k]).0 == denom {
                    let k = choose|k: int| 0 <= k < items.len() && (#[trigger] items[k]).0 == denom;
                    assert(items.skip(1)[k - 1] == items[k]);
                }
            },
            Err(_) => {},
        }
    }
}

/// A listing that the caller did not write is out of a non-admin caller's
/// reach: a batch of removals that names it is refused, and a batch that
/// goes through leaves it as it was.
pub proof fn lemma_remove_respects_authorship(
    c: CatalogView,
    sender: Seq<char>,
    denoms: Seq<Seq<char>>,
    denom: Seq<char>,
)
    requires
        c.denoms.contains_key(denom),
        c.denoms[denom].author != Some(sender),
    ensures
        denoms.contains(denom) ==> remove_batch(c, sender, false, denoms) is Err,
        denoms.len() > 0 && denoms[0] == denom ==> remove_batch(c, sender, false, denoms) == Err::<
            CatalogView,
            ContractErrorView,
        >(ContractErrorView::Unauthorized),
        remove_batch(c, sender, false, denoms) matches Ok(v) ==> v.denoms.contains_key(denom)
            && v.denoms[denom] == c.denoms[denom],
    decreases denoms.len(),
{
    if denoms.len() > 0 {
        match remove_step(c, sender, false, denoms[0]) {
            Ok(n) => {
                assert(denoms[0] != denom);
                lemma_remove_respects_authorship(n, sender, denoms.skip(1), denom);
                if denoms.contains(denom) {
                    let k = choose|k: int| 0 <= k < denoms.len() && denoms[k] == denom;
                    assert(denoms.skip(1)[k - 1] == denom);
                }
            },
            Err(_) => {},
        }
    }
}

/// The permission flags open nothing to a non-admin caller: whatever they
/// are, an update or a removal that goes through leaves every listing that
/// the caller did not write as it was.
pub proof fn lemma_flags_respect_authorship(
    c: CatalogView,
    sender: Seq<char>,
    permissioned: bool,
    required: Seq<Field>,
    items: Seq<Item>,
    denoms: Seq<Seq<char>>,
    denom: Seq<char>,
)
    requires
        c.consistent(),
        c.denoms.contains_key(denom),
        c.denoms[denom].author != Some(sender),
    ensures
        update_listings(c, sender, false, permissioned, required, items) matches Ok(v)
            ==> v.denoms.contains_key(denom) && v.denoms[denom] == c.denoms[denom],
        remove_listings(c, sender, false, permissioned, denoms) matches Ok(v)
            ==> v.denoms.contains_key(denom) && v.denoms[denom] == c.denoms[denom],
{
    lemma_update_respects_authorship(c, sender, required, items, denom);
    lemma_remove_respects_authorship(c, sender, denoms, denom);
}

/// Reading the catalog page by page, each page asked for with the last
/// denomination of the page before it as the cursor, gives every listing
/// exactly once and in ascending order, whatever page size above zero is
/// asked for: as many pages as there are listings always suffice.
pub proof fn lemma_all_pages_complete(catalog: Catalog, limit: Option<u32>, calls: nat)
    requires
        catalog.wf(),
        limit != Some(0u32),
        calls >= catalog.rows().len(),
    ensures
        crate::keyed::pages(catalog.rows(), None, page_limit(limit), calls) == catalog.rows(),
{
    crate::keyed::lemma_pages_complete(catalog.rows(), page_limit(limit), calls);
}

/// A schedule has a fee in a denomination exactly where one of its entries
/// is in that denomination.
pub proof fn lemma_find_fee(fee: Seq<CoinView>, denom: Seq<char>)
    ensures
        find_fee(fee, denom) is None <==> forall|i: int|
            0 <= i < fee.len() ==> (#[trigger] fee[i]).denom != denom,
        find_fee(fee, denom) matches Some(f) ==> f.denom == denom && fee.contains(f),
    decreases fee.len(),
{
    if fee.len() > 0 {
        let rest = fee.skip(1);
        lemma_find_fee(rest, denom);
        if fee[0].denom != denom {
            assert forall|i: int| 0 <= i < rest.len() implies (#[trigger] rest[i]) == fee[i
                + 1] by {}
            if find_fee(fee, denom) is None {
                assert forall|i: int| 0 <= i < fee.len() implies (#[trigger] fee[i]).denom
                    != denom by {
                    if i > 0 {
                        assert(rest[i - 1] == fee[i]);
                    }
                }
            } else {
                let f = find_fee(rest, denom)->0;
                let j = choose|j: int| 0 <= j < rest.len() && rest[j] == f;
                assert(fee[j + 1] == f);
            }
        } else {
            assert(fee[0] == find_fee(fee, denom)->0);
        }
    }
}

/// The admission gate for a caller who is no admin, under a fee schedule:
/// no funds, funds in two denominations, funds in a denomination outside
/// the schedule and funds below the fee times the number of items are each
/// refused with their own error, and funds from exactly that product on are
/// admitted.
pub proof fn lemma_fee_boundary(funds: Seq<CoinView>, fee: Seq<CoinView>, count: nat)
    ensures
        funds.len() == 0 ==> admission(funds, Some(fee), false, count) == Some(
            ContractErrorView::MissingFee,
        ),
        funds.len() >= 2 ==> admission(funds, Some(fee), false, count) == Some(
            ContractErrorView::MultipleFees,
        ),
        funds.len() == 1 && (forall|i: int|
            0 <= i < fee.len() ==> (#[trigger] fee[i]).denom != funds[0].denom) ==> admission(
            funds,
            Some(fee),
            false,
            count,
        ) == Some(ContractErrorView::InvalidFee),
        funds.len() == 1 ==> match find_fee(fee, funds[0].denom) {
            Some(f) => admission(funds, Some(fee), false, count) == if funds[0].amount < f.amount
                * count {
                Some(ContractErrorView::InsufficientFee)
            } else {
                None
            },
            None => true,
        },
{
    if funds.len() == 1 {
        lemma_find_fee(fee, funds[0].denom);
    }
}

/// Admins pass the admission gate whatever is attached.
pub proof fn lemma_admin_exempt(funds: Seq<CoinView>, fee: Option<Seq<CoinView>>, count: nat)
    ensures
        admission(funds, fee, true, count) is None,
{
}

/// The address stands in the stored list of admins.
pub open spec fn listed(admins: Option<Seq<Seq<char>>>, address: Seq<char>) -> bool {
    match admins {
        Some(a) => a.contains(address),
        None => false,
    }
}

/// After an update of the configuration a new owner named in the payload is
/// the owner and stands last in the stored list of admins, whether the
/// payload names admins or not. Where the payload names no admins every
/// admin of the current list stays listed, and where it names no owner
/// either the list is as it was.
pub proof fn lemma_new_owner_is_listed(current: ConfigView, payload: ConfigView)
    ensures
        match payload.owner {
            Some(o) => {
                &&& merged_config(current, payload).owner == Some(o)
                &&& listed(merged_config(current, payload).admins, o)
                &&& merged_config(current, payload).admins == Some(
                    match payload.admins {
                        Some(a) => a.push(o),
                        None => match current.admins {
                            Some(a) => a.push(o),
                            None => seq![o],
                        },
                    },
                )
            },
            None => payload.admins is None ==> merged_config(current, payload).admins
                == current.admins,
        },
        payload.admins is None ==> forall|x: Seq<char>|
            listed(current.admins, x) ==> #[trigger] listed(
                merged_config(current, payload).admins,
                x,
            ),
{
    match payload.owner {
        Some(o) => {
            let list = merged_config(current, payload).admins->0;
            assert(list[list.len() - 1] == o);
            if payload.admins is None {
                assert forall|x: Seq<char>| listed(current.admins, x) implies #[trigger] listed(
                    merged_config(current, payload).admins,
                    x,
                ) by {
                    let a = current.admins->0;
                    let i = choose|i: int| 0 <= i < a.len() && a[i] == x;
                    assert(list[i] == x);
                }
            }
        },
        None => {},
    }
}

/// After an update of the configuration its owner is an admin, and where the
/// payload names admins the stored list is that one with the owner appended.
pub proof fn lemma_owner_is_admin(current: ConfigView, payload: ConfigView)
    ensures
        match merged_config(current, payload).owner {
            Some(o) => is_admin(merged_config(current, payload), o) && (match payload.admins {
                Some(a) => merged_config(current, payload).admins == Some(a.push(o)),
                None => true,
            }),
            None => true,
        },
{
}

} // verus!
