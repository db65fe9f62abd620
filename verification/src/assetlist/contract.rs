//! The asset list's operations: who may do what, and what it does to the
//! catalog.

use crate::assetlist::catalog::{Catalog, CatalogView};
use crate::assetlist::error::{ContractError, ContractErrorView};
use crate::assetlist::msg::{
    items_view, ExecuteMsg, InstantiateMsg, ListingMsg, ListingQuery, QueryMsg,
};
use crate::assetlist::state::{
    texts_view, Config, ConfigView, Field, Listing, ListingView, Metadata, MetadataView,
};
use crate::coin::{coins_view, Coin, CoinView};
use crate::response::{Response, ResponseView};
use crate::text::{copy_str, same_text};
use vstd::prelude::*;

verus! {

/// The most listings that one page of a query holds.
pub const MAX_PAGE_LIMIT: u32 = 250;

/// The caller is the owner or one of the admins.
pub open spec fn is_admin(config: ConfigView, caller: Seq<char>) -> bool {
    config.owner == Some(caller) || match config.admins {
        Some(a) => a.contains(caller),
        None => false,
    }
}

/// Whether the caller is the owner or one of the admins.
pub fn check_admin(config: &Config, caller: &str) -> (b: bool)
    ensures
        b == is_admin(config@, caller@),
{
    match &config.owner {
        Some(o) => {
            if same_text(o.as_str(), caller) {
                return true;
            }
        },
        None => {},
    }
    match &config.admins {
        Some(a) => {
            let mut i: usize = 0;
            while i < a.len()
                invariant
                    i <= a.len(),
                    config@.admins == Some(texts_view(a@)),
                    forall|j: int| 0 <= j < i ==> texts_view(a@)[j] != caller@,
                decreases a.len() - i,
            {
                if same_text(a[i].as_str(), caller) {
                    assert(texts_view(a@)[i as int] == caller@);
                    return true;
                }
                i = i + 1;
            }
            false
        },
        None => false,
    }
}

/// The metadata carries the field.
pub open spec fn has_field(m: MetadataView, f: Field) -> bool {
    match f {
        Field::Exp => m.exp is Some,
        Field::Logo => m.logo is Some,
        Field::Chain => m.chain is Some,
    }
}

/// The first of the required fields that the metadata lacks.
pub open spec fn first_missing(required: Seq<Field>, m: MetadataView) -> Option<Field>
    decreases required.len(),
{
    if required.len() == 0 {
        None
    } else if !has_field(m, required[0]) {
        Some(required[0])
    } else {
        first_missing(required.skip(1), m)
    }
}

/// Checks the metadata against the required fields, in their order.
pub fn check_required_fields(required_fields: &[Field], metadata: &Metadata) -> (r: Result<
    (),
    ContractError,
>)
    ensures
        match first_missing(required_fields@, metadata@) {
            Some(f) => r matches Err(e) && e@ == ContractErrorView::MissingField(f),
            None => r is Ok,
        },
{
    let mut i: usize = 0;
    assert(required_fields@.skip(0) =~= required_fields@);
    while i < required_fields.len()
        invariant
            i <= required_fields.len(),
            first_missing(required_fields@, metadata@) == first_missing(
                required_fields@.skip(i as int),
                metadata@,
            ),
        decreases required_fields.len() - i,
    {
        let field = required_fields[i];
        assert(required_fields@.skip(i as int)[0] == field);
        assert(required_fields@.skip(i as int).skip(1) =~= required_fields@.skip(i + 1));
        let present = match field {
            Field::Exp => metadata.exp.is_some(),
            Field::Logo => metadata.logo.is_some(),
            Field::Chain => metadata.chain.is_some(),
        };
        if !present {
            return Err(ContractError::MissingField(field));
        }
        i = i + 1;
    }
    Ok(())
}

/// The first entry of the fee schedule in the given denomination.
pub open spec fn find_fee(fee: Seq<CoinView>, denom: Seq<char>) -> Option<CoinView>
    decreases fee.len(),
{
    if fee.len() == 0 {
        None
    } else if fee[0].denom == denom {
        Some(fee[0])
    } else {
        find_fee(fee.skip(1), denom)
    }
}

/// The admission gate for a batch of `count` new listings: why the attached
/// funds are refused, if they are. Admins pass, and so does everyone where
/// no fee schedule is set. Otherwise the checks run in this order: some
/// funds, one denomination, a denomination of the schedule, an amount of at
/// least the per-listing fee times `count`. Paying more is accepted.
pub open spec fn admission(
    funds: Seq<CoinView>,
    fee: Option<Seq<CoinView>>,
    admin: bool,
    count: nat,
) -> Option<ContractErrorView> {
    if admin || fee is None {
        None
    } else if funds.len() == 0 {
        Some(ContractErrorView::MissingFee)
    } else if funds.len() > 1 {
        Some(ContractErrorView::MultipleFees)
    } else {
        match find_fee(fee->0, funds[0].denom) {
            None => Some(ContractErrorView::InvalidFee),
            Some(f) => if f.amount * count > funds[0].amount {
                Some(ContractErrorView::InsufficientFee)
            } else {
                None
            },
        }
    }
}

/// Applies the admission gate to the funds attached to a batch.
pub fn check_fee(funds: &[Coin], fee: &Option<Vec<Coin>>, admin: bool, count: usize) -> (r: Result<
    (),
    ContractError,
>)
    ensures
        match admission(
            coins_view(funds@),
            match *fee {
                Some(f) => Some(coins_view(f@)),
                None => None,
            },
            admin,
            count as nat,
        ) {
            Some(e) => r matches Err(x) && x@ == e,
            None => r is Ok,
        },
{
    if admin {
        return Ok(());
    }
    match fee {
        None => Ok(()),
        Some(schedule) => {
            if funds.len() == 0 {
                return Err(ContractError::MissingFee);
            }
            if funds.len() > 1 {
                return Err(ContractError::MultipleFees);
            }
            let paid = &funds[0];
            let ghost fv = coins_view(schedule@);
            let ghost d = paid.denom@;
            assert(coins_view(funds@)[0] == paid@);
            assert(fv.skip(0) =~= fv);
            let mut i: usize = 0;
            while i < schedule.len()
                invariant
                    i <= schedule.len(),
                    !admin,
                    *fee == Some(*schedule),
                    funds@.len() == 1,
                    coins_view(funds@)[0] == paid@,
                    fv == coins_view(schedule@),
                    d == paid.denom@,
                    find_fee(fv, d) == find_fee(fv.skip(i as int), d),
                decreases schedule.len() - i,
            {
                let entry = &schedule[i];
                assert(fv.skip(i as int)[0] == entry@);
                assert(fv.skip(i as int).skip(1) =~= fv.skip(i + 1));
                if same_text(entry.denom.as_str(), paid.denom.as_str()) {
                    let due = entry.amount.checked_mul(count as u128);
                    return match due {
                        Some(total) => {
                            if total > paid.amount {
                                Err(ContractError::InsufficientFee)
                            } else {
                                Ok(())
                            }
                        },
                        None => Err(ContractError::InsufficientFee),
                    };
                }
                i = i + 1;
            }
            Err(ContractError::InvalidFee)
        },
    }
}

/// A batch item: a denomination and the metadata to list under it.
pub type Item = (Seq<char>, MetadataView);

/// Who is recorded as the author of what the caller writes: the caller
/// itself, or nobody where the caller is an admin.
pub open spec fn author_of(sender: Seq<char>, admin: bool) -> Option<Seq<char>> {
    if admin {
        None
    } else {
        Some(sender)
    }
}

/// The caller may edit or remove the listing: it is an admin, or the
/// listing's recorded author. A listing without author is for admins only.
pub open spec fn may_edit(listing: ListingView, sender: Seq<char>, admin: bool) -> bool {
    admin || listing.author == Some(sender)
}

/// Adding one listing: its denomination and its symbol must be free and its
/// metadata must carry the required fields.
pub open spec fn add_step(
    c: CatalogView,
    author: Option<Seq<char>>,
    required: Seq<Field>,
    item: Item,
) -> Result<CatalogView, ContractErrorView> {
    if c.denoms.contains_key(item.0) {
        Err(ContractErrorView::DuplicateListing(item.0))
    } else if c.symbols.contains_key(item.1.symbol) {
        Err(ContractErrorView::DuplicateListing(item.1.symbol))
    } else {
        match first_missing(required, item.1) {
            Some(f) => Err(ContractErrorView::MissingField(f)),
            None => Ok(c.with(item.0, ListingView { author, metadata: item.1 })),
        }
    }
}

/// Adding a batch, item by item; the first refusal is the batch's.
pub open spec fn add_batch(
    c: CatalogView,
    author: Option<Seq<char>>,
    required: Seq<Field>,
    items: Seq<Item>,
) -> Result<CatalogView, ContractErrorView>
    decreases items.len(),
{
    if items.len() == 0 {
        Ok(c)
    } else {
        match add_step(c, author, required, items[0]) {
            Ok(n) => add_batch(n, author, required, items.skip(1)),
            Err(e) => Err(e),
        }
    }
}

/// What an Add does to the catalog: the permission gate, then the admission
/// gate, then the batch.
pub open spec fn add_listings(
    c: CatalogView,
    sender: Seq<char>,
    funds: Seq<CoinView>,
    fee: Option<Seq<CoinView>>,
    admin: bool,
    permissioned: bool,
    required: Seq<Field>,
    items: Seq<Item>,
) -> Result<CatalogView, ContractErrorView> {
    if permissioned && !admin {
        Err(ContractErrorView::AddPermissioned)
    } else {
        match admission(funds, fee, admin, items.len()) {
            Some(e) => Err(e),
            None => add_batch(c, author_of(sender, admin), required, items),
        }
    }
}

/// The fee schedule as a list of coin views.
pub open spec fn fee_view(fee: Option<Vec<Coin>>) -> Option<Seq<CoinView>> {
    match fee {
        Some(f) => Some(coins_view(f@)),
        None => None,
    }
}

fn author_for(sender: &str, admin: bool) -> (a: Option<String>)
    ensures
        crate::text::opt_text(a) == author_of(sender@, admin),
{
    if admin {
        None
    } else {
        Some(copy_str(sender))
    }
}

/// Adds a batch of listings. Where any item is refused the whole batch is,
/// and the catalog stays as it was.
pub fn execute_add_listings(
    catalog: &mut Catalog,
    sender: &str,
    funds: &[Coin],
    fee: &Option<Vec<Coin>>,
    admin: bool,
    permissioned: bool,
    required_fields: &[Field],
    new_listings: Vec<(String, Metadata)>,
) -> (r: Result<Response, ContractError>)
    ensures
        final(catalog).wf(),
        match add_listings(
            old(catalog)@,
            sender@,
            coins_view(funds@),
            fee_view(*fee),
            admin,
            permissioned,
            required_fields@,
            items_view(new_listings@),
        ) {
            Ok(v) => r matches Ok(resp) && resp@ == ResponseView::action("assetlist_add_listings"@)
                && final(catalog)@ == v,
            Err(e) => r matches Err(x) && x@ == e && *final(catalog) == *old(catalog),
        },
{
    proof {
        use_type_invariant(&*catalog);
    }
    if permissioned && !admin {
        return Err(ContractError::AddPermissioned);
    }
    match check_fee(funds, fee, admin, new_listings.len()) {
        Err(e) => {
            return Err(e);
        },
        Ok(()) => {},
    }
    let ghost items = items_view(new_listings@);
    let ghost author = author_of(sender@, admin);
    let ghost start = catalog@;
    let mut work = catalog.clone();
    let mut i: usize = 0;
    assert(items.skip(0) =~= items);
    while i < new_listings.len()
        invariant
            i <= new_listings.len(),
            *catalog == *old(catalog),
            old(catalog).wf(),
            start == old(catalog)@,
            !(permissioned && !admin),
            admission(coins_view(funds@), fee_view(*fee), admin, items.len()) is None,
            items == items_view(new_listings@),
            author == author_of(sender@, admin),
            work.wf(),
            add_batch(start, author, required_fields@, items) == add_batch(
                work@,
                author,
                required_fields@,
                items.skip(i as int),
            ),
        decreases new_listings.len() - i,
    {
        let item = &new_listings[i];
        assert(items.skip(i as int)[0] == (item.0@, item.1@));
        assert(items.skip(i as int).skip(1) =~= items.skip(i + 1));
        if work.has(item.0.as_str()) {
            return Err(ContractError::DuplicateListing(item.0.clone()));
        }
        if work.has_symbol(item.1.symbol.as_str()) {
            return Err(ContractError::DuplicateListing(item.1.symbol.clone()));
        }
        match check_required_fields(required_fields, &item.1) {
            Err(e) => {
                return Err(e);
            },
            Ok(()) => {},
        }
        let listing = Listing { author: author_for(sender, admin), metadata: item.1.clone() };
        let done = work.insert(item.0.clone(), listing);
        assert(done is Ok);
        i = i + 1;
    }
    *catalog = work;
    Ok(Response::action("assetlist_add_listings"))
}

/// Rewriting one listing: the denomination must be listed, the caller must
/// be allowed to edit it, a changed symbol must be free, and the metadata
/// must carry the required fields. The listing's author becomes the caller,
/// or nobody where the caller is an admin: an admin's edit takes the listing
/// away from the address that wrote it.
pub open spec fn update_step(
    c: CatalogView,
    sender: Seq<char>,
    admin: bool,
    required: Seq<Field>,
    item: Item,
) -> Result<CatalogView, ContractErrorView> {
    if !c.denoms.contains_key(item.0) {
        Err(ContractErrorView::ListingNotFound(item.0))
    } else if !may_edit(c.denoms[item.0], sender, admin) {
        Err(ContractErrorView::Unauthorized)
    } else if c.denoms[item.0].metadata.symbol != item.1.symbol && c.symbols.contains_key(
        item.1.symbol,
    ) {
        Err(ContractErrorView::DuplicateListing(item.1.symbol))
    } else {
        match first_missing(required, item.1) {
            Some(f) => Err(ContractErrorView::MissingField(f)),
            None => Ok(
                c.without(item.0).with(
                    item.0,
                    ListingView { author: author_of(sender, admin), metadata: item.1 },
                ),
            ),
        }
    }
}

/// Rewriting a batch, item by item; the first refusal is the batch's.
pub open spec fn update_batch(
    c: CatalogView,
    sender: Seq<char>,
    admin: bool,
    required: Seq<Field>,
    items: Seq<Item>,
) -> Result<CatalogView, ContractErrorView>
    decreases items.len(),
{
    if items.len() == 0 {
        Ok(c)
    } else {
        match update_step(c, sender, admin, required, items[0]) {
            Ok(n) => update_batch(n, sender, admin, required, items.skip(1)),
            Err(e) => Err(e),
        }
    }
}

/// What an Update does to the catalog: the permission gate of adding, with
/// its refusal, then the batch.
pub open spec fn update_listings(
    c: CatalogView,
    sender: Seq<char>,
    admin: bool,
    permissioned: bool,
    required: Seq<Field>,
    items: Seq<Item>,
) -> Result<CatalogView, ContractErrorView> {
    if permissioned && !admin {
        Err(ContractErrorView::AddPermissioned)
    } else {
        update_batch(c, sender, admin, required, items)
    }
}

/// Rewrites a batch of listings. The permission gate is that of adding:
/// `permissioned` is the flag that restricts adding, and a caller whom it
/// shuts out is refused with `AddPermissioned`. Where any item is refused the
/// whole batch is, and the catalog stays as it was.
pub fn execute_update_listings(
    catalog: &mut Catalog,
    sender: &str,
    admin: bool,
    permissioned: bool,
    required_fields: &[Field],
    updated_listings: Vec<(String, Metadata)>,
) -> (r: Result<Response, ContractError>)
    ensures
        final(catalog).wf(),
        match update_listings(
            old(catalog)@,
            sender@,
            admin,
            permissioned,
            required_fields@,
            items_view(updated_listings@),
        ) {
            Ok(v) => r matches Ok(resp) && resp@ == ResponseView::action(
                "assetlist_update_listings"@,
            ) && final(catalog)@ == v,
            Err(e) => r matches Err(x) && x@ == e && *final(catalog) == *old(catalog),
        },
{
    proof {
        use_type_invariant(&*catalog);
    }
    if permissioned && !admin {
        return Err(ContractError::AddPermissioned);
    }
    let ghost items = items_view(updated_listings@);
    let ghost start = catalog@;
    let mut work = catalog.clone();
    let mut i: usize = 0;
    assert(items.skip(0) =~= items);
    while i < updated_listings.len()
        invariant
            i <= updated_listings.len(),
            *catalog == *old(catalog),
            old(catalog).wf(),
            start == old(catalog)@,
            !(permissioned && !admin),
            items == items_view(updated_listings@),
            work.wf(),
            update_batch(start, sender@, admin, required_fields@, items) == update_batch(
                work@,
                sender@,
                admin,
                required_fields@,
                items.skip(i as int),
            ),
        decreases updated_listings.len() - i,
    {
        let item = &updated_listings[i];
        assert(items.skip(i as int)[0] == (item.0@, item.1@));
        assert(items.skip(i as int).skip(1) =~= items.skip(i + 1));
        let allowed = match work.load(item.0.as_str()) {
            None => {
                return Err(ContractError::ListingNotFound(item.0.clone()));
            },
            Some(current) => admin || match &current.author {
                Some(a) => same_text(a.as_str(), sender),
                None => false,
            },
        };
        if !allowed {
            return Err(ContractError::Unauthorized);
        }
        if work.has_symbol(item.1.symbol.as_str()) {
            let same = match work.load(item.0.as_str()) {
                Some(current) => same_text(
                    current.metadata.symbol.as_str(),
                    item.1.symbol.as_str(),
                ),
                None => false,
            };
            if !same {
                return Err(ContractError::DuplicateListing(item.1.symbol.clone()));
            }
        }
        match check_required_fields(required_fields, &item.1) {
            Err(e) => {
                return Err(e);
            },
            Ok(()) => {},
        }
        let listing = Listing { author: author_for(sender, admin), metadata: item.1.clone() };
        let done = work.replace(item.0.as_str(), listing);
        assert(done is Ok);
        i = i + 1;
    }
    *catalog = work;
    Ok(Response::action("assetlist_update_listings"))
}

/// Removing one listing: the denomination must be listed and the caller
/// must be allowed to edit it.
pub open spec fn remove_step(
    c: CatalogView,
    sender: Seq<char>,
    admin: bool,
    denom: Seq<char>,
) -> Result<CatalogView, ContractErrorView> {
    if !c.denoms.contains_key(denom) {
        Err(ContractErrorView::ListingNotFound(denom))
    } else if !may_edit(c.denoms[denom], sender, admin) {
        Err(ContractErrorView::Unauthorized)
    } else {
        Ok(c.without(denom))
    }
}

/// Removing a batch, denomination by denomination; the first refusal is
/// the batch's.
pub open spec fn remove_batch(
    c: CatalogView,
    sender: Seq<char>,
    admin: bool,
    denoms: Seq<Seq<char>>,
) -> Result<CatalogView, ContractErrorView>
    decreases denoms.len(),
{
    if denoms.len() == 0 {
        Ok(c)
    } else {
        match remove_step(c, sender, admin, denoms[0]) {
            Ok(n) => remove_batch(n, sender, admin, denoms.skip(1)),
            Err(e) => Err(e),
        }
    }
}

/// What a Remove does to the catalog: the permission gate, then the batch.
pub open spec fn remove_listings(
    c: CatalogView,
    sender: Seq<char>,
    admin: bool,
    permissioned: bool,
    denoms: Seq<Seq<char>>,
) -> Result<CatalogView, ContractErrorView> {
    if permissioned && !admin {
        Err(ContractErrorView::RemovePermissioned)
    } else {
        remove_batch(c, sender, admin, denoms)
    }
}

/// Removes a batch of listings. `permissioned` is the flag that restricts
/// removing. Where any item is refused the whole batch is, and the catalog
/// stays as it was.
pub fn execute_remove_listings(
    catalog: &mut Catalog,
    sender: &str,
    admin: bool,
    permissioned: bool,
    denoms: Vec<String>,
) -> (r: Result<Response, ContractError>)
    ensures
        final(catalog).wf(),
        match remove_listings(old(catalog)@, sender@, admin, permissioned, texts_view(denoms@)) {
            Ok(v) => r matches Ok(resp) && resp@ == ResponseView::action(
                "assetlist_remove_listings"@,
            ) && final(catalog)@ == v,
            Err(e) => r matches Err(x) && x@ == e && *final(catalog) == *old(catalog),
        },
{
    proof {
        use_type_invariant(&*catalog);
    }
    if permissioned && !admin {
        return Err(ContractError::RemovePermissioned);
    }
    let ghost names = texts_view(denoms@);
    let ghost start = catalog@;
    let mut work = catalog.clone();
    let mut i: usize = 0;
    assert(names.skip(0) =~= names);
    while i < denoms.len()
        invariant
            i <= denoms.len(),
            *catalog == *old(catalog),
            old(catalog).wf(),
            start == old(catalog)@,
            !(permissioned && !admin),
            names == texts_view(denoms@),
            work.wf(),
            remove_batch(start, sender@, admin, names) == remove_batch(
                work@,
                sender@,
                admin,
                names.skip(i as int),
            ),
        decreases denoms.len() - i,
    {
        let denom = &denoms[i];
        assert(names.skip(i as int)[0] == denom@);
        assert(names.skip(i as int).skip(1) =~= names.skip(i + 1));
        let allowed = match work.load(denom.as_str()) {
            None => {
                return Err(ContractError::ListingNotFound(denom.clone()));
            },
            Some(current) => admin || match &current.author {
                Some(a) => same_text(a.as_str(), sender),
                None => false,
            },
        };
        if !allowed {
            return Err(ContractError::Unauthorized);
        }
        let gone = work.remove(denom.as_str());
        assert(gone is Some);
        i = i + 1;
    }
    *catalog = work;
    Ok(Response::action("assetlist_remove_listings"))
}

/// The value of a field after an update: the payload's where it has one,
/// else the current one.
pub open spec fn or_current<T>(payload: Option<T>, current: Option<T>) -> Option<T> {
    if payload is Some {
        payload
    } else {
        current
    }
}

/// The configuration after an update by its owner. A new list of admins
/// replaces the current one whole, with the resulting owner appended; an
/// empty list so leaves the owner as the only admin. Without a new list the
/// current one stays, and a new owner is appended to it. Every other field
/// that the payload lacks keeps its value.
pub open spec fn merged_config(current: ConfigView, payload: ConfigView) -> ConfigView {
    let owner = or_current(payload.owner, current.owner);
    ConfigView {
        add_permissioned: or_current(payload.add_permissioned, current.add_permissioned),
        remove_permissioned: or_current(payload.remove_permissioned, current.remove_permissioned),
        required_fields: or_current(payload.required_fields, current.required_fields),
        fee: or_current(payload.fee, current.fee),
        admins: match payload.admins {
            Some(a) => match owner {
                Some(o) => Some(a.push(o)),
                None => Some(a),
            },
            None => match payload.owner {
                Some(o) => Some(
                    match current.admins {
                        Some(a) => a.push(o),
                        None => seq![o],
                    },
                ),
                None => current.admins,
            },
        },
        owner,
    }
}

/// What an update of the configuration gives: only the owner may ask.
pub open spec fn update_config(
    current: ConfigView,
    sender: Seq<char>,
    payload: ConfigView,
) -> Result<ConfigView, ContractErrorView> {
    if current.owner != Some(sender) {
        Err(ContractErrorView::NotOwner)
    } else {
        Ok(merged_config(current, payload))
    }
}

/// Updates the configuration. On success the payload has become the new
/// configuration; on refusal it is untouched.
pub fn execute_update_config(sender: &str, old_config: Config, new_config: &mut Config) -> (r:
    Result<Response, ContractError>)
    ensures
        match update_config(old_config@, sender@, old(new_config)@) {
            Ok(v) => r matches Ok(resp) && resp@ == ResponseView::action("assetlist_update_config"@)
                && final(new_config)@ == v,
            Err(e) => r matches Err(x) && x@ == e && *final(new_config) == *old(new_config),
        },
{
    let is_owner = match &old_config.owner {
        Some(o) => same_text(o.as_str(), sender),
        None => false,
    };
    if !is_owner {
        return Err(ContractError::NotOwner);
    }
    let owner: Option<String> = match &new_config.owner {
        Some(o) => Some(o.clone()),
        None => crate::text::copy_opt(&old_config.owner),
    };
    let admins: Option<Vec<String>> = match &new_config.admins {
        Some(a) => {
            let mut list = crate::assetlist::state::copy_texts(a);
            match &owner {
                Some(o) => {
                    list.push(o.clone());
                    assert(texts_view(list@) =~= texts_view(a@).push(o@));
                },
                None => {},
            }
            Some(list)
        },
        None => match &new_config.owner {
            Some(o) => {
                let mut list: Vec<String> = match old_config.admins {
                    Some(a) => a,
                    None => Vec::new(),
                };
                let ghost kept = texts_view(list@);
                list.push(o.clone());
                assert(texts_view(list@) =~= kept.push(o@));
                assert(old_config.admins is None ==> kept =~= Seq::<Seq<char>>::empty());
                Some(list)
            },
            None => old_config.admins,
        },
    };
    let add_permissioned = match new_config.add_permissioned {
        Some(b) => Some(b),
        None => old_config.add_permissioned,
    };
    let remove_permissioned = match new_config.remove_permissioned {
        Some(b) => Some(b),
        None => old_config.remove_permissioned,
    };
    let required_fields: Option<Vec<Field>> = match &new_config.required_fields {
        Some(f) => Some(crate::assetlist::state::copy_fields(f)),
        None => old_config.required_fields,
    };
    let fee: Option<Vec<Coin>> = match &new_config.fee {
        Some(f) => Some(crate::coin::copy_coins(f)),
        None => old_config.fee,
    };
    *new_config =
    Config { add_permissioned, remove_permissioned, required_fields, fee, admins, owner };
    Ok(Response::action("assetlist_update_config"))
}

/// The configuration that an instantiation stores: the message's, with the
/// sender appended to the admins and standing in for an absent owner.
pub open spec fn initial_config(sender: Seq<char>, msg: ConfigView) -> ConfigView {
    ConfigView {
        add_permissioned: msg.add_permissioned,
        remove_permissioned: msg.remove_permissioned,
        required_fields: msg.required_fields,
        fee: msg.fee,
        admins: Some(
            match msg.admins {
                Some(a) => a.push(sender),
                None => seq![sender],
            },
        ),
        owner: Some(
            match msg.owner {
                Some(o) => o,
                None => sender,
            },
        ),
    }
}

/// Sets the asset list up: gives the configuration to store beside an empty
/// catalog.
pub fn instantiate(sender: &str, msg: InstantiateMsg) -> (r: (
    Config,
    Response,
))
    ensures
        r.0@ == initial_config(sender@, msg.0@),
        r.1@ == ResponseView::action("assetlist_instantiate"@),
{
    let payload = msg.0;
    let mut admins: Vec<String> = match payload.admins {
        Some(a) => a,
        None => Vec::new(),
    };
    let ghost before = texts_view(admins@);
    admins.push(copy_str(sender));
    assert(texts_view(admins@) =~= before.push(sender@));
    assert(payload.admins is None ==> before =~= Seq::<Seq<char>>::empty());
    let owner = match payload.owner {
        Some(o) => o,
        None => copy_str(sender),
    };
    let config = Config {
        add_permissioned: payload.add_permissioned,
        remove_permissioned: payload.remove_permissioned,
        required_fields: payload.required_fields,
        fee: payload.fee,
        admins: Some(admins),
        owner: Some(owner),
    };
    (config, Response::action("assetlist_instantiate"))
}

/// A flag that is absent counts as not set.
pub open spec fn flag(f: Option<bool>) -> bool {
    f == Some(true)
}

/// An absent list of required fields demands nothing.
pub open spec fn fields_of(f: Option<Seq<Field>>) -> Seq<Field> {
    match f {
        Some(s) => s,
        None => Seq::empty(),
    }
}

/// Carries out one message against the configuration and the catalog. The
/// caller's standing is read from the configuration as it is before the
/// message. A listing message leaves the configuration alone, a
/// configuration update leaves the catalog alone, and a refusal leaves both.
pub fn execute(
    config: &mut Config,
    catalog: &mut Catalog,
    sender: &str,
    funds: &[Coin],
    msg: ExecuteMsg,
) -> (r: Result<Response, ContractError>)
    ensures
        final(catalog).wf(),
        r is Err ==> *final(config) == *old(config) && *final(catalog) == *old(catalog),
        match msg {
            ExecuteMsg::Listing(
                ListingMsg::Add(items),
            ) => *final(config) == *old(config) && match add_listings(
                old(catalog)@,
                sender@,
                coins_view(funds@),
                old(config)@.fee,
                is_admin(old(config)@, sender@),
                flag(old(config)@.add_permissioned),
                fields_of(old(config)@.required_fields),
                items_view(items@),
            ) {
                Ok(v) => r matches Ok(resp) && resp@ == ResponseView::action(
                    "assetlist_add_listings"@,
                ) && final(catalog)@ == v,
                Err(e) => r matches Err(x) && x@ == e,
            },
            ExecuteMsg::Listing(
                ListingMsg::Update(items),
            ) => *final(config) == *old(config) && match update_listings(
                old(catalog)@,
                sender@,
                is_admin(old(config)@, sender@),
                flag(old(config)@.add_permissioned),
                fields_of(old(config)@.required_fields),
                items_view(items@),
            ) {
                Ok(v) => r matches Ok(resp) && resp@ == ResponseView::action(
                    "assetlist_update_listings"@,
                ) && final(catalog)@ == v,
                Err(e) => r matches Err(x) && x@ == e,
            },
            ExecuteMsg::Listing(
                ListingMsg::Remove(denoms),
            ) => *final(config) == *old(config) && match remove_listings(
                old(catalog)@,
                sender@,
                is_admin(old(config)@, sender@),
                flag(old(config)@.remove_permissioned),
                texts_view(denoms@),
            ) {
                Ok(v) => r matches Ok(resp) && resp@ == ResponseView::action(
                    "assetlist_remove_listings"@,
                ) && final(catalog)@ == v,
                Err(e) => r matches Err(x) && x@ == e,
            },
            ExecuteMsg::UpdateConfig(payload) => *final(catalog) == *old(
                catalog,
            ) && match update_config(old(config)@, sender@, payload@) {
                Ok(v) => r matches Ok(resp) && resp@ == ResponseView::action(
                    "assetlist_update_config"@,
                ) && final(config)@ == v,
                Err(e) => r matches Err(x) && x@ == e,
            },
        },
{
    proof {
        use_type_invariant(&*catalog);
    }
    let admin = check_admin(config, sender);
    let add_permissioned = match config.add_permissioned {
        Some(b) => b,
        None => false,
    };
    let remove_permissioned = match config.remove_permissioned {
        Some(b) => b,
        None => false,
    };
    let nothing: Vec<Field> = Vec::new();
    let required: &[Field] = match &config.required_fields {
        Some(f) => f.as_slice(),
        None => nothing.as_slice(),
    };
    assert(required@ =~= fields_of(config@.required_fields));
    match msg {
        ExecuteMsg::Listing(m) => match m {
            ListingMsg::Add(listings) => execute_add_listings(
                catalog,
                sender,
                funds,
                &config.fee,
                admin,
                add_permissioned,
                required,
                listings,
            ),
            ListingMsg::Update(updates) => execute_update_listings(
                catalog,
                sender,
                admin,
                add_permissioned,
                required,
                updates,
            ),
            ListingMsg::Remove(denoms) => execute_remove_listings(
                catalog,
                sender,
                admin,
                remove_permissioned,
                denoms,
            ),
        },
        ExecuteMsg::UpdateConfig(payload) => {
            let mut next = payload;
            let r = execute_update_config(sender, config.clone(), &mut next);
            if r.is_ok() {
                *config = next;
            }
            r
        },
    }
}

/// The first of the names that is not a key of the map.
pub open spec fn first_absent<V>(m: Map<Seq<char>, V>, names: Seq<Seq<char>>) -> Option<Seq<char>>
    decreases names.len(),
{
    if names.len() == 0 {
        None
    } else if !m.contains_key(names[0]) {
        Some(names[0])
    } else {
        first_absent(m, names.skip(1))
    }
}

/// The answer to a query by denomination: each denomination with its
/// metadata, in the order asked; the first one that is not listed refuses
/// the query.
pub open spec fn by_denom(c: CatalogView, names: Seq<Seq<char>>) -> Result<
    Seq<Item>,
    ContractErrorView,
> {
    match first_absent(c.denoms, names) {
        Some(n) => Err(ContractErrorView::ListingNotFound(n)),
        None => Ok(Seq::new(names.len(), |i: int| (names[i], c.denoms[names[i]].metadata))),
    }
}

/// The answer to a query by symbol: for each symbol the denomination it
/// names, with that denomination's metadata; the first symbol that is not
/// in use refuses the query.
pub open spec fn by_symbol(c: CatalogView, names: Seq<Seq<char>>) -> Result<
    Seq<Item>,
    ContractErrorView,
> {
    match first_absent(c.symbols, names) {
        Some(n) => Err(ContractErrorView::ListingNotFound(n)),
        None => Ok(
            Seq::new(
                names.len(),
                |i: int| (c.symbols[names[i]], c.denoms[c.symbols[names[i]]].metadata),
            ),
        ),
    }
}

/// Answers a query by denomination.
pub fn query_listings_by_denom(catalog: &Catalog, denoms: &[String]) -> (r: Result<
    Vec<(String, Metadata)>,
    ContractError,
>)
    ensures
        match by_denom(catalog@, texts_view(denoms@)) {
            Ok(v) => r matches Ok(d) && items_view(d@) == v,
            Err(e) => r matches Err(x) && x@ == e,
        },
{
    proof {
        use_type_invariant(catalog);
    }
    let ghost names = texts_view(denoms@);
    let mut data: Vec<(String, Metadata)> = Vec::new();
    let mut i: usize = 0;
    assert(names.skip(0) =~= names);
    while i < denoms.len()
        invariant
            i <= denoms.len(),
            catalog.wf(),
            names == texts_view(denoms@),
            data@.len() == i,
            first_absent(catalog@.denoms, names) == first_absent(
                catalog@.denoms,
                names.skip(i as int),
            ),
            forall|j: int|
                0 <= j < i ==> (#[trigger] data@[j]).0@ == names[j] && data@[j].1@
                    == catalog@.denoms[names[j]].metadata,
        decreases denoms.len() - i,
    {
        let denom = &denoms[i];
        assert(names.skip(i as int)[0] == denom@);
        assert(names.skip(i as int).skip(1) =~= names.skip(i + 1));
        match catalog.load(denom.as_str()) {
            Some(listing) => {
                data.push((denom.clone(), listing.metadata.clone()));
            },
            None => {
                return Err(ContractError::ListingNotFound(denom.clone()));
            },
        }
        i = i + 1;
    }
    assert(items_view(data@) =~= by_denom(catalog@, names)->Ok_0);
    Ok(data)
}

/// Answers a query by symbol.
pub fn query_listings_by_symbol(catalog: &Catalog, symbols: &[String]) -> (r: Result<
    Vec<(String, Metadata)>,
    ContractError,
>)
    ensures
        match by_symbol(catalog@, texts_view(symbols@)) {
            Ok(v) => r matches Ok(d) && items_view(d@) == v,
            Err(e) => r matches Err(x) && x@ == e,
        },
{
    proof {
        use_type_invariant(catalog);
    }
    let ghost names = texts_view(symbols@);
    let mut data: Vec<(String, Metadata)> = Vec::new();
    let mut i: usize = 0;
    assert(names.skip(0) =~= names);
    while i < symbols.len()
        invariant
            i <= symbols.len(),
            catalog.wf(),
            names == texts_view(symbols@),
            data@.len() == i,
            first_absent(catalog@.symbols, names) == first_absent(
                catalog@.symbols,
                names.skip(i as int),
            ),
            forall|j: int|
                0 <= j < i ==> (#[trigger] data@[j]).0@ == catalog@.symbols[names[j]] && data@[j].1@
                    == catalog@.denoms[catalog@.symbols[names[j]]].metadata,
        decreases symbols.len() - i,
    {
        let symbol = &symbols[i];
        assert(names.skip(i as int)[0] == symbol@);
        assert(names.skip(i as int).skip(1) =~= names.skip(i + 1));
        let found = match catalog.resolve(symbol.as_str()) {
            Some(denom) => match catalog.load(denom.as_str()) {
                Some(listing) => Some((denom.clone(), listing.metadata.clone())),
                None => None,
            },
            None => None,
        };
        match found {
            Some(pair) => {
                data.push(pair);
            },
            None => {
                return Err(ContractError::ListingNotFound(symbol.clone()));
            },
        }
        i = i + 1;
    }
    assert(items_view(data@) =~= by_symbol(catalog@, names)->Ok_0);
    Ok(data)
}

/// The number of listings that a page holds at most: what was asked for,
/// but no more than `MAX_PAGE_LIMIT`, and that many where nothing was asked.
pub open spec fn page_limit(limit: Option<u32>) -> nat {
    match limit {
        Some(n) => if n < MAX_PAGE_LIMIT {
            n as nat
        } else {
            MAX_PAGE_LIMIT as nat
        },
        None => MAX_PAGE_LIMIT as nat,
    }
}

/// Each row's denomination with its listing's metadata.
pub open spec fn rows_items(rows: Seq<crate::assetlist::catalog::Row>) -> Seq<Item> {
    Seq::new(rows.len(), |i: int| (rows[i].0, rows[i].1.metadata))
}

/// One page of the catalog: the listings whose denominations come after
/// `start_after`, ascending, at most `page_limit(limit)` of them.
pub fn query_all_listings(catalog: &Catalog, start_after: Option<String>, limit: Option<u32>) -> (r:
    Vec<(String, Metadata)>)
    ensures
        items_view(r@) == rows_items(
            crate::keyed::page(
                catalog.rows(),
                crate::text::opt_text(start_after),
                page_limit(limit),
            ),
        ),
{
    proof {
        use_type_invariant(catalog);
    }
    let limit: u32 = match limit {
        Some(n) => if n < MAX_PAGE_LIMIT {
            n
        } else {
            MAX_PAGE_LIMIT
        },
        None => MAX_PAGE_LIMIT,
    };
    let first = match &start_after {
        Some(c) => catalog.first_after(Some(c.as_str())),
        None => catalog.first_after(None),
    };
    let ghost rows = catalog.rows();
    let ghost rest = rows.skip(first as int);
    let ghost want = crate::keyed::page(rows, crate::text::opt_text(start_after), limit as nat);
    let mut data: Vec<(String, Metadata)> = Vec::new();
    let total = catalog.len();
    let mut i: usize = 0;
    while i < limit as usize && first + i < total
        invariant
            rows == catalog.rows(),
            total == rows.len(),
            first <= rows.len(),
            first + i <= rows.len(),
            i <= limit,
            data@.len() == i,
            forall|j: int|
                0 <= j < i ==> (#[trigger] data@[j]).0@ == rows[first + j].0 && data@[j].1@
                    == rows[first + j].1.metadata,
        decreases rows.len() - first - i,
    {
        match catalog.get(first + i) {
            Some(row) => {
                data.push((row.0.clone(), row.1.metadata.clone()));
            },
            None => {},
        }
        i = i + 1;
    }
    proof {
        assert(want.len() == i);
        assert forall|j: int| 0 <= j < i implies want[j] == rows[first + j] by {
            assert(rest[j] == rows[first + j]);
        }
        assert(items_view(data@) =~= rows_items(want));
    }
    data
}

/// An answer to a query.
#[derive(Debug)]
pub enum QueryResponse {
    /// Denominations with their metadata.
    Listings(Vec<(String, Metadata)>),
    /// The configuration.
    Config(Config),
}

/// Answers a query from the configuration and the catalog.
pub fn query(config: &Config, catalog: &Catalog, msg: QueryMsg) -> (r: Result<
    QueryResponse,
    ContractError,
>)
    ensures
        match msg {
            QueryMsg::Listing(ListingQuery::Denom(denoms)) => match by_denom(
                catalog@,
                texts_view(denoms@),
            ) {
                Ok(v) => r matches Ok(QueryResponse::Listings(d)) && items_view(d@) == v,
                Err(e) => r matches Err(x) && x@ == e,
            },
            QueryMsg::Listing(ListingQuery::Symbol(symbols)) => match by_symbol(
                catalog@,
                texts_view(symbols@),
            ) {
                Ok(v) => r matches Ok(QueryResponse::Listings(d)) && items_view(d@) == v,
                Err(e) => r matches Err(x) && x@ == e,
            },
            QueryMsg::Listing(ListingQuery::All { start_after, limit }) => r matches Ok(
                QueryResponse::Listings(d),
            ) && items_view(d@) == rows_items(
                crate::keyed::page(
                    catalog.rows(),
                    crate::text::opt_text(start_after),
                    page_limit(limit),
                ),
            ),
            QueryMsg::Config => r matches Ok(QueryResponse::Config(c)) && c@ == config@,
        },
{
    proof {
        use_type_invariant(catalog);
    }
    match msg {
        QueryMsg::Listing(q) => match q {
            ListingQuery::Denom(denoms) => match query_listings_by_denom(
                catalog,
                denoms.as_slice(),
            ) {
                Ok(d) => Ok(QueryResponse::Listings(d)),
                Err(e) => Err(e),
            },
            ListingQuery::Symbol(symbols) => match query_listings_by_symbol(
                catalog,
                symbols.as_slice(),
            ) {
                Ok(d) => Ok(QueryResponse::Listings(d)),
                Err(e) => Err(e),
            },
            ListingQuery::All { start_after, limit } => Ok(
                QueryResponse::Listings(query_all_listings(catalog, start_after, limit)),
            ),
        },
        QueryMsg::Config => Ok(QueryResponse::Config(config.clone())),
    }
}

} // verus!
