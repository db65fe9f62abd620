//! The store of listings, indexed by denomination and by symbol.

use crate::assetlist::error::ContractError;
use crate::assetlist::error::ContractErrorView;
use crate::assetlist::state::{Listing, ListingView};
use crate::keyed::{
    ascending, beyond, distinct_keys, lemma_ascending_distinct, lemma_beyond_suffix, lemma_empty,
    lemma_insert, lemma_lookup, lemma_remove, lemma_witness, pairs_map,
};
use crate::text::{key_less, key_lt, lemma_key_order, same_text};
use vstd::prelude::*;

verus! {

/// One row of the primary index.
pub type Row = (Seq<char>, ListingView);

/// One row of the secondary index: a symbol and the denomination it names.
pub type Link = (Seq<char>, Seq<char>);

/// The catalog as two finite maps.
pub struct CatalogView {
    /// Denomination to listing.
    pub denoms: Map<Seq<char>, ListingView>,
    /// Symbol to denomination.
    pub symbols: Map<Seq<char>, Seq<char>>,
}

impl CatalogView {
    /// The two indexes agree: each listing is found under its symbol, and
    /// each symbol leads to a listing that carries it. So no two listings
    /// share a denomination or a symbol.
    pub open spec fn consistent(self) -> bool {
        &&& forall|d: Seq<char>| #[trigger]
            self.denoms.contains_key(d) ==> self.symbols.contains_key(
                self.denoms[d].metadata.symbol,
            ) && self.symbols[self.denoms[d].metadata.symbol] == d
        &&& forall|s: Seq<char>| #[trigger]
            self.symbols.contains_key(s) ==> self.denoms.contains_key(self.symbols[s])
                && self.denoms[self.symbols[s]].metadata.symbol == s
    }

    /// The catalog with a listing put under a denomination and its symbol.
    pub open spec fn with(self, denom: Seq<char>, listing: ListingView) -> CatalogView {
        CatalogView {
            denoms: self.denoms.insert(denom, listing),
            symbols: self.symbols.insert(listing.metadata.symbol, denom),
        }
    }

    /// The catalog without a denomination and without the symbol of its
    /// listing.
    pub open spec fn without(self, denom: Seq<char>) -> CatalogView {
        CatalogView {
            denoms: self.denoms.remove(denom),
            symbols: self.symbols.remove(self.denoms[denom].metadata.symbol),
        }
    }

    pub open spec fn empty() -> CatalogView {
        CatalogView { denoms: Map::empty(), symbols: Map::empty() }
    }
}

struct Entry {
    denom: String,
    listing: Listing,
}

struct Pointer {
    symbol: String,
    denom: String,
}

/// The listings, kept in ascending order of denomination, and the symbol
/// index beside them.
pub struct Catalog {
    entries: Vec<Entry>,
    pointers: Vec<Pointer>,
}

impl View for Catalog {
    type V = CatalogView;

    open spec fn view(&self) -> CatalogView {
        CatalogView { denoms: pairs_map(self.rows()), symbols: pairs_map(self.links()) }
    }
}

impl Catalog {
    /// The primary index, row by row in storage order.
    pub closed spec fn rows(&self) -> Seq<Row> {
        Seq::new(self.entries@.len(), |i: int| (self.entries@[i].denom@, self.entries@[i].listing@))
    }

    /// The secondary index, row by row.
    pub closed spec fn links(&self) -> Seq<Link> {
        Seq::new(
            self.pointers@.len(),
            |i: int| (self.pointers@[i].symbol@, self.pointers@[i].denom@),
        )
    }

    /// The catalog's invariant, which every catalog meets: rows ascend by
    /// denomination, no symbol is indexed twice, and the two indexes agree.
    #[verifier::type_invariant]
    pub open spec fn wf(&self) -> bool {
        &&& ascending(self.rows())
        &&& distinct_keys(self.links())
        &&& self@.consistent()
    }

    /// A catalog without listings.
    pub fn new() -> (c: Catalog)
        ensures
            c.wf(),
            c@ == CatalogView::empty(),
            c.rows().len() == 0,
    {
        let entries: Vec<Entry> = Vec::new();
        let pointers: Vec<Pointer> = Vec::new();
        let ghost next = Catalog { entries, pointers };
        proof {
            lemma_empty(next.rows());
            lemma_empty(next.links());
        }
        Catalog { entries, pointers }
    }

    /// The number of listings.
    pub fn len(&self) -> (n: usize)
        ensures
            n == self.rows().len(),
    {
        self.entries.len()
    }

    /// Where the denomination stands in the primary index, or else where it
    /// would have to be put.
    fn locate(&self, denom: &str) -> (r: (bool, usize))
        ensures
            r.1 <= self.rows().len(),
            r.0 == self@.denoms.contains_key(denom@),
            r.0 ==> r.1 < self.rows().len() && self.rows()[r.1 as int].0 == denom@,
            forall|j: int| 0 <= j < r.1 ==> key_lt((#[trigger] self.rows()[j]).0, denom@),
            !r.0 ==> forall|j: int|
                r.1 <= j < self.rows().len() ==> key_lt(denom@, (#[trigger] self.rows()[j]).0),
    {
        proof {
            use_type_invariant(self);
        }
        let ghost rows = self.rows();
        proof {
            lemma_ascending_distinct(rows);
        }
        let mut i: usize = 0;
        while i < self.entries.len()
            invariant
                rows == self.rows(),
                ascending(rows),
                distinct_keys(rows),
                i <= self.entries.len(),
                self.entries.len() == rows.len(),
                forall|j: int| 0 <= j < i ==> key_lt((#[trigger] rows[j]).0, denom@),
            decreases self.entries.len() - i,
        {
            let e = &self.entries[i];
            assert(rows[i as int].0 == e.denom@);
            if same_text(e.denom.as_str(), denom) {
                proof {
                    lemma_lookup(rows, i as int);
                }
                return (true, i);
            }
            if key_less(denom, e.denom.as_str()) {
                proof {
                    assert forall|j: int| i <= j < rows.len() implies key_lt(
                        denom@,
                        (#[trigger] rows[j]).0,
                    ) by {
                        if i < j {
                            lemma_key_order(denom@, rows[i as int].0, rows[j].0);
                        }
                    }
                    if self@.denoms.contains_key(denom@) {
                        let w = lemma_witness(rows, denom@);
                        lemma_key_order(denom@, denom@, denom@);
                    }
                }
                return (false, i);
            }
            proof {
                lemma_key_order(denom@, e.denom@, denom@);
            }
            i = i + 1;
        }
        proof {
            if self@.denoms.contains_key(denom@) {
                let w = lemma_witness(rows, denom@);
                lemma_key_order(denom@, denom@, denom@);
            }
        }
        (false, i)
    }

    /// Where the symbol stands in the secondary index.
    fn locate_symbol(&self, symbol: &str) -> (r: Option<usize>)
        ensures
            r is Some == self@.symbols.contains_key(symbol@),
            r matches Some(i) ==> i < self.links().len() && self.links()[i as int].0 == symbol@,
    {
        proof {
            use_type_invariant(self);
        }
        let ghost links = self.links();
        let mut i: usize = 0;
        while i < self.pointers.len()
            invariant
                links == self.links(),
                distinct_keys(links),
                i <= self.pointers.len(),
                self.pointers.len() == links.len(),
                forall|j: int| 0 <= j < i ==> (#[trigger] links[j]).0 != symbol@,
            decreases self.pointers.len() - i,
        {
            assert(links[i as int].0 == self.pointers[i as int].symbol@);
            if same_text(self.pointers[i].symbol.as_str(), symbol) {
                proof {
                    lemma_lookup(links, i as int);
                }
                return Some(i);
            }
            i = i + 1;
        }
        proof {
            if self@.symbols.contains_key(symbol@) {
                let w = lemma_witness(links, symbol@);
            }
        }
        None
    }

    /// Whether the denomination is listed.
    pub fn has(&self, denom: &str) -> (b: bool)
        ensures
            b == self@.denoms.contains_key(denom@),
    {
        proof {
            use_type_invariant(self);
        }
        self.locate(denom).0
    }

    /// Whether the symbol is in use.
    pub fn has_symbol(&self, symbol: &str) -> (b: bool)
        ensures
            b == self@.symbols.contains_key(symbol@),
    {
        proof {
            use_type_invariant(self);
        }
        self.locate_symbol(symbol).is_some()
    }

    /// The listing of a denomination.
    pub fn load(&self, denom: &str) -> (r: Option<&Listing>)
        ensures
            match r {
                Some(l) => self@.denoms.contains_key(denom@) && l@ == self@.denoms[denom@],
                None => !self@.denoms.contains_key(denom@),
            },
    {
        proof {
            use_type_invariant(self);
        }
        let (found, i) = self.locate(denom);
        if found {
            proof {
                lemma_ascending_distinct(self.rows());
                lemma_lookup(self.rows(), i as int);
            }
            Some(&self.entries[i].listing)
        } else {
            None
        }
    }

    /// The denomination that a symbol names.
    pub fn resolve(&self, symbol: &str) -> (r: Option<&String>)
        ensures
            match r {
                Some(d) => self@.symbols.contains_key(symbol@) && d@ == self@.symbols[symbol@],
                None => !self@.symbols.contains_key(symbol@),
            },
    {
        proof {
            use_type_invariant(self);
        }
        match self.locate_symbol(symbol) {
            Some(i) => {
                proof {
                    lemma_lookup(self.links(), i as int);
                }
                Some(&self.pointers[i].denom)
            },
            None => None,
        }
    }
}

/// What putting a new listing into the catalog gives: the denomination and
/// the symbol must both be free.
pub open spec fn insert_result(c: CatalogView, denom: Seq<char>, listing: ListingView) -> Result<
    CatalogView,
    ContractErrorView,
> {
    if c.denoms.contains_key(denom) {
        Err(ContractErrorView::DuplicateListing(denom))
    } else if c.symbols.contains_key(listing.metadata.symbol) {
        Err(ContractErrorView::DuplicateListing(listing.metadata.symbol))
    } else {
        Ok(c.with(denom, listing))
    }
}

/// What replacing the listing of a denomination gives: the denomination
/// must be listed, and a changed symbol must be free.
pub open spec fn replace_result(c: CatalogView, denom: Seq<char>, listing: ListingView) -> Result<
    CatalogView,
    ContractErrorView,
> {
    if !c.denoms.contains_key(denom) {
        Err(ContractErrorView::ListingNotFound(denom))
    } else if c.denoms[denom].metadata.symbol != listing.metadata.symbol && c.symbols.contains_key(
        listing.metadata.symbol,
    ) {
        Err(ContractErrorView::DuplicateListing(listing.metadata.symbol))
    } else {
        Ok(c.without(denom).with(denom, listing))
    }
}

/// Adding under a free denomination and a free symbol keeps the indexes in
/// agreement.
pub proof fn lemma_with_consistent(c: CatalogView, denom: Seq<char>, listing: ListingView)
    requires
        c.consistent(),
        !c.denoms.contains_key(denom),
        !c.symbols.contains_key(listing.metadata.symbol),
    ensures
        c.with(denom, listing).consistent(),
{
    let n = c.with(denom, listing);
    assert forall|d: Seq<char>| #[trigger] n.denoms.contains_key(d) implies n.symbols.contains_key(
        n.denoms[d].metadata.symbol,
    ) && n.symbols[n.denoms[d].metadata.symbol] == d by {
        if d != denom {
            assert(c.denoms.contains_key(d));
        }
    }
    assert forall|s: Seq<char>| #[trigger] n.symbols.contains_key(s) implies n.denoms.contains_key(
        n.symbols[s],
    ) && n.denoms[n.symbols[s]].metadata.symbol == s by {
        if s != listing.metadata.symbol {
            assert(c.symbols.contains_key(s));
        }
    }
}

/// Removing a listed denomination keeps the indexes in agreement and frees
/// both of its keys.
pub proof fn lemma_without_consistent(c: CatalogView, denom: Seq<char>)
    requires
        c.consistent(),
        c.denoms.contains_key(denom),
    ensures
        c.without(denom).consistent(),
        !c.without(denom).denoms.contains_key(denom),
        !c.without(denom).symbols.contains_key(c.denoms[denom].metadata.symbol),
{
    let n = c.without(denom);
    let sym = c.denoms[denom].metadata.symbol;
    assert forall|d: Seq<char>| #[trigger] n.denoms.contains_key(d) implies n.symbols.contains_key(
        n.denoms[d].metadata.symbol,
    ) && n.symbols[n.denoms[d].metadata.symbol] == d by {
        assert(c.denoms.contains_key(d));
        assert(c.symbols.contains_key(c.denoms[d].metadata.symbol));
    }
    assert forall|s: Seq<char>| #[trigger] n.symbols.contains_key(s) implies n.denoms.contains_key(
        n.symbols[s],
    ) && n.denoms[n.symbols[s]].metadata.symbol == s by {
        assert(c.symbols.contains_key(s));
    }
}

impl Catalog {
    /// Lists a denomination that is not yet listed.
    pub fn insert(&mut self, denom: String, listing: Listing) -> (r: Result<(), ContractError>)
        ensures
            final(self).wf(),
            match insert_result(old(self)@, denom@, listing@) {
                Ok(v) => r is Ok && final(self)@ == v,
                Err(e) => r is Err && r->Err_0@ == e && *final(self) == *old(self),
            },
    {
        proof {
            use_type_invariant(&*self);
        }
        let (found, pos) = self.locate(denom.as_str());
        if found {
            return Err(ContractError::DuplicateListing(denom));
        }
        if self.locate_symbol(listing.metadata.symbol.as_str()).is_some() {
            return Err(ContractError::DuplicateListing(listing.metadata.symbol));
        }
        let ghost rows = self.rows();
        let ghost links = self.links();
        let ghost before = self@;
        let pointer = Pointer { symbol: listing.metadata.symbol.clone(), denom: denom.clone() };
        let entry = Entry { denom, listing };
        let mut taken = Catalog::new();
        core::mem::swap(self, &mut taken);
        let Catalog { mut entries, mut pointers } = taken;
        pointers.push(pointer);
        entries.insert(pos, entry);
        let ghost next = Catalog { entries, pointers };
        proof {
            let row = (denom@, listing@);
            let link = (listing@.metadata.symbol, denom@);
            assert(next.rows() =~= rows.insert(pos as int, row));
            assert(next.links() =~= links.insert(links.len() as int, link));
            lemma_ascending_distinct(rows);
            lemma_insert(rows, pos as int, row.0, row.1);
            lemma_insert(links, links.len() as int, link.0, link.1);
            crate::keyed::lemma_ascending_insert(rows, pos as int, row.0, row.1);
            lemma_with_consistent(before, denom@, listing@);
        }
        *self = Catalog { entries, pointers };
        Ok(())
    }

    /// Takes a denomination off the list and hands back its listing.
    pub fn remove(&mut self, denom: &str) -> (r: Option<Listing>)
        ensures
            final(self).wf(),
            match r {
                Some(l) => old(self)@.denoms.contains_key(denom@) && l@ == old(self)@.denoms[denom@]
                    && final(self)@ == old(self)@.without(denom@),
                None => !old(self)@.denoms.contains_key(denom@) && *final(self) == *old(self),
            },
    {
        proof {
            use_type_invariant(&*self);
        }
        let (found, pos) = self.locate(denom);
        if !found {
            return None;
        }
        let ghost rows = self.rows();
        let ghost links = self.links();
        let ghost before = self@;
        proof {
            lemma_ascending_distinct(rows);
            lemma_lookup(rows, pos as int);
        }
        let at = self.locate_symbol(self.entries[pos].listing.metadata.symbol.as_str());
        assert(at is Some);
        let j = at.unwrap();
        proof {
            lemma_lookup(links, j as int);
        }
        let mut taken = Catalog::new();
        core::mem::swap(self, &mut taken);
        let Catalog { mut entries, mut pointers } = taken;
        let entry = entries.remove(pos);
        let _ = pointers.remove(j);
        let ghost next = Catalog { entries, pointers };
        proof {
            assert(next.rows() =~= rows.remove(pos as int));
            assert(next.links() =~= links.remove(j as int));
            lemma_remove(rows, pos as int);
            lemma_remove(links, j as int);
            crate::keyed::lemma_ascending_remove(rows, pos as int);
            lemma_without_consistent(before, denom@);
        }
        *self = Catalog { entries, pointers };
        Some(entry.listing)
    }

    /// Puts another listing in the place of a denomination's listing.
    pub fn replace(&mut self, denom: &str, listing: Listing) -> (r: Result<(), ContractError>)
        ensures
            final(self).wf(),
            match replace_result(old(self)@, denom@, listing@) {
                Ok(v) => r is Ok && final(self)@ == v,
                Err(e) => r is Err && r->Err_0@ == e && *final(self) == *old(self),
            },
    {
        proof {
            use_type_invariant(&*self);
        }
        let (found, pos) = self.locate(denom);
        if !found {
            return Err(ContractError::ListingNotFound(crate::text::copy_str(denom)));
        }
        proof {
            lemma_ascending_distinct(self.rows());
            lemma_lookup(self.rows(), pos as int);
        }
        let same = same_text(
            self.entries[pos].listing.metadata.symbol.as_str(),
            listing.metadata.symbol.as_str(),
        );
        if !same && self.locate_symbol(listing.metadata.symbol.as_str()).is_some() {
            return Err(ContractError::DuplicateListing(listing.metadata.symbol));
        }
        proof {
            lemma_without_consistent(self@, denom@);
        }
        let _ = self.remove(denom);
        self.insert(crate::text::copy_str(denom), listing)
    }
}

impl Catalog {
    /// The row at a position of the primary index: the denomination and its
    /// listing.
    pub fn get(&self, i: usize) -> (r: Option<(&String, &Listing)>)
        ensures
            match r {
                Some(p) => i < self.rows().len() && (p.0@, p.1@) == self.rows()[i as int],
                None => i >= self.rows().len(),
            },
    {
        if i < self.entries.len() {
            let e = &self.entries[i];
            Some((&e.denom, &e.listing))
        } else {
            None
        }
    }

    /// The position of the first row whose denomination comes after the
    /// cursor; the number of rows if there is none.
    pub fn first_after(&self, cursor: Option<&str>) -> (k: usize)
        ensures
            k <= self.rows().len(),
            self.rows().filter(beyond::<ListingView>(cursor_text(cursor))) == self.rows().skip(
                k as int,
            ),
    {
        proof {
            use_type_invariant(self);
        }
        let ghost rows = self.rows();
        let ghost cur = cursor_text(cursor);
        let mut i: usize = 0;
        match cursor {
            None => {},
            Some(c) => {
                let mut found = false;
                while i < self.entries.len() && !found
                    invariant
                        rows == self.rows(),
                        i <= self.entries.len(),
                        self.entries.len() == rows.len(),
                        forall|j: int| 0 <= j < i ==> !key_lt(c@, (#[trigger] rows[j]).0),
                        found ==> i < rows.len() && key_lt(c@, rows[i as int].0),
                    decreases self.entries.len() - i + (if found { 0int } else { 1int }),
                {
                    assert(rows[i as int].0 == self.entries[i as int].denom@);
                    if key_less(c, self.entries[i].denom.as_str()) {
                        found = true;
                    } else {
                        i = i + 1;
                    }
                }
            },
        }
        proof {
            assert forall|j: int| i <= j < rows.len() implies beyond::<ListingView>(cur)(
                #[trigger] rows[j],
            ) by {
                match cursor {
                    Some(c) => {
                        if i < j {
                            lemma_key_order(c@, rows[i as int].0, rows[j].0);
                        }
                    },
                    None => {},
                }
            }
            lemma_beyond_suffix(rows, cur, i as int);
        }
        i
    }
}

/// The text of an optional cursor.
pub open spec fn cursor_text(cursor: Option<&str>) -> Option<Seq<char>> {
    match cursor {
        Some(c) => Some(c@),
        None => None,
    }
}

impl Clone for Catalog {
    fn clone(&self) -> (c: Catalog)
        ensures
            c.rows() == self.rows(),
            c.links() == self.links(),
            c@ == self@,
            c.wf(),
    {
        proof {
            use_type_invariant(self);
        }
        let mut entries: Vec<Entry> = Vec::new();
        let mut i: usize = 0;
        while i < self.entries.len()
            invariant
                i <= self.entries.len(),
                entries.len() == i,
                forall|j: int|
                    0 <= j < i ==> entries[j].denom@ == self.entries[j].denom@ && entries[j].listing@
                        == self.entries[j].listing@,
            decreases self.entries.len() - i,
        {
            let e = &self.entries[i];
            entries.push(Entry { denom: e.denom.clone(), listing: e.listing.clone() });
            i = i + 1;
        }
        let mut pointers: Vec<Pointer> = Vec::new();
        let mut k: usize = 0;
        while k < self.pointers.len()
            invariant
                k <= self.pointers.len(),
                pointers.len() == k,
                forall|j: int|
                    0 <= j < k ==> pointers[j].symbol@ == self.pointers[j].symbol@
                        && pointers[j].denom@ == self.pointers[j].denom@,
            decreases self.pointers.len() - k,
        {
            let p = &self.pointers[k];
            pointers.push(Pointer { symbol: p.symbol.clone(), denom: p.denom.clone() });
            k = k + 1;
        }
        let ghost next = Catalog { entries, pointers };
        assert(next.rows() =~= self.rows());
        assert(next.links() =~= self.links());
        Catalog { entries, pointers }
    }
}

} // verus!
