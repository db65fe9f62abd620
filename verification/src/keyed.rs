//! Sequences of key-value pairs with text keys, read as finite maps.

use crate::text::{key_lt, lemma_key_order};
use vstd::prelude::*;

verus! {

/// Some pair of `s` has the key `k`.
pub open spec fn has_key<V>(s: Seq<(Seq<char>, V)>, k: Seq<char>) -> bool {
    exists|i: int| 0 <= i < s.len() && (#[trigger] s[i]).0 == k
}

/// A position of `s` that holds the key `k`, where there is one.
pub open spec fn key_index<V>(s: Seq<(Seq<char>, V)>, k: Seq<char>) -> int {
    choose|i: int| 0 <= i < s.len() && (#[trigger] s[i]).0 == k
}

/// The map that sends each key of `s` to the value paired with it.
pub open spec fn pairs_map<V>(s: Seq<(Seq<char>, V)>) -> Map<Seq<char>, V> {
    Map::new(|k: Seq<char>| has_key(s, k), |k: Seq<char>| s[key_index(s, k)].1)
}

/// No key occurs twice in `s`.
pub open spec fn distinct_keys<V>(s: Seq<(Seq<char>, V)>) -> bool {
    forall|i: int, j: int| 0 <= i < j < s.len() ==> (#[trigger] s[i]).0 != (#[trigger] s[j]).0
}

/// The keys of `s` are in strictly ascending key order.
pub open spec fn ascending<V>(s: Seq<(Seq<char>, V)>) -> bool {
    forall|i: int, j: int|
        0 <= i < j < s.len() ==> key_lt((#[trigger] s[i]).0, (#[trigger] s[j]).0)
}

pub proof fn lemma_ascending_distinct<V>(s: Seq<(Seq<char>, V)>)
    requires
        ascending(s),
    ensures
        distinct_keys(s),
{
    assert forall|i: int, j: int| 0 <= i < j < s.len() implies (#[trigger] s[i]).0 != (
    #[trigger] s[j]).0 by {
        lemma_key_order(s[i].0, s[j].0, s[j].0);
    }
}

/// With distinct keys, the map holds each pair of the sequence.
pub proof fn lemma_lookup<V>(s: Seq<(Seq<char>, V)>, i: int)
    requires
        distinct_keys(s),
        0 <= i < s.len(),
    ensures
        pairs_map(s).contains_key(s[i].0),
        pairs_map(s)[s[i].0] == s[i].1,
        key_index(s, s[i].0) == i,
{
    let k = s[i].0;
    assert(has_key(s, k));
    let j = key_index(s, k);
    assert(0 <= j < s.len() && s[j].0 == k);
    if j < i {
        assert(s[j].0 != s[i].0);
    } else if i < j {
        assert(s[i].0 != s[j].0);
    }
}

/// Every key of the map sits at some position of the sequence.
pub proof fn lemma_witness<V>(s: Seq<(Seq<char>, V)>, k: Seq<char>) -> (i: int)
    requires
        pairs_map(s).contains_key(k),
    ensures
        0 <= i < s.len(),
        s[i].0 == k,
        i == key_index(s, k),
{
    assert(has_key(s, k));
    key_index(s, k)
}

pub proof fn lemma_empty<V>(s: Seq<(Seq<char>, V)>)
    requires
        s.len() == 0,
    ensures
        pairs_map(s) == Map::<Seq<char>, V>::empty(),
        distinct_keys(s),
        ascending(s),
{
    assert(pairs_map(s) =~= Map::<Seq<char>, V>::empty());
}

/// Putting a pair with a fresh key anywhere into the sequence inserts it
/// into the map.
pub proof fn lemma_insert<V>(s: Seq<(Seq<char>, V)>, p: int, k: Seq<char>, v: V)
    requires
        distinct_keys(s),
        !has_key(s, k),
        0 <= p <= s.len(),
    ensures
        distinct_keys(s.insert(p, (k, v))),
        pairs_map(s.insert(p, (k, v))) == pairs_map(s).insert(k, v),
{
    let t = s.insert(p, (k, v));
    assert(t.len() == s.len() + 1);
    assert(forall|i: int| 0 <= i < p ==> t[i] == s[i]);
    assert(t[p] == (k, v));
    assert(forall|i: int| p < i < t.len() ==> t[i] == s[i - 1]);
    assert forall|i: int, j: int| 0 <= i < j < t.len() implies (#[trigger] t[i]).0 != (
    #[trigger] t[j]).0 by {
        let a = if i < p {
            i
        } else {
            i - 1
        };
        let b = if j < p {
            j
        } else {
            j - 1
        };
        if i == p {
            assert(t[j] == s[b]);
        } else if j == p {
            assert(t[i] == s[a]);
        } else {
            assert(t[i] == s[a]);
            assert(t[j] == s[b]);
            assert(a < b);
        }
    }
    let m = pairs_map(s).insert(k, v);
    assert forall|x: Seq<char>| pairs_map(t).contains_key(x) <==> m.contains_key(x) by {
        if pairs_map(t).contains_key(x) {
            let i = lemma_witness(t, x);
            if i < p {
                assert(s[i].0 == x);
            } else if i > p {
                assert(s[i - 1].0 == x);
            }
        }
        if m.contains_key(x) {
            if x == k {
                assert(t[p].0 == x);
            } else {
                let i = lemma_witness(s, x);
                if i < p {
                    assert(t[i].0 == x);
                } else {
                    assert(t[i + 1].0 == x);
                }
            }
        }
    }
    assert forall|x: Seq<char>| pairs_map(t).contains_key(x) implies pairs_map(t)[x] == m[x] by {
        let i = lemma_witness(t, x);
        lemma_lookup(t, i);
        if i < p {
            lemma_lookup(s, i);
        } else if i > p {
            lemma_lookup(s, i - 1);
        }
    }
    assert(pairs_map(t) =~= m);
}

/// Taking a pair out of the sequence removes its key from the map.
pub proof fn lemma_remove<V>(s: Seq<(Seq<char>, V)>, p: int)
    requires
        distinct_keys(s),
        0 <= p < s.len(),
    ensures
        distinct_keys(s.remove(p)),
        pairs_map(s.remove(p)) == pairs_map(s).remove(s[p].0),
        !has_key(s.remove(p), s[p].0),
{
    let t = s.remove(p);
    let k = s[p].0;
    assert(t.len() == s.len() - 1);
    assert(forall|i: int| 0 <= i < p ==> t[i] == s[i]);
    assert(forall|i: int| p <= i < t.len() ==> t[i] == s[i + 1]);
    assert forall|i: int, j: int| 0 <= i < j < t.len() implies (#[trigger] t[i]).0 != (
    #[trigger] t[j]).0 by {
        let a = if i < p {
            i
        } else {
            i + 1
        };
        let b = if j < p {
            j
        } else {
            j + 1
        };
        assert(t[i] == s[a]);
        assert(t[j] == s[b]);
        assert(a < b);
    }
    assert forall|i: int| 0 <= i < t.len() implies (#[trigger] t[i]).0 != k by {
        let a = if i < p {
            i
        } else {
            i + 1
        };
        assert(t[i] == s[a]);
        if a < p {
            assert(s[a].0 != s[p].0);
        } else {
            assert(s[p].0 != s[a].0);
        }
    }
    let m = pairs_map(s).remove(k);
    assert forall|x: Seq<char>| pairs_map(t).contains_key(x) <==> m.contains_key(x) by {
        if pairs_map(t).contains_key(x) {
            let i = lemma_witness(t, x);
            if i < p {
                assert(s[i].0 == x);
            } else {
                assert(s[i + 1].0 == x);
            }
        }
        if m.contains_key(x) {
            let i = lemma_witness(s, x);
            if i < p {
                assert(t[i].0 == x);
            } else {
                assert(i > p);
                assert(t[i - 1].0 == x);
            }
        }
    }
    assert forall|x: Seq<char>| pairs_map(t).contains_key(x) implies pairs_map(t)[x] == m[x] by {
        let i = lemma_witness(t, x);
        lemma_lookup(t, i);
        if i < p {
            lemma_lookup(s, i);
        } else {
            lemma_lookup(s, i + 1);
        }
    }
    assert(pairs_map(t) =~= m);
}

/// A pair put between the smaller keys and the larger keys keeps the
/// sequence ascending.
pub proof fn lemma_ascending_insert<V>(s: Seq<(Seq<char>, V)>, p: int, k: Seq<char>, v: V)
    requires
        ascending(s),
        0 <= p <= s.len(),
        forall|j: int| 0 <= j < p ==> key_lt((#[trigger] s[j]).0, k),
        forall|j: int| p <= j < s.len() ==> key_lt(k, (#[trigger] s[j]).0),
    ensures
        ascending(s.insert(p, (k, v))),
{
    let t = s.insert(p, (k, v));
    assert forall|i: int, j: int| 0 <= i < j < t.len() implies key_lt(
        (#[trigger] t[i]).0,
        (#[trigger] t[j]).0,
    ) by {
        let a = if i < p {
            i
        } else {
            i - 1
        };
        let b = if j < p {
            j
        } else {
            j - 1
        };
        if i == p {
            assert(t[j] == s[b]);
        } else if j == p {
            assert(t[i] == s[a]);
        } else {
            assert(t[i] == s[a]);
            assert(t[j] == s[b]);
            assert(a < b);
        }
    }
}

pub proof fn lemma_ascending_remove<V>(s: Seq<(Seq<char>, V)>, p: int)
    requires
        ascending(s),
        0 <= p < s.len(),
    ensures
        ascending(s.remove(p)),
{
    let t = s.remove(p);
    assert forall|i: int, j: int| 0 <= i < j < t.len() implies key_lt(
        (#[trigger] t[i]).0,
        (#[trigger] t[j]).0,
    ) by {
        let a = if i < p {
            i
        } else {
            i + 1
        };
        let b = if j < p {
            j
        } else {
            j + 1
        };
        assert(t[i] == s[a]);
        assert(t[j] == s[b]);
        assert(a < b);
    }
}

/// The test "the key comes after the cursor"; without a cursor every key
/// passes.
pub open spec fn beyond<V>(cursor: Option<Seq<char>>) -> spec_fn((Seq<char>, V)) -> bool {
    |r: (Seq<char>, V)|
        match cursor {
            Some(c) => key_lt(c, r.0),
            None => true,
        }
}

/// The pairs whose keys come after the cursor, in their order, cut off after
/// `limit` of them.
pub open spec fn page<V>(s: Seq<(Seq<char>, V)>, cursor: Option<Seq<char>>, limit: nat) -> Seq<
    (Seq<char>, V),
> {
    let rest = s.filter(beyond::<V>(cursor));
    if limit < rest.len() {
        rest.take(limit as int)
    } else {
        rest
    }
}

/// Where the keys up to a position fail the cursor's test and the keys from
/// it on pass, the pairs after the cursor are the sequence from that
/// position on.
pub proof fn lemma_beyond_suffix<V>(s: Seq<(Seq<char>, V)>, cursor: Option<Seq<char>>, k: int)
    requires
        0 <= k <= s.len(),
        forall|j: int| 0 <= j < k ==> !beyond::<V>(cursor)(#[trigger] s[j]),
        forall|j: int| k <= j < s.len() ==> beyond::<V>(cursor)(#[trigger] s[j]),
    ensures
        s.filter(beyond::<V>(cursor)) == s.skip(k),
    decreases s.len(),
{
    reveal(Seq::filter);
    if s.len() == 0 {
        assert(s.skip(k) =~= s);
    } else {
        let d = s.drop_last();
        let k2 = if k == s.len() {
            k - 1
        } else {
            k
        };
        assert forall|j: int| 0 <= j < k2 implies !beyond::<V>(cursor)(#[trigger] d[j]) by {
            assert(d[j] == s[j]);
        }
        assert forall|j: int| k2 <= j < d.len() implies beyond::<V>(cursor)(#[trigger] d[j]) by {
            assert(d[j] == s[j]);
        }
        lemma_beyond_suffix(d, cursor, k2);
        if k == s.len() {
            assert(!beyond::<V>(cursor)(s[s.len() - 1]));
            assert(d.skip(k2) =~= s.skip(k));
        } else {
            assert(beyond::<V>(cursor)(s[s.len() - 1]));
            assert(d.skip(k).push(s.last()) =~= s.skip(k));
        }
    }
}

/// What `calls` successive pages hold together, where the first page is
/// asked for with `cursor` and each later one with the last key of the page
/// before it. The reading stops at an empty page.
pub open spec fn pages<V>(
    s: Seq<(Seq<char>, V)>,
    cursor: Option<Seq<char>>,
    limit: nat,
    calls: nat,
) -> Seq<(Seq<char>, V)>
    decreases calls,
{
    if calls == 0 {
        Seq::empty()
    } else {
        let first = page(s, cursor, limit);
        if first.len() == 0 {
            first
        } else {
            first + pages(s, Some(first.last().0), limit, (calls - 1) as nat)
        }
    }
}

proof fn lemma_pages_from<V>(
    s: Seq<(Seq<char>, V)>,
    cursor: Option<Seq<char>>,
    limit: nat,
    calls: nat,
    k: int,
)
    requires
        ascending(s),
        limit >= 1,
        0 <= k <= s.len(),
        calls >= s.len() - k,
        forall|j: int| 0 <= j < k ==> !beyond::<V>(cursor)(#[trigger] s[j]),
        forall|j: int| k <= j < s.len() ==> beyond::<V>(cursor)(#[trigger] s[j]),
    ensures
        pages(s, cursor, limit, calls) == s.skip(k),
    decreases calls,
{
    lemma_beyond_suffix(s, cursor, k);
    let rest = s.skip(k);
    let first = page(s, cursor, limit);
    if calls == 0 {
        assert(rest =~= Seq::empty());
    } else if first.len() == 0 {
        assert(rest =~= first);
    } else {
        let m = first.len() as int;
        let c = first.last().0;
        assert(first.last() == s[k + m - 1]);
        assert forall|j: int| 0 <= j < k + m implies !beyond::<V>(Some(c))(#[trigger] s[j]) by {
            lemma_key_order(c, s[j].0, c);
        }
        assert forall|j: int| k + m <= j < s.len() implies beyond::<V>(Some(c))(
            #[trigger] s[j],
        ) by {
            assert(key_lt(s[k + m - 1].0, s[j].0));
        }
        lemma_pages_from(s, Some(c), limit, (calls - 1) as nat, k + m);
        assert(first + s.skip(k + m) =~= rest);
    }
}

/// Reading an ascending sequence page by page, each page asked for with the
/// last key of the page before it as the cursor, gives every pair exactly
/// once and in order, whatever the positive page size: as many pages as
/// there are pairs always suffice.
pub proof fn lemma_pages_complete<V>(s: Seq<(Seq<char>, V)>, limit: nat, calls: nat)
    requires
        ascending(s),
        limit >= 1,
        calls >= s.len(),
    ensures
        pages(s, None, limit, calls) == s,
{
    lemma_pages_from(s, None, limit, calls, 0);
    assert(s.skip(0) =~= s);
}

} // verus!
