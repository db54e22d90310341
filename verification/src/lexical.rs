//! The order of the engine's keys: byte strings, compared byte by byte,
//! a string before each of its extensions.

use vstd::prelude::*;

verus! {

/// `a` and `b` agree on their first `i` bytes, and there `a` ends while `b`
/// goes on, or `a` has the smaller byte.
pub open spec fn parts_at(a: Seq<u8>, b: Seq<u8>, i: int) -> bool {
    &&& 0 <= i <= a.len()
    &&& i < b.len()
    &&& forall|j: int| 0 <= j < i ==> a[j] == b[j]
    &&& (i == a.len() || a[i] < b[i])
}

/// `a` comes before `b` in the order of the keys.
pub open spec fn key_lt(a: Seq<u8>, b: Seq<u8>) -> bool {
    exists|i: int| parts_at(a, b, i)
}

/// No key comes before itself.
pub proof fn lemma_key_lt_irreflexive(a: Seq<u8>)
    ensures
        !key_lt(a, a),
{
}

/// The order of the keys is transitive.
pub proof fn lemma_key_lt_transitive(a: Seq<u8>, b: Seq<u8>, c: Seq<u8>)
    requires
        key_lt(a, b),
        key_lt(b, c),
    ensures
        key_lt(a, c),
{
    let i = choose|i: int| parts_at(a, b, i);
    let j = choose|j: int| parts_at(b, c, j);
    if i <= j {
        assert(parts_at(a, c, i));
    } else {
        assert(parts_at(a, c, j));
    }
}

/// The keys rise from each to the next.
pub open spec fn ascending(keys: Seq<Seq<u8>>) -> bool {
    forall|i: int, j: int| 0 <= i < j < keys.len() ==> key_lt(#[trigger] keys[i], #[trigger] keys[j])
}

/// `keys` lists, in the order of the keys and each once, the keys of
/// `entries` that start with `prefix`.
pub open spec fn is_listing(keys: Seq<Seq<u8>>, entries: Map<Seq<u8>, Seq<u8>>, prefix: Seq<u8>) -> bool {
    &&& ascending(keys)
    &&& forall|i: int|
        0 <= i < keys.len() ==> entries.contains_key(#[trigger] keys[i]) && prefix.is_prefix_of(
            keys[i],
        )
    &&& forall|k: Seq<u8>|
        entries.contains_key(k) && prefix.is_prefix_of(k) ==> #[trigger] keys.contains(k)
}

/// The keys of `entries` that start with `prefix`, in the order of the
/// keys. It is the one listing, where there is any.
pub open spec fn listing(entries: Map<Seq<u8>, Seq<u8>>, prefix: Seq<u8>) -> Seq<Seq<u8>> {
    choose|keys: Seq<Seq<u8>>| is_listing(keys, entries, prefix)
}

/// Two rising sequences with the same members are the same sequence.
pub proof fn lemma_ascending_unique(a: Seq<Seq<u8>>, b: Seq<Seq<u8>>)
    requires
        ascending(a),
        ascending(b),
        forall|k: Seq<u8>| a.contains(k) <==> b.contains(k),
    ensures
        a == b,
    decreases a.len(),
{
    if a.len() == 0 {
        if b.len() > 0 {
            assert(b.contains(b[0]));
        }
        assert(a =~= b);
    } else if b.len() == 0 {
        assert(a.contains(a[0]));
    } else {
        // The first of each is the least of all, so the two are one.
        assert(a.contains(a[0]));
        assert(b.contains(b[0]));
        let m = choose|m: int| 0 <= m < a.len() && a[m] == b[0];
        let n = choose|n: int| 0 <= n < b.len() && b[n] == a[0];
        lemma_key_lt_irreflexive(a[0]);
        if m > 0 && n > 0 {
            lemma_key_lt_transitive(a[0], a[m], b[n]);
        }
        assert(a[0] == b[0]);
        // What follows the first has the same members on both sides.
        let x = a.drop_first();
        let y = b.drop_first();
        assert forall|k: Seq<u8>| x.contains(k) <==> y.contains(k) by {
            if x.contains(k) {
                let i = choose|i: int| 0 <= i < x.len() && x[i] == k;
                assert(a[i + 1] == k && key_lt(a[0], a[i + 1]));
                assert(a.contains(k));
                let j = choose|j: int| 0 <= j < b.len() && b[j] == k;
                assert(y[j - 1] == k);
            }
            if y.contains(k) {
                let i = choose|i: int| 0 <= i < y.len() && y[i] == k;
                assert(b[i + 1] == k && key_lt(b[0], b[i + 1]));
                assert(b.contains(k));
                let j = choose|j: int| 0 <= j < a.len() && a[j] == k;
                assert(x[j - 1] == k);
            }
        }
        assert(ascending(x)) by {
            assert forall|i: int, j: int| 0 <= i < j < x.len() implies key_lt(
                #[trigger] x[i],
                #[trigger] x[j],
            ) by {
                assert(key_lt(a[i + 1], a[j + 1]));
            }
        }
        assert(ascending(y)) by {
            assert forall|i: int, j: int| 0 <= i < j < y.len() implies key_lt(
                #[trigger] y[i],
                #[trigger] y[j],
            ) by {
                assert(key_lt(b[i + 1], b[j + 1]));
            }
        }
        lemma_ascending_unique(x, y);
        assert(a =~= seq![a[0]] + x);
        assert(b =~= seq![b[0]] + y);
    }
}

/// What lists the keys of `entries` under `prefix` is the listing.
pub proof fn law_listing_unique(keys: Seq<Seq<u8>>, entries: Map<Seq<u8>, Seq<u8>>, prefix: Seq<u8>)
    requires
        is_listing(keys, entries, prefix),
    ensures
        keys == listing(entries, prefix),
{
    let other = listing(entries, prefix);
    assert forall|k: Seq<u8>| keys.contains(k) <==> other.contains(k) by {
        if keys.contains(k) {
            let i = choose|i: int| 0 <= i < keys.len() && keys[i] == k;
            assert(entries.contains_key(keys[i]));
        }
        if other.contains(k) {
            let i = choose|i: int| 0 <= i < other.len() && other[i] == k;
            assert(entries.contains_key(other[i]));
        }
    }
    lemma_ascending_unique(keys, other);
}

/// Where no key of `entries` starts with `prefix`, the listing is empty.
pub proof fn lemma_listing_empty(entries: Map<Seq<u8>, Seq<u8>>, prefix: Seq<u8>)
    requires
        forall|k: Seq<u8>| entries.contains_key(k) ==> !prefix.is_prefix_of(k),
    ensures
        listing(entries, prefix) == Seq::<Seq<u8>>::empty(),
{
    law_listing_unique(Seq::empty(), entries, prefix);
}

/// Of two different keys, one comes before the other.
pub proof fn lemma_key_lt_total(a: Seq<u8>, b: Seq<u8>)
    ensures
        a == b || key_lt(a, b) || key_lt(b, a),
    decreases a.len(),
{
    if a.len() == 0 || b.len() == 0 {
        if a.len() < b.len() {
            assert(parts_at(a, b, 0));
        } else if b.len() < a.len() {
            assert(parts_at(b, a, 0));
        } else {
            assert(a =~= b);
        }
    } else if a[0] < b[0] {
        assert(parts_at(a, b, 0));
    } else if b[0] < a[0] {
        assert(parts_at(b, a, 0));
    } else {
        let x = a.drop_first();
        let y = b.drop_first();
        lemma_key_lt_total(x, y);
        if x == y {
            assert(a =~= seq![a[0]] + x);
            assert(b =~= seq![b[0]] + y);
        } else if key_lt(x, y) {
            lemma_key_lt_behind_first(a, b);
        } else {
            lemma_key_lt_behind_first(b, a);
        }
    }
}

/// Two keys that start with the same byte stand as what follows that
/// byte stands.
proof fn lemma_key_lt_behind_first(a: Seq<u8>, b: Seq<u8>)
    requires
        a.len() > 0,
        b.len() > 0,
        a[0] == b[0],
        key_lt(a.drop_first(), b.drop_first()),
    ensures
        key_lt(a, b),
{
    let x = a.drop_first();
    let y = b.drop_first();
    let i = choose|i: int| parts_at(x, y, i);
    assert forall|j: int| 0 <= j < i + 1 implies a[j] == b[j] by {
        if j > 0 {
            assert(x[j - 1] == y[j - 1]);
        }
    }
    if i < x.len() {
        assert(x[i] < y[i]);
    }
    assert(parts_at(a, b, i + 1));
}

/// In a rising sequence, the keys that come before `k` are the first so
/// many.
pub proof fn lemma_split_point(keys: Seq<Seq<u8>>, k: Seq<u8>) -> (j: int)
    requires
        ascending(keys),
    ensures
        0 <= j <= keys.len(),
        forall|i: int| 0 <= i < j ==> key_lt(#[trigger] keys[i], k),
        forall|i: int| j <= i < keys.len() ==> !key_lt(#[trigger] keys[i], k),
    decreases keys.len(),
{
    if keys.len() == 0 {
        0
    } else {
        let n = keys.len() - 1;
        let front = keys.drop_last();
        assert(ascending(front)) by {
            assert forall|a: int, b: int| 0 <= a < b < front.len() implies key_lt(
                #[trigger] front[a],
                #[trigger] front[b],
            ) by {
                assert(key_lt(keys[a], keys[b]));
            }
        }
        let j = lemma_split_point(front, k);
        assert forall|i: int| 0 <= i < j implies key_lt(#[trigger] keys[i], k) by {
            assert(front[i] == keys[i]);
        }
        if j < n {
            // The key at `j` does not come before `k`, so the last does not either.
            assert(!key_lt(front[j], k));
            if key_lt(keys[n], k) {
                lemma_key_lt_transitive(keys[j], keys[n], k);
            }
            assert forall|i: int| j <= i < keys.len() implies !key_lt(#[trigger] keys[i], k) by {
                if i < n {
                    assert(front[i] == keys[i]);
                }
            }
            j
        } else if key_lt(keys[n], k) {
            n + 1
        } else {
            n
        }
    }
}

/// A new key under the prefix takes its place in the listing, which
/// grows by one.
pub proof fn lemma_listing_with_key(
    keys: Seq<Seq<u8>>,
    entries: Map<Seq<u8>, Seq<u8>>,
    prefix: Seq<u8>,
    k: Seq<u8>,
    v: Seq<u8>,
)
    requires
        is_listing(keys, entries, prefix),
        !entries.contains_key(k),
        prefix.is_prefix_of(k),
    ensures
        listing(entries.insert(k, v), prefix).len() == keys.len() + 1,
        is_listing(listing(entries.insert(k, v), prefix), entries.insert(k, v), prefix),
{
    let j = lemma_split_point(keys, k);
    let more = keys.insert(j, k);
    let grown = entries.insert(k, v);
    assert(ascending(more)) by {
        assert forall|a: int, b: int| 0 <= a < b < more.len() implies key_lt(
            #[trigger] more[a],
            #[trigger] more[b],
        ) by {
            if a == j {
                // `k` is not in the map, so it differs from the key behind it.
                lemma_key_lt_total(k, keys[b - 1]);
            }
        }
    }
    assert forall|x: Seq<u8>| grown.contains_key(x) && prefix.is_prefix_of(x) implies #[trigger] more.contains(x) by {
        if x == k {
            assert(more[j] == x);
        } else {
            assert(keys.contains(x));
            let i = choose|i: int| 0 <= i < keys.len() && keys[i] == x;
            if i < j {
                assert(more[i] == x);
            } else {
                assert(more[i + 1] == x);
            }
        }
    }
    law_listing_unique(more, grown, prefix);
}

/// A key that goes leaves the listing, which shrinks by one.
pub proof fn lemma_listing_without_key(
    keys: Seq<Seq<u8>>,
    entries: Map<Seq<u8>, Seq<u8>>,
    prefix: Seq<u8>,
    k: Seq<u8>,
)
    requires
        is_listing(keys, entries, prefix),
        entries.contains_key(k),
        prefix.is_prefix_of(k),
    ensures
        listing(entries.remove(k), prefix).len() == keys.len() - 1,
        is_listing(listing(entries.remove(k), prefix), entries.remove(k), prefix),
{
    assert(keys.contains(k));
    let j = choose|j: int| 0 <= j < keys.len() && keys[j] == k;
    let fewer = keys.remove(j);
    let shrunk = entries.remove(k);
    lemma_key_lt_irreflexive(k);
    assert forall|x: Seq<u8>| shrunk.contains_key(x) && prefix.is_prefix_of(x) implies #[trigger] fewer.contains(x) by {
        assert(keys.contains(x));
        let i = choose|i: int| 0 <= i < keys.len() && keys[i] == x;
        if i < j {
            assert(fewer[i] == x);
        } else {
            assert(fewer[i - 1] == x);
        }
    }
    law_listing_unique(fewer, shrunk, prefix);
}

} // verus!
