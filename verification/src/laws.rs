//! What holds of the operations of the store, taken together.
//!
//! Each law speaks of the results and states that the relations of the
//! operations admit. A result `StorageUnavailable` says that the engine
//! failed; the laws speak of the calls on which it did not.

use crate::codec::{
    dataset_bytes,
    item_bytes,
    item_fits,
    law_dataset_round_trip,
    law_item_round_trip,
    parse_dataset,
    parse_item,
};
use crate::error::StoreError;
use crate::ident::{is_uuid_text, lemma_uuid_text_key_len};
use crate::keys::{item_key, item_prefix, law_prefixes_apart, lemma_text_key_injective, text_key};
use crate::lexical::{
    is_listing,
    key_lt,
    law_listing_unique,
    listing,
    lemma_key_lt_irreflexive,
    lemma_listing_empty,
    lemma_listing_with_key,
    lemma_listing_without_key,
};
use crate::model::{
    add_dataset_step,
    add_item_step,
    batch_add_step,
    batch_delete_step,
    delete_dataset_step,
    delete_item_step,
    delete_items_outcome,
    get_dataset_step,
    list_items_step,
    new_dataset,
    new_item,
    with_items,
    StoreState,
};
use crate::record::{DatasetView, ItemView, Timestamp};
use vstd::prelude::*;

verus! {

/// A name that no dataset has is accepted: `add_dataset` with it
/// succeeds, and the name and the id are known from then on.
pub proof fn law_new_name_is_accepted(
    s0: StoreState,
    s1: StoreState,
    id: Seq<char>,
    name: Seq<char>,
    file_path: Option<Seq<char>>,
    now: Timestamp,
    r: Result<Seq<char>, StoreError>,
)
    requires
        add_dataset_step(s0, id, name, file_path, now, r, s1),
        !s0.has_name(name),
        r != Err::<Seq<char>, StoreError>(StoreError::StorageUnavailable),
    ensures
        r == Ok::<Seq<char>, StoreError>(id),
        s1.has_name(name),
        s1.has_dataset(id),
{
}

/// A name is given once: after `add_dataset` has succeeded with a name, a
/// second `add_dataset` with that name is refused with `DuplicateName`,
/// and the store, with the number of its datasets, is as it was.
pub proof fn law_name_is_given_once(
    s0: StoreState,
    s1: StoreState,
    s2: StoreState,
    name: Seq<char>,
    id1: Seq<char>,
    file_path1: Option<Seq<char>>,
    now1: Timestamp,
    r1: Result<Seq<char>, StoreError>,
    id2: Seq<char>,
    file_path2: Option<Seq<char>>,
    now2: Timestamp,
    r2: Result<Seq<char>, StoreError>,
)
    requires
        add_dataset_step(s0, id1, name, file_path1, now1, r1, s1),
        r1 is Ok,
        add_dataset_step(s1, id2, name, file_path2, now2, r2, s2),
        r2 != Err::<Seq<char>, StoreError>(StoreError::StorageUnavailable),
    ensures
        r2 == Err::<Seq<char>, StoreError>(StoreError::DuplicateName),
        s2 == s1,
        s2.dataset_count() == s1.dataset_count(),
{
}

/// What `add_dataset` has added, `get_dataset_by_id` finds under the id
/// that was returned: the dataset with that id, the given name and file
/// path, and the time of the call as both its times.
pub proof fn law_added_dataset_is_found(
    s0: StoreState,
    s1: StoreState,
    id: Seq<char>,
    name: Seq<char>,
    file_path: Option<Seq<char>>,
    now: Timestamp,
    got: Seq<char>,
    r: Result<Option<DatasetView>, StoreError>,
)
    requires
        add_dataset_step(s0, id, name, file_path, now, Ok(got), s1),
        get_dataset_step(s1, got, r),
        r != Err::<Option<DatasetView>, StoreError>(StoreError::StorageUnavailable),
    ensures
        r == Ok::<Option<DatasetView>, StoreError>(Some(new_dataset(got, name, file_path, now))),
{
    let d = new_dataset(id, name, file_path, now);
    law_dataset_round_trip(d, Seq::empty());
    assert(dataset_bytes(d) + Seq::<u8>::empty() =~= dataset_bytes(d));
}

/// After `delete_dataset` has succeeded, `get_dataset_by_id` finds nothing
/// under the id, and `get_items_by_dataset_id` finds no item of it,
/// whatever items there were.
pub proof fn law_deleted_dataset_is_gone(
    s0: StoreState,
    s1: StoreState,
    id: Seq<char>,
    found: Result<Option<DatasetView>, StoreError>,
    listed: Result<Seq<ItemView>, StoreError>,
)
    requires
        delete_dataset_step(s0, id, Ok(()), s1),
        get_dataset_step(s1, id, found),
        list_items_step(s1, id, listed),
        found != Err::<Option<DatasetView>, StoreError>(StoreError::StorageUnavailable),
        listed != Err::<Seq<ItemView>, StoreError>(StoreError::StorageUnavailable),
    ensures
        found == Ok::<Option<DatasetView>, StoreError>(None),
        listed == Ok::<Seq<ItemView>, StoreError>(Seq::empty()),
{
    lemma_listing_empty(s1.items, item_prefix(id));
    match listed {
        Ok(items) => {
            assert(items =~= Seq::<ItemView>::empty());
        },
        Err(_) => {},
    }
}

/// An item needs its dataset: `add_dataset_item` for a dataset that is
/// not there fails with `NotFound` and leaves the store as it was, so that
/// `get_items_by_dataset_id` finds for every dataset what it found before.
pub proof fn law_item_needs_dataset(
    s0: StoreState,
    s1: StoreState,
    item: ItemView,
    r: Result<Seq<char>, StoreError>,
)
    requires
        add_item_step(s0, item, r, s1),
        !s0.has_dataset(item.dataset_id),
        r != Err::<Seq<char>, StoreError>(StoreError::StorageUnavailable),
    ensures
        r == Err::<Seq<char>, StoreError>(StoreError::NotFound),
        s1 == s0,
        forall|dataset_id: Seq<char>, listed: Result<Seq<ItemView>, StoreError>|
            list_items_step(s1, dataset_id, listed) == list_items_step(s0, dataset_id, listed),
{
}

/// The first item of a dataset: after `add_dataset_item` has succeeded on
/// a dataset without items, `get_items_by_dataset_id` finds exactly that
/// item.
pub proof fn law_first_item_is_listed(
    s0: StoreState,
    s1: StoreState,
    item: ItemView,
    got: Seq<char>,
    listed: Result<Seq<ItemView>, StoreError>,
)
    requires
        add_item_step(s0, item, Ok(got), s1),
        forall|k: Seq<u8>| s0.items.contains_key(k) ==> !item_prefix(item.dataset_id).is_prefix_of(k),
        list_items_step(s1, item.dataset_id, listed),
        listed != Err::<Seq<ItemView>, StoreError>(StoreError::StorageUnavailable),
    ensures
        listed == Ok::<Seq<ItemView>, StoreError>(seq![item]),
{
    let key = item_key(item.dataset_id, item.id);
    let prefix = item_prefix(item.dataset_id);
    let only = seq![key];
    assert(is_listing(only, s1.items, prefix)) by {
        assert(only[0] == key);
        assert forall|k: Seq<u8>| s1.items.contains_key(k) && prefix.is_prefix_of(k) implies only.contains(k) by {
            assert(k == only[0]);
        }
    }
    law_listing_unique(only, s1.items, prefix);
    law_item_round_trip(item, Seq::empty());
    assert(item_bytes(item) + Seq::<u8>::empty() =~= item_bytes(item));
    assert(s1.item_keys(item.dataset_id)[0] == key);
    match listed {
        Ok(items) => {
            assert(items[0] == item);
            assert(items =~= seq![item]);
        },
        Err(_) => {},
    }
}

/// What was written is what is listed: where the written bytes of an item
/// lie under its key, every listing of its dataset that succeeds holds
/// the item, all four fields as they were, at the one place of its key.
pub proof fn law_written_item_is_listed(s: StoreState, item: ItemView, found: Seq<ItemView>)
    requires
        item_fits(item),
        s.has_item(item.dataset_id, item.id),
        s.items[item_key(item.dataset_id, item.id)] == item_bytes(item),
        list_items_step(s, item.dataset_id, Ok(found)),
    ensures
        exists|i: int|
            {
                &&& 0 <= i < found.len()
                &&& #[trigger] found[i] == item
                &&& s.item_keys(item.dataset_id)[i] == item_key(item.dataset_id, item.id)
                &&& forall|j: int|
                    0 <= j < found.len() && #[trigger] s.item_keys(item.dataset_id)[j] == item_key(
                        item.dataset_id,
                        item.id,
                    ) ==> j == i
            },
{
    let key = item_key(item.dataset_id, item.id);
    let keys = s.item_keys(item.dataset_id);
    assert(item_prefix(item.dataset_id).is_prefix_of(key));
    assert(keys.contains(key));
    let i = choose|i: int| 0 <= i < keys.len() && keys[i] == key;
    law_item_round_trip(item, Seq::empty());
    assert(item_bytes(item) + Seq::<u8>::empty() =~= item_bytes(item));
    assert(found[i] == item);
    assert forall|j: int| 0 <= j < found.len() && #[trigger] keys[j] == key implies j == i by {
        lemma_key_lt_irreflexive(key);
        if j < i {
            assert(key_lt(keys[j], keys[i]));
        } else if i < j {
            assert(key_lt(keys[i], keys[j]));
        }
    }
}

/// The empty store is in order.
pub proof fn law_empty_store_is_in_order()
    ensures
        (StoreState { datasets: Map::empty(), items: Map::empty(), names: Map::empty() }).consistent(),
{
}

/// Adding a dataset under an id that no dataset has keeps the store in
/// order.
pub proof fn law_add_dataset_keeps_order(
    s0: StoreState,
    s1: StoreState,
    id: Seq<char>,
    name: Seq<char>,
    file_path: Option<Seq<char>>,
    now: Timestamp,
    got: Seq<char>,
)
    requires
        s0.consistent(),
        !s0.has_dataset(id),
        add_dataset_step(s0, id, name, file_path, now, Ok(got), s1),
    ensures
        s1.consistent(),
{
    let d = new_dataset(id, name, file_path, now);
    law_dataset_round_trip(d, Seq::empty());
    assert(dataset_bytes(d) + Seq::<u8>::empty() =~= dataset_bytes(d));
    assert forall|n: Seq<u8>| #[trigger] s1.names.contains_key(n) implies s1.datasets.contains_key(
        s1.names[n],
    ) && (parse_dataset(s1.datasets[s1.names[n]]) matches Some(e) && text_key(e.name) == n
        && text_key(e.id) == s1.names[n]) by {
        if n != text_key(name) {
            assert(s0.names.contains_key(n));
        }
    }
    assert forall|k: Seq<u8>| #[trigger] s1.datasets.contains_key(k) implies (parse_dataset(
        s1.datasets[k],
    ) matches Some(e) && text_key(e.id) == k && s1.names.contains_key(text_key(e.name))
        && s1.names[text_key(e.name)] == k) by {
        if k != text_key(id) {
            assert(s0.datasets.contains_key(k));
        }
    }
    assert forall|k: Seq<u8>| #[trigger] s1.items.contains_key(k) implies (parse_item(
        s1.items[k],
    ) matches Some(item) && k == item_key(item.dataset_id, item.id) && s1.has_dataset(
        item.dataset_id,
    )) by {
        assert(s0.items.contains_key(k));
    }
}

/// Deleting a dataset keeps the store in order: its name goes with it, and
/// so does every item that belonged to it.
pub proof fn law_delete_dataset_keeps_order(s0: StoreState, s1: StoreState, id: Seq<char>)
    requires
        s0.consistent(),
        delete_dataset_step(s0, id, Ok(()), s1),
    ensures
        s1.consistent(),
{
    let key = text_key(id);
    let d = parse_dataset(s0.datasets[key])->Some_0;
    assert(s0.datasets.contains_key(key));
    assert forall|n: Seq<u8>| #[trigger] s1.names.contains_key(n) implies s1.datasets.contains_key(
        s1.names[n],
    ) && (parse_dataset(s1.datasets[s1.names[n]]) matches Some(e) && text_key(e.name) == n
        && text_key(e.id) == s1.names[n]) by {
        assert(s0.names.contains_key(n));
    }
    assert forall|k: Seq<u8>| #[trigger] s1.datasets.contains_key(k) implies (parse_dataset(
        s1.datasets[k],
    ) matches Some(e) && text_key(e.id) == k && s1.names.contains_key(text_key(e.name))
        && s1.names[text_key(e.name)] == k) by {
        assert(s0.datasets.contains_key(k));
    }
    assert forall|k: Seq<u8>| #[trigger] s1.items.contains_key(k) implies (parse_item(
        s1.items[k],
    ) matches Some(item) && k == item_key(item.dataset_id, item.id) && s1.has_dataset(
        item.dataset_id,
    )) by {
        assert(s0.items.contains_key(k));
        let item = parse_item(s0.items[k])->Some_0;
        if text_key(item.dataset_id) == key {
            lemma_text_key_injective(item.dataset_id, id);
            assert(item_prefix(id).is_prefix_of(k));
        }
    }
}

/// Adding an item keeps the store in order.
pub proof fn law_add_item_keeps_order(
    s0: StoreState,
    s1: StoreState,
    item: ItemView,
    got: Seq<char>,
)
    requires
        s0.consistent(),
        add_item_step(s0, item, Ok(got), s1),
    ensures
        s1.consistent(),
{
    law_item_round_trip(item, Seq::empty());
    assert(item_bytes(item) + Seq::<u8>::empty() =~= item_bytes(item));
    assert forall|k: Seq<u8>| #[trigger] s1.items.contains_key(k) implies (parse_item(
        s1.items[k],
    ) matches Some(it) && k == item_key(it.dataset_id, it.id) && s1.has_dataset(it.dataset_id)) by {
        if k != item_key(item.dataset_id, item.id) {
            assert(s0.items.contains_key(k));
        }
    }
}

/// Deleting an item keeps the store in order.
pub proof fn law_delete_item_keeps_order(
    s0: StoreState,
    s1: StoreState,
    dataset_id: Seq<char>,
    item_id: Seq<char>,
)
    requires
        s0.consistent(),
        delete_item_step(s0, dataset_id, item_id, Ok(()), s1),
    ensures
        s1.consistent(),
{
    assert forall|k: Seq<u8>| #[trigger] s1.items.contains_key(k) implies (parse_item(
        s1.items[k],
    ) matches Some(it) && k == item_key(it.dataset_id, it.id) && s1.has_dataset(it.dataset_id)) by {
        assert(s0.items.contains_key(k));
    }
}

/// Adding items to a dataset that is there, one after the other, keeps
/// the store in order, and leaves the datasets and their names alone.
pub proof fn lemma_with_items_keeps_order(
    s: StoreState,
    dataset_id: Seq<char>,
    ids: Seq<Seq<char>>,
    pairs: Seq<(Seq<char>, Seq<char>)>,
)
    requires
        s.consistent(),
        s.has_dataset(dataset_id),
        ids.len() == pairs.len(),
        forall|i: int|
            0 <= i < ids.len() ==> item_fits(
                new_item(#[trigger] ids[i], dataset_id, pairs[i].0, pairs[i].1),
            ),
    ensures
        with_items(s, dataset_id, ids, pairs).consistent(),
        with_items(s, dataset_id, ids, pairs).datasets == s.datasets,
        with_items(s, dataset_id, ids, pairs).names == s.names,
    decreases ids.len(),
{
    if ids.len() > 0 {
        let n = ids.len() - 1;
        let before = with_items(s, dataset_id, ids.drop_last(), pairs.drop_last());
        assert forall|i: int| 0 <= i < n implies item_fits(
            new_item(#[trigger] ids.drop_last()[i], dataset_id, pairs.drop_last()[i].0, pairs.drop_last()[i].1),
        ) by {
            assert(item_fits(new_item(ids[i], dataset_id, pairs[i].0, pairs[i].1)));
        }
        lemma_with_items_keeps_order(s, dataset_id, ids.drop_last(), pairs.drop_last());
        let item = new_item(ids.last(), dataset_id, pairs.last().0, pairs.last().1);
        assert(item_fits(new_item(ids[n], dataset_id, pairs[n].0, pairs[n].1)));
        law_add_item_keeps_order(before, before.with_item(item), item, item.id);
    }
}

/// `batch_add_items`, where it succeeds, keeps the store in order.
pub proof fn law_batch_add_keeps_order(
    s0: StoreState,
    s1: StoreState,
    dataset_id: Seq<char>,
    pairs: Seq<(Seq<char>, Seq<char>)>,
    ids: Seq<Seq<char>>,
)
    requires
        s0.consistent(),
        batch_add_step(s0, dataset_id, pairs, Ok(ids), s1),
    ensures
        s1.consistent(),
{
    lemma_with_items_keeps_order(s0, dataset_id, ids, pairs);
}

/// `batch_delete_items` keeps the store in order, whether it ends with
/// the last item or with the first that is not there.
pub proof fn law_batch_delete_keeps_order(
    s0: StoreState,
    s1: StoreState,
    dataset_id: Seq<char>,
    ids: Seq<Seq<char>>,
    r: Result<(), StoreError>,
)
    requires
        s0.consistent(),
        batch_delete_step(s0, dataset_id, ids, r, s1),
        r != Err::<(), StoreError>(StoreError::StorageUnavailable),
    ensures
        s1.consistent(),
{
    lemma_delete_items_keeps_order(s0, dataset_id, ids);
}

/// Deleting items one after the other keeps the store in order.
pub proof fn lemma_delete_items_keeps_order(
    s: StoreState,
    dataset_id: Seq<char>,
    ids: Seq<Seq<char>>,
)
    requires
        s.consistent(),
    ensures
        delete_items_outcome(s, dataset_id, ids).0.consistent(),
    decreases ids.len(),
{
    if ids.len() > 0 && s.has_item(dataset_id, ids[0]) {
        let next = s.without_item(dataset_id, ids[0]);
        law_delete_item_keeps_order(s, next, dataset_id, ids[0]);
        lemma_delete_items_keeps_order(next, dataset_id, ids.drop_first());
    }
}

/// An item under a new key is one more: after `add_dataset_item` has
/// succeeded with an id that no item of the dataset had,
/// `get_items_by_dataset_id` finds one item more than before.
pub proof fn law_new_item_is_one_more(
    s0: StoreState,
    s1: StoreState,
    item: ItemView,
    got: Seq<char>,
    before: Seq<ItemView>,
    after: Seq<ItemView>,
)
    requires
        add_item_step(s0, item, Ok(got), s1),
        !s0.has_item(item.dataset_id, item.id),
        list_items_step(s0, item.dataset_id, Ok(before)),
        list_items_step(s1, item.dataset_id, Ok(after)),
    ensures
        after.len() == before.len() + 1,
{
    lemma_listing_with_key(
        s0.item_keys(item.dataset_id),
        s0.items,
        item_prefix(item.dataset_id),
        item_key(item.dataset_id, item.id),
        item_bytes(item),
    );
}

/// A deleted item is one less: after `delete_item` has succeeded,
/// `get_items_by_dataset_id` finds one item less than before.
pub proof fn law_deleted_item_is_one_less(
    s0: StoreState,
    s1: StoreState,
    dataset_id: Seq<char>,
    item_id: Seq<char>,
    before: Seq<ItemView>,
    after: Seq<ItemView>,
)
    requires
        delete_item_step(s0, dataset_id, item_id, Ok(()), s1),
        list_items_step(s0, dataset_id, Ok(before)),
        list_items_step(s1, dataset_id, Ok(after)),
    ensures
        after.len() == before.len() - 1,
{
    lemma_listing_without_key(
        s0.item_keys(dataset_id),
        s0.items,
        item_prefix(dataset_id),
        item_key(dataset_id, item_id),
    );
}

/// Datasets under written UUIDs keep their items apart: no key of an
/// item of the one starts with the prefix of the other.
pub proof fn law_uuid_prefixes_apart(a: Seq<char>, b: Seq<char>, item_id: Seq<char>)
    requires
        is_uuid_text(a),
        is_uuid_text(b),
        a != b,
    ensures
        !item_prefix(a).is_prefix_of(item_key(b, item_id)),
{
    lemma_uuid_text_key_len(a);
    lemma_uuid_text_key_len(b);
    law_prefixes_apart(a, b, item_id);
}

/// Where two maps hold the same under a prefix, what lists the one lists
/// the other.
proof fn lemma_same_listing(
    a: Map<Seq<u8>, Seq<u8>>,
    b: Map<Seq<u8>, Seq<u8>>,
    prefix: Seq<u8>,
)
    requires
        forall|k: Seq<u8>|
            prefix.is_prefix_of(k) ==> (a.contains_key(k) <==> b.contains_key(k)),
    ensures
        is_listing(listing(a, prefix), a, prefix) <==> is_listing(listing(b, prefix), b, prefix),
        is_listing(listing(a, prefix), a, prefix) ==> listing(a, prefix) == listing(b, prefix),
{
    let ka = listing(a, prefix);
    let kb = listing(b, prefix);
    if is_listing(ka, a, prefix) {
        assert(is_listing(ka, b, prefix)) by {
            assert forall|i: int| 0 <= i < ka.len() implies b.contains_key(#[trigger] ka[i])
                && prefix.is_prefix_of(ka[i]) by {
                assert(a.contains_key(ka[i]));
            }
        }
        law_listing_unique(ka, b, prefix);
    }
    if is_listing(kb, b, prefix) {
        assert(is_listing(kb, a, prefix)) by {
            assert forall|i: int| 0 <= i < kb.len() implies a.contains_key(#[trigger] kb[i])
                && prefix.is_prefix_of(kb[i]) by {
                assert(b.contains_key(kb[i]));
            }
        }
        law_listing_unique(kb, a, prefix);
    }
}

/// An item added to one dataset is not seen in another: where both
/// datasets lie under written UUIDs, `get_items_by_dataset_id` finds for
/// the other what it found before.
pub proof fn law_add_item_leaves_others(
    s0: StoreState,
    s1: StoreState,
    item: ItemView,
    got: Seq<char>,
    other: Seq<char>,
    listed: Result<Seq<ItemView>, StoreError>,
)
    requires
        add_item_step(s0, item, Ok(got), s1),
        is_uuid_text(item.dataset_id),
        is_uuid_text(other),
        other != item.dataset_id,
    ensures
        list_items_step(s1, other, listed) == list_items_step(s0, other, listed),
{
    let prefix = item_prefix(other);
    law_uuid_prefixes_apart(other, item.dataset_id, item.id);
    lemma_same_listing(s0.items, s1.items, prefix);
    let keys = listing(s0.items, prefix);
    if is_listing(keys, s0.items, prefix) {
        assert forall|i: int| 0 <= i < keys.len() implies s1.items[#[trigger] keys[i]]
            == s0.items[keys[i]] by {
            assert(prefix.is_prefix_of(keys[i]));
        }
    }
}

/// A dataset that is deleted takes none of another's items with it:
/// where both lie under written UUIDs, `get_items_by_dataset_id` finds
/// for the other what it found before.
pub proof fn law_delete_dataset_leaves_others(
    s0: StoreState,
    s1: StoreState,
    id: Seq<char>,
    other: Seq<char>,
    listed: Result<Seq<ItemView>, StoreError>,
)
    requires
        delete_dataset_step(s0, id, Ok(()), s1),
        is_uuid_text(id),
        is_uuid_text(other),
        other != id,
    ensures
        list_items_step(s1, other, listed) == list_items_step(s0, other, listed),
{
    let prefix = item_prefix(other);
    lemma_uuid_text_key_len(id);
    lemma_uuid_text_key_len(other);
    assert forall|k: Seq<u8>| prefix.is_prefix_of(k) implies !item_prefix(id).is_prefix_of(k) by {
        if item_prefix(id).is_prefix_of(k) {
            assert forall|i: int| 0 <= i < 36 implies text_key(id)[i] == text_key(other)[i] by {
                assert(item_prefix(id)[i] == k[i]);
                assert(prefix[i] == k[i]);
            }
            assert(text_key(id) =~= text_key(other));
            lemma_text_key_injective(id, other);
        }
    }
    lemma_same_listing(s0.items, s1.items, prefix);
    let keys = listing(s0.items, prefix);
    if is_listing(keys, s0.items, prefix) {
        assert forall|i: int| 0 <= i < keys.len() implies s1.items[#[trigger] keys[i]]
            == s0.items[keys[i]] by {
            assert(prefix.is_prefix_of(keys[i]));
        }
    }
}

/// Items written to a dataset lie under its prefix: without the keys
/// under the prefix the items are what they were before, and the datasets
/// and the names are untouched.
pub proof fn lemma_with_items_under_prefix(
    s: StoreState,
    dataset_id: Seq<char>,
    ids: Seq<Seq<char>>,
    pairs: Seq<(Seq<char>, Seq<char>)>,
)
    ensures
        with_items(s, dataset_id, ids, pairs).datasets == s.datasets,
        with_items(s, dataset_id, ids, pairs).names == s.names,
        with_items(s, dataset_id, ids, pairs).without_dataset(dataset_id, Seq::empty()).items
            == s.without_dataset(dataset_id, Seq::empty()).items,
    decreases ids.len(),
{
    if ids.len() > 0 {
        let before = with_items(s, dataset_id, ids.drop_last(), pairs.drop_last());
        lemma_with_items_under_prefix(s, dataset_id, ids.drop_last(), pairs.drop_last());
        let item = new_item(ids.last(), dataset_id, pairs.last().0, pairs.last().1);
        assert(item_prefix(dataset_id).is_prefix_of(item_key(dataset_id, item.id)));
        assert(before.with_item(item).without_dataset(dataset_id, Seq::empty()).items
            =~= before.without_dataset(dataset_id, Seq::empty()).items);
    }
}

/// A delete undoes the add: where a dataset was added under an id that
/// was free, with no key under its prefix, and items were added to it,
/// `delete_dataset` gives back the store as it was before the add. The
/// name is then free again.
pub proof fn law_delete_undoes_add(
    s0: StoreState,
    s1: StoreState,
    s2: StoreState,
    s3: StoreState,
    id: Seq<char>,
    name: Seq<char>,
    file_path: Option<Seq<char>>,
    now: Timestamp,
    pairs: Seq<(Seq<char>, Seq<char>)>,
    ids: Seq<Seq<char>>,
)
    requires
        !s0.has_dataset(id),
        forall|k: Seq<u8>| s0.items.contains_key(k) ==> !item_prefix(id).is_prefix_of(k),
        add_dataset_step(s0, id, name, file_path, now, Ok(id), s1),
        batch_add_step(s1, id, pairs, Ok(ids), s2),
        delete_dataset_step(s2, id, Ok(()), s3),
    ensures
        s3 == s0,
        !s3.has_name(name),
{
    let d = new_dataset(id, name, file_path, now);
    law_dataset_round_trip(d, Seq::empty());
    assert(dataset_bytes(d) + Seq::<u8>::empty() =~= dataset_bytes(d));
    lemma_with_items_under_prefix(s1, id, ids, pairs);
    assert(s3.datasets =~= s0.datasets);
    assert(s3.names =~= s0.names);
    assert(s3.items =~= s0.items) by {
        assert(s3.items == s2.without_dataset(id, Seq::empty()).items);
        assert(s1.without_dataset(id, Seq::empty()).items =~= s0.items);
    }
}

} // verus!
