//! What the store holds, as a value of mathematics, and what each
//! operation may do to it.
//!
//! A state is three maps from keys to bytes: the datasets by id, the items
//! by `<dataset id>:<item id>`, and the ids of the datasets by name. For
//! each operation a relation says which results and which next states go
//! with a state and the operation's arguments. The engine may fail at any
//! step. Of the state after `StorageUnavailable` the relations say which
//! of the three maps the operation has left alone, and that nothing was
//! changed where the operation would have refused in any case.

use crate::codec::{
    dataset_bytes,
    dataset_fits,
    item_bytes,
    item_fits,
    parse_dataset,
    parse_item,
};
use crate::error::StoreError;
use crate::keys::{item_key, item_prefix, text_key};
use crate::lexical::{is_listing, listing};
use crate::record::{DatasetView, ItemView, Timestamp};
use vstd::prelude::*;

verus! {

/// What the store holds.
pub struct StoreState {
    /// The written datasets, by the key of their id.
    pub datasets: Map<Seq<u8>, Seq<u8>>,
    /// The written items, by their key.
    pub items: Map<Seq<u8>, Seq<u8>>,
    /// The key of a dataset's id, by the key of its name.
    pub names: Map<Seq<u8>, Seq<u8>>,
}

/// The dataset that `add_dataset` writes: both its times are the time of
/// writing.
pub open spec fn new_dataset(
    id: Seq<char>,
    name: Seq<char>,
    file_path: Option<Seq<char>>,
    now: Timestamp,
) -> DatasetView {
    DatasetView { id, name, file_path, create_time: now, update_time: now }
}

impl StoreState {
    /// Whether a dataset is known by this name.
    pub open spec fn has_name(self, name: Seq<char>) -> bool {
        self.names.contains_key(text_key(name))
    }

    /// Whether a dataset lies under this id.
    pub open spec fn has_dataset(self, id: Seq<char>) -> bool {
        self.datasets.contains_key(text_key(id))
    }

    /// Whether an item lies under these two ids.
    pub open spec fn has_item(self, dataset_id: Seq<char>, item_id: Seq<char>) -> bool {
        self.items.contains_key(item_key(dataset_id, item_id))
    }

    /// The number of datasets.
    pub open spec fn dataset_count(self) -> nat {
        self.datasets.dom().len()
    }

    /// The state with one dataset written, under its id and its name.
    pub open spec fn with_dataset(self, d: DatasetView) -> StoreState {
        StoreState {
            datasets: self.datasets.insert(text_key(d.id), dataset_bytes(d)),
            items: self.items,
            names: self.names.insert(text_key(d.name), text_key(d.id)),
        }
    }

    /// The state without the dataset under `id`, without the name `name`,
    /// and without every item whose key starts with `<id>:`.
    pub open spec fn without_dataset(self, id: Seq<char>, name: Seq<char>) -> StoreState {
        StoreState {
            datasets: self.datasets.remove(text_key(id)),
            items: self.items.remove_keys(
                Set::new(|k: Seq<u8>| item_prefix(id).is_prefix_of(k)),
            ),
            names: self.names.remove(text_key(name)),
        }
    }

    /// The state with one item written under its key.
    pub open spec fn with_item(self, item: ItemView) -> StoreState {
        StoreState {
            datasets: self.datasets,
            items: self.items.insert(item_key(item.dataset_id, item.id), item_bytes(item)),
            names: self.names,
        }
    }

    /// The state without the item under these two ids.
    pub open spec fn without_item(self, dataset_id: Seq<char>, item_id: Seq<char>) -> StoreState {
        StoreState {
            datasets: self.datasets,
            items: self.items.remove(item_key(dataset_id, item_id)),
            names: self.names,
        }
    }

    /// Names and datasets go together: each name leads to a dataset that
    /// has this name, and each dataset lies under its own id and is known
    /// by its name.
    pub open spec fn names_match(self) -> bool {
        &&& forall|n: Seq<u8>| #[trigger]
            self.names.contains_key(n) ==> self.datasets.contains_key(self.names[n]) && (
            parse_dataset(self.datasets[self.names[n]]) matches Some(d) && text_key(d.name) == n
                && text_key(d.id) == self.names[n])
        &&& forall|k: Seq<u8>| #[trigger]
            self.datasets.contains_key(k) ==> (parse_dataset(self.datasets[k]) matches Some(d)
                && text_key(d.id) == k && self.names.contains_key(text_key(d.name))
                && self.names[text_key(d.name)] == k)
    }

    /// Every item lies under the key that its two ids make, and its
    /// dataset is there.
    pub open spec fn items_belong(self) -> bool {
        forall|k: Seq<u8>| #[trigger]
            self.items.contains_key(k) ==> (parse_item(self.items[k]) matches Some(item) && k
                == item_key(item.dataset_id, item.id) && self.has_dataset(item.dataset_id))
    }

    /// The store is in order: names and datasets go together, and every
    /// item belongs to a dataset.
    pub open spec fn consistent(self) -> bool {
        self.names_match() && self.items_belong()
    }

    /// The keys of all datasets, in the order of the keys.
    pub open spec fn dataset_keys(self) -> Seq<Seq<u8>> {
        listing(self.datasets, Seq::empty())
    }

    /// The keys of the items of one dataset, in the order of the keys.
    pub open spec fn item_keys(self, dataset_id: Seq<char>) -> Seq<Seq<u8>> {
        listing(self.items, item_prefix(dataset_id))
    }
}

/// `add_dataset`, with the id and the time that it drew. A name that is
/// known is refused and nothing written; else the dataset is written under
/// its id and its name, and the id returned.
pub open spec fn add_dataset_step(
    pre: StoreState,
    id: Seq<char>,
    name: Seq<char>,
    file_path: Option<Seq<char>>,
    now: Timestamp,
    r: Result<Seq<char>, StoreError>,
    post: StoreState,
) -> bool {
    let d = new_dataset(id, name, file_path, now);
    match r {
        Ok(got) => !pre.has_name(name) && got == id && dataset_fits(d) && post
            == pre.with_dataset(d),
        Err(StoreError::DuplicateName) => pre.has_name(name) && post == pre,
        Err(StoreError::StorageUnavailable) => post.items == pre.items && (pre.has_name(name)
            ==> post == pre),
        Err(_) => false,
    }
}

/// `get_dataset_by_id`: the dataset written under the id, `None` where
/// nothing lies under it, `CorruptRecord` where what lies there is no
/// dataset.
pub open spec fn get_dataset_step(
    s: StoreState,
    id: Seq<char>,
    r: Result<Option<DatasetView>, StoreError>,
) -> bool {
    match r {
        Ok(Some(d)) => s.has_dataset(id) && parse_dataset(s.datasets[text_key(id)]) == Some(d),
        Ok(None) => !s.has_dataset(id),
        Err(StoreError::CorruptRecord) => s.has_dataset(id) && parse_dataset(
            s.datasets[text_key(id)],
        ) is None,
        Err(StoreError::StorageUnavailable) => true,
        Err(_) => false,
    }
}

/// `get_all_datasets`: every dataset, in the order of the keys;
/// `CorruptRecord` where one of the entries is no dataset.
pub open spec fn list_datasets_step(s: StoreState, r: Result<Seq<DatasetView>, StoreError>) -> bool {
    let keys = s.dataset_keys();
    match r {
        Ok(found) => {
            &&& is_listing(keys, s.datasets, Seq::empty())
            &&& found.len() == keys.len()
            &&& forall|i: int|
                0 <= i < keys.len() ==> parse_dataset(s.datasets[keys[i]]) == Some(
                    #[trigger] found[i],
                )
        },
        Err(StoreError::CorruptRecord) => {
            &&& is_listing(keys, s.datasets, Seq::empty())
            &&& exists|i: int|
                0 <= i < keys.len() && parse_dataset(s.datasets[#[trigger] keys[i]]) is None
        },
        Err(StoreError::StorageUnavailable) => true,
        Err(_) => false,
    }
}

/// `delete_dataset`: `NotFound` where nothing lies under the id; else the
/// dataset goes, with the name that its record holds and with all its
/// items.
pub open spec fn delete_dataset_step(
    pre: StoreState,
    id: Seq<char>,
    r: Result<(), StoreError>,
    post: StoreState,
) -> bool {
    match r {
        Ok(()) => pre.has_dataset(id) && (parse_dataset(pre.datasets[text_key(id)]) matches Some(
            d,
        ) && post == pre.without_dataset(id, d.name)),
        Err(StoreError::NotFound) => !pre.has_dataset(id) && post == pre,
        Err(StoreError::CorruptRecord) => pre.has_dataset(id) && parse_dataset(
            pre.datasets[text_key(id)],
        ) is None && post == pre,
        Err(StoreError::StorageUnavailable) => (!pre.has_dataset(id) || parse_dataset(
            pre.datasets[text_key(id)],
        ) is None) ==> post == pre,
        Err(StoreError::DuplicateName) => false,
    }
}

/// `add_dataset_item`, with the id that it drew: `NotFound` where the
/// item's dataset is not there, and nothing written; else the item is
/// written under its key, and its id returned.
pub open spec fn add_item_step(
    pre: StoreState,
    item: ItemView,
    r: Result<Seq<char>, StoreError>,
    post: StoreState,
) -> bool {
    match r {
        Ok(got) => pre.has_dataset(item.dataset_id) && got == item.id && item_fits(item) && post
            == pre.with_item(item),
        Err(StoreError::NotFound) => !pre.has_dataset(item.dataset_id) && post == pre,
        Err(StoreError::StorageUnavailable) => post.datasets == pre.datasets && post.names
            == pre.names && (!pre.has_dataset(item.dataset_id) ==> post == pre),
        Err(_) => false,
    }
}

/// `get_items_by_dataset_id`: the items whose keys start with
/// `<dataset id>:`, in the order of the keys, whether or not the dataset
/// is there; `CorruptRecord` where one of the entries is no item.
pub open spec fn list_items_step(
    s: StoreState,
    dataset_id: Seq<char>,
    r: Result<Seq<ItemView>, StoreError>,
) -> bool {
    let keys = s.item_keys(dataset_id);
    match r {
        Ok(found) => {
            &&& is_listing(keys, s.items, item_prefix(dataset_id))
            &&& found.len() == keys.len()
            &&& forall|i: int|
                0 <= i < keys.len() ==> parse_item(s.items[keys[i]]) == Some(#[trigger] found[i])
        },
        Err(StoreError::CorruptRecord) => {
            &&& is_listing(keys, s.items, item_prefix(dataset_id))
            &&& exists|i: int|
                0 <= i < keys.len() && parse_item(s.items[#[trigger] keys[i]]) is None
        },
        Err(StoreError::StorageUnavailable) => true,
        Err(_) => false,
    }
}

/// `delete_item`: `NotFound` where nothing lies under the two ids, and
/// nothing changed; else the item goes.
pub open spec fn delete_item_step(
    pre: StoreState,
    dataset_id: Seq<char>,
    item_id: Seq<char>,
    r: Result<(), StoreError>,
    post: StoreState,
) -> bool {
    match r {
        Ok(()) => pre.has_item(dataset_id, item_id) && post == pre.without_item(
            dataset_id,
            item_id,
        ),
        Err(StoreError::NotFound) => !pre.has_item(dataset_id, item_id) && post == pre,
        Err(StoreError::StorageUnavailable) => post.datasets == pre.datasets && post.names
            == pre.names && (!pre.has_item(dataset_id, item_id) ==> post == pre),
        Err(_) => false,
    }
}

/// The item that `add_dataset_item` writes.
pub open spec fn new_item(
    id: Seq<char>,
    dataset_id: Seq<char>,
    item_name: Seq<char>,
    item_type: Seq<char>,
) -> ItemView {
    ItemView { id, dataset_id, item_name, item_type }
}

/// The state after the items of `pairs`, each a name and a type, were
/// written to one dataset in their order, each under its id of `ids`.
pub open spec fn with_items(
    s: StoreState,
    dataset_id: Seq<char>,
    ids: Seq<Seq<char>>,
    pairs: Seq<(Seq<char>, Seq<char>)>,
) -> StoreState
    recommends
        ids.len() == pairs.len(),
    decreases ids.len(),
{
    if ids.len() == 0 {
        s
    } else {
        with_items(s, dataset_id, ids.drop_last(), pairs.drop_last()).with_item(
            new_item(ids.last(), dataset_id, pairs.last().0, pairs.last().1),
        )
    }
}

/// `batch_add_items`, with the ids that it drew: `NotFound` where the
/// dataset is not there, and nothing written; else the items are written
/// in their order and their ids returned in that order. The items are
/// written one by one: where the engine fails at one, nothing takes back
/// those before it.
pub open spec fn batch_add_step(
    pre: StoreState,
    dataset_id: Seq<char>,
    pairs: Seq<(Seq<char>, Seq<char>)>,
    r: Result<Seq<Seq<char>>, StoreError>,
    post: StoreState,
) -> bool {
    match r {
        Ok(ids) => {
            &&& pre.has_dataset(dataset_id)
            &&& ids.len() == pairs.len()
            &&& forall|i: int|
                0 <= i < ids.len() ==> item_fits(
                    new_item(#[trigger] ids[i], dataset_id, pairs[i].0, pairs[i].1),
                )
            &&& post == with_items(pre, dataset_id, ids, pairs)
        },
        Err(StoreError::NotFound) => !pre.has_dataset(dataset_id) && post == pre,
        Err(StoreError::StorageUnavailable) => post.datasets == pre.datasets && post.names
            == pre.names && (!pre.has_dataset(dataset_id) ==> post == pre),
        Err(_) => false,
    }
}

/// What deleting the items under `ids` from one dataset, in their order,
/// comes to: the state at the end, and whether every one of them was
/// there at its turn. The first that is not there ends it.
pub open spec fn delete_items_outcome(
    s: StoreState,
    dataset_id: Seq<char>,
    ids: Seq<Seq<char>>,
) -> (StoreState, bool)
    decreases ids.len(),
{
    if ids.len() == 0 {
        (s, true)
    } else if !s.has_item(dataset_id, ids[0]) {
        (s, false)
    } else {
        delete_items_outcome(s.without_item(dataset_id, ids[0]), dataset_id, ids.drop_first())
    }
}

/// `batch_delete_items`: the items go in their order; the first that is
/// not there ends it with `NotFound`, and those before it stay deleted.
pub open spec fn batch_delete_step(
    pre: StoreState,
    dataset_id: Seq<char>,
    ids: Seq<Seq<char>>,
    r: Result<(), StoreError>,
    post: StoreState,
) -> bool {
    let outcome = delete_items_outcome(pre, dataset_id, ids);
    match r {
        Ok(()) => outcome.1 && post == outcome.0,
        Err(StoreError::NotFound) => !outcome.1 && post == outcome.0,
        Err(StoreError::StorageUnavailable) => {
            &&& ids.len() > 0
            &&& post.datasets == pre.datasets
            &&& post.names == pre.names
            &&& !pre.has_item(dataset_id, ids[0]) ==> post == pre
        },
        Err(_) => false,
    }
}

} // verus!
