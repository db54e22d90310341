//! The dataset store: datasets with unique names, and the items that
//! belong to them, kept in three trees of the engine.

use crate::clock::now;
use crate::codec::{
    decode_dataset,
    decode_datasets,
    decode_items,
    encode_dataset,
    encode_item,
    item_fits,
    parse_dataset,
    parse_item,
};
use crate::engine::{
    engine_place,
    flush_engine,
    open_engine,
    open_tree,
    pair_keys,
    tree_contains,
    tree_entries,
    tree_get,
    tree_insert,
    tree_iter,
    tree_name,
    tree_place,
    tree_remove,
    tree_scan_prefix,
};
use crate::error::StoreError;
use crate::ident::{fresh_id, is_uuid_text};
use crate::keys::{make_item_key, make_item_prefix, text_key};
use crate::lexical::{is_listing, law_listing_unique};
use crate::model::{
    add_dataset_step,
    add_item_step,
    batch_add_step,
    batch_delete_step,
    delete_dataset_step,
    delete_item_step,
    delete_items_outcome,
    get_dataset_step,
    list_datasets_step,
    list_items_step,
    new_item,
    with_items,
    StoreState,
};
use crate::record::{
    dataset_views,
    item_views,
    pair_texts,
    str_texts,
    texts,
    Dataset,
    DatasetItem,
    DatasetView,
    ItemView,
    Timestamp,
};
use vstd::prelude::*;
use vstd::utf8::encode_utf8;

verus! {

/// The name of the tree of the datasets.
pub const DATASET_TREE: &'static str = "datasets";

/// The name of the tree of the items.
pub const DATASET_ITEM_TREE: &'static str = "dataset_items";

/// The name of the tree that maps the names of the datasets to their ids.
pub const DATASET_NAME_INDEX: &'static str = "dataset_name_index";

/// The store. It owns its three trees: all that is read and written
/// goes through its operations, and what it holds changes only under a
/// `&mut` of it.
pub struct DatasetDb {
    db: sled::Db,
    datasets: sled::Tree,
    dataset_items: sled::Tree,
    name_index: sled::Tree,
}

/// The text of an optional string slice.
pub open spec fn opt_str_text(s: Option<&str>) -> Option<Seq<char>> {
    match s {
        Some(t) => Some(t@),
        None => None,
    }
}

/// A result that holds an id, with the id as a text.
pub open spec fn id_result(r: Result<String, StoreError>) -> Result<Seq<char>, StoreError> {
    match r {
        Ok(id) => Ok(id@),
        Err(e) => Err(e),
    }
}

/// A result that holds ids, with the ids as texts.
pub open spec fn ids_result(r: Result<Vec<String>, StoreError>) -> Result<
    Seq<Seq<char>>,
    StoreError,
> {
    match r {
        Ok(ids) => Ok(texts(ids@)),
        Err(e) => Err(e),
    }
}

/// A result that holds datasets, with the datasets as their views.
pub open spec fn datasets_result(r: Result<Vec<Dataset>, StoreError>) -> Result<
    Seq<DatasetView>,
    StoreError,
> {
    match r {
        Ok(found) => Ok(dataset_views(found@)),
        Err(e) => Err(e),
    }
}

/// A result that holds items, with the items as their views.
pub open spec fn items_result(r: Result<Vec<DatasetItem>, StoreError>) -> Result<
    Seq<ItemView>,
    StoreError,
> {
    match r {
        Ok(found) => Ok(item_views(found@)),
        Err(e) => Err(e),
    }
}

/// A result that may hold a dataset, with the dataset as its view.
pub open spec fn dataset_result(r: Result<Option<Dataset>, StoreError>) -> Result<
    Option<DatasetView>,
    StoreError,
> {
    match r {
        Ok(Some(d)) => Ok(Some(d@)),
        Ok(None) => Ok(None),
        Err(e) => Err(e),
    }
}

impl View for DatasetDb {
    type V = StoreState;

    closed spec fn view(&self) -> StoreState {
        StoreState {
            datasets: tree_entries(self.datasets),
            items: tree_entries(self.dataset_items),
            names: tree_entries(self.name_index),
        }
    }
}

impl DatasetDb {
    /// The place on disk at which the store was opened.
    pub closed spec fn location(&self) -> Seq<char> {
        engine_place(self.db)
    }

    /// Whether the three trees are the store's own: those of the engine at
    /// its place, the datasets under `datasets`, the items under
    /// `dataset_items`, the names under `dataset_name_index`.
    pub closed spec fn well_formed(&self) -> bool {
        &&& tree_place(self.datasets) == engine_place(self.db)
        &&& tree_place(self.dataset_items) == engine_place(self.db)
        &&& tree_place(self.name_index) == engine_place(self.db)
        &&& tree_name(self.datasets) == encode_utf8(DATASET_TREE@)
        &&& tree_name(self.dataset_items) == encode_utf8(DATASET_ITEM_TREE@)
        &&& tree_name(self.name_index) == encode_utf8(DATASET_NAME_INDEX@)
    }

    /// Opens the store at a place on disk, creating it where there is none:
    /// the engine at that place, and its three trees. It fails, with
    /// `StorageUnavailable`, where the engine cannot open the place or one
    /// of the three trees.
    pub fn init(storage_location: &str) -> (r: Result<DatasetDb, StoreError>)
        ensures
            match r {
                Ok(store) => store.location() == storage_location@ && store.well_formed(),
                Err(e) => e == StoreError::StorageUnavailable,
            },
    {
        let db = match open_engine(storage_location) {
            Ok(db) => db,
            Err(_) => {
                return Err(StoreError::StorageUnavailable);
            },
        };
        let datasets = match open_tree(&db, DATASET_TREE) {
            Ok(tree) => tree,
            Err(_) => {
                return Err(StoreError::StorageUnavailable);
            },
        };
        let dataset_items = match open_tree(&db, DATASET_ITEM_TREE) {
            Ok(tree) => tree,
            Err(_) => {
                return Err(StoreError::StorageUnavailable);
            },
        };
        let name_index = match open_tree(&db, DATASET_NAME_INDEX) {
            Ok(tree) => tree,
            Err(_) => {
                return Err(StoreError::StorageUnavailable);
            },
        };
        Ok(DatasetDb { db, datasets, dataset_items, name_index })
    }

    /// Adds a dataset under a fresh id, with the present time as the time
    /// of its creation and of its last change, and returns the id. A name
    /// that a dataset has already is refused with `DuplicateName`, and
    /// nothing is written.
    pub fn add_dataset(&mut self, name: &str, file_path: Option<&str>) -> (r: Result<
        String,
        StoreError,
    >)
        ensures
            r matches Ok(id) ==> is_uuid_text(id@),
            exists|id: Seq<char>, now: Timestamp| #[trigger]
                add_dataset_step(
                    old(self)@,
                    id,
                    name@,
                    opt_str_text(file_path),
                    now,
                    id_result(r),
                    final(self)@,
                ),
            final(self).location() == old(self).location(),
            final(self).well_formed() == old(self).well_formed(),
    {
        let id = fresh_id();
        let now = now();
        let ghost id_text = id@;
        let r = self.store_dataset(id, name, file_path, now);
        assert(add_dataset_step(
            old(self)@,
            id_text,
            name@,
            opt_str_text(file_path),
            now,
            id_result(r),
            self@,
        ));
        r
    }

    /// Adds a dataset under the given id, with the given time as the time
    /// of its creation and of its last change, and returns the id. A name
    /// that a dataset has already is refused with `DuplicateName`, and
    /// nothing is written.
    pub fn store_dataset(
        &mut self,
        id: String,
        name: &str,
        file_path: Option<&str>,
        now: Timestamp,
    ) -> (r: Result<String, StoreError>)
        ensures
            add_dataset_step(
                old(self)@,
                id@,
                name@,
                opt_str_text(file_path),
                now,
                id_result(r),
                final(self)@,
            ),
            final(self).location() == old(self).location(),
            final(self).well_formed() == old(self).well_formed(),
    {
        match tree_contains(&self.name_index, name.as_bytes()) {
            Ok(false) => {},
            Ok(true) => {
                return Err(StoreError::DuplicateName);
            },
            Err(_) => {
                return Err(StoreError::StorageUnavailable);
            },
        }
        let file_path = match file_path {
            Some(p) => Some(p.to_owned()),
            None => None,
        };
        let dataset = Dataset {
            id,
            name: name.to_owned(),
            file_path,
            create_time: now,
            update_time: now,
        };
        let bytes = match encode_dataset(&dataset) {
            Ok(bytes) => bytes,
            Err(e) => {
                return Err(e);
            },
        };
        match tree_insert(&mut self.datasets, dataset.id.as_str().as_bytes(), bytes.as_slice()) {
            Ok(()) => {},
            Err(_) => {
                return Err(StoreError::StorageUnavailable);
            },
        }
        match tree_insert(&mut self.name_index, name.as_bytes(), dataset.id.as_str().as_bytes()) {
            Ok(()) => {},
            Err(_) => {
                return Err(StoreError::StorageUnavailable);
            },
        }
        match flush_engine(&self.db) {
            Ok(()) => {},
            Err(_) => {
                return Err(StoreError::StorageUnavailable);
            },
        }
        Ok(dataset.id)
    }

    /// The dataset under an id, or `None` where there is none.
    pub fn get_dataset_by_id(&self, dataset_id: &str) -> (r: Result<Option<Dataset>, StoreError>)
        ensures
            get_dataset_step(self@, dataset_id@, dataset_result(r)),
    {
        match tree_get(&self.datasets, dataset_id.as_bytes()) {
            Ok(Some(bytes)) => match decode_dataset(bytes.as_slice()) {
                Ok(d) => Ok(Some(d)),
                Err(e) => Err(e),
            },
            Ok(None) => Ok(None),
            Err(_) => Err(StoreError::StorageUnavailable),
        }
    }

    /// All datasets, in the order of their keys, which is that of their
    /// ids. One entry that is no dataset fails the whole with
    /// `CorruptRecord`.
    pub fn get_all_datasets(&self) -> (r: Result<Vec<Dataset>, StoreError>)
        ensures
            list_datasets_step(self@, datasets_result(r)),
    {
        let pairs = match tree_iter(&self.datasets) {
            Ok(pairs) => pairs,
            Err(_) => {
                return Err(StoreError::StorageUnavailable);
            },
        };
        let r = decode_datasets(&pairs);
        proof {
            let keys = pair_keys(pairs@);
            law_listing_unique(keys, self@.datasets, Seq::empty());
            match &r {
                Ok(found) => {
                    let views = dataset_views(found@);
                    assert forall|i: int| 0 <= i < keys.len() implies parse_dataset(
                        self@.datasets[keys[i]],
                    ) == Some(#[trigger] views[i]) by {
                        assert(pairs[i].1@ == self@.datasets[keys[i]]);
                    }
                },
                Err(_) => {
                    let i = choose|i: int|
                        0 <= i < pairs.len() && parse_dataset((#[trigger] pairs[i]).1@) is None;
                    assert(parse_dataset(self@.datasets[keys[i]]) is None);
                },
            }
        }
        r
    }

    /// Deletes a dataset, the entry of its name, and all its items.
    /// `NotFound` where no dataset lies under the id.
    pub fn delete_dataset(&mut self, dataset_id: &str) -> (r: Result<(), StoreError>)
        ensures
            delete_dataset_step(old(self)@, dataset_id@, r, final(self)@),
            final(self).location() == old(self).location(),
            final(self).well_formed() == old(self).well_formed(),
    {
        let dataset = match self.get_dataset_by_id(dataset_id) {
            Ok(Some(d)) => d,
            Ok(None) => {
                return Err(StoreError::NotFound);
            },
            Err(e) => {
                return Err(e);
            },
        };
        match tree_remove(&mut self.datasets, dataset_id.as_bytes()) {
            Ok(()) => {},
            Err(_) => {
                return Err(StoreError::StorageUnavailable);
            },
        }
        match tree_remove(&mut self.name_index, dataset.name.as_str().as_bytes()) {
            Ok(()) => {},
            Err(_) => {
                return Err(StoreError::StorageUnavailable);
            },
        }
        let prefix = make_item_prefix(dataset_id);
        let pairs = match tree_scan_prefix(&self.dataset_items, prefix.as_slice()) {
            Ok(pairs) => pairs,
            Err(_) => {
                return Err(StoreError::StorageUnavailable);
            },
        };
        let ghost keys = pair_keys(pairs@);
        let ghost before = old(self)@.items;
        let mut i: usize = 0;
        while i < pairs.len()
            invariant
                i <= pairs.len(),
                self.location() == old(self).location(),
                self.well_formed() == old(self).well_formed(),
                keys == pair_keys(pairs@),
                before == old(self)@.items,
                old(self)@.has_dataset(dataset_id@),
                parse_dataset(old(self)@.datasets[text_key(dataset_id@)]) is Some,
                is_listing(keys, before, prefix@),
                self@.datasets == old(self)@.datasets.remove(text_key(dataset_id@)),
                self@.names == old(self)@.names.remove(text_key(dataset.name@)),
                self@.items == before.remove_keys(keys.take(i as int).to_set()),
            decreases pairs.len() - i,
        {
            match tree_remove(&mut self.dataset_items, pairs[i].0.as_slice()) {
                Ok(()) => {},
                Err(_) => {
                    return Err(StoreError::StorageUnavailable);
                },
            }
            proof {
                let done = keys.take(i as int);
                assert(keys.take(i + 1) =~= done.push(keys[i as int]));
                done.lemma_push_to_set_commute(keys[i as int]);
                assert(self@.items =~= before.remove_keys(keys.take(i + 1).to_set()));
            }
            i = i + 1;
        }
        proof {
            assert(keys.take(pairs.len() as int) =~= keys);
            let gone = Set::new(|k: Seq<u8>| prefix@.is_prefix_of(k));
            assert(before.remove_keys(keys.to_set()) =~= before.remove_keys(gone)) by {
                assert forall|k: Seq<u8>| before.contains_key(k) implies (keys.to_set().contains(k)
                    <==> gone.contains(k)) by {
                    if keys.contains(k) {
                        let j = choose|j: int| 0 <= j < keys.len() && keys[j] == k;
                        assert(prefix@.is_prefix_of(keys[j]));
                    }
                }
            }
        }
        match flush_engine(&self.db) {
            Ok(()) => Ok(()),
            Err(_) => Err(StoreError::StorageUnavailable),
        }
    }

    /// Adds an item to a dataset under a fresh id and returns the id.
    /// `NotFound` where the dataset is not there, and nothing is written.
    pub fn add_dataset_item(&mut self, dataset_id: &str, item_name: &str, item_type: &str) -> (r:
        Result<String, StoreError>)
        ensures
            r matches Ok(id) ==> is_uuid_text(id@),
            exists|id: Seq<char>| #[trigger]
                add_item_step(
                    old(self)@,
                    new_item(id, dataset_id@, item_name@, item_type@),
                    id_result(r),
                    final(self)@,
                ),
            final(self).location() == old(self).location(),
            final(self).well_formed() == old(self).well_formed(),
    {
        let id = fresh_id();
        let ghost id_text = id@;
        let r = self.store_item(id, dataset_id, item_name, item_type);
        assert(add_item_step(
            old(self)@,
            new_item(id_text, dataset_id@, item_name@, item_type@),
            id_result(r),
            self@,
        ));
        r
    }

    /// Adds an item to a dataset under the given id and returns the id.
    /// `NotFound` where the dataset is not there, and nothing is written.
    pub fn store_item(&mut self, id: String, dataset_id: &str, item_name: &str, item_type: &str) -> (r:
        Result<String, StoreError>)
        ensures
            add_item_step(
                old(self)@,
                new_item(id@, dataset_id@, item_name@, item_type@),
                id_result(r),
                final(self)@,
            ),
            final(self).location() == old(self).location(),
            final(self).well_formed() == old(self).well_formed(),
    {
        match tree_contains(&self.datasets, dataset_id.as_bytes()) {
            Ok(true) => {},
            Ok(false) => {
                return Err(StoreError::NotFound);
            },
            Err(_) => {
                return Err(StoreError::StorageUnavailable);
            },
        }
        let item = DatasetItem {
            id,
            dataset_id: dataset_id.to_owned(),
            item_name: item_name.to_owned(),
            item_type: item_type.to_owned(),
        };
        let key = make_item_key(dataset_id, item.id.as_str());
        let bytes = match encode_item(&item) {
            Ok(bytes) => bytes,
            Err(e) => {
                return Err(e);
            },
        };
        match tree_insert(&mut self.dataset_items, key.as_slice(), bytes.as_slice()) {
            Ok(()) => {},
            Err(_) => {
                return Err(StoreError::StorageUnavailable);
            },
        }
        match flush_engine(&self.db) {
            Ok(()) => {},
            Err(_) => {
                return Err(StoreError::StorageUnavailable);
            },
        }
        Ok(item.id)
    }

    /// Adds items to a dataset, each a name and the name of a type, in
    /// their order, and returns their ids in that order. `NotFound` where
    /// the dataset is not there. The items are added one by one: where one
    /// fails, those before it stay.
    pub fn batch_add_items(&mut self, dataset_id: &str, items: &[(String, String)]) -> (r: Result<
        Vec<String>,
        StoreError,
    >)
        ensures
            r matches Ok(ids) ==> forall|i: int| 0 <= i < ids.len() ==> is_uuid_text(ids[i]@),
            batch_add_step(
                old(self)@,
                dataset_id@,
                pair_texts(items@),
                ids_result(r),
                final(self)@,
            ),
            final(self).location() == old(self).location(),
            final(self).well_formed() == old(self).well_formed(),
    {
        match tree_contains(&self.datasets, dataset_id.as_bytes()) {
            Ok(true) => {},
            Ok(false) => {
                return Err(StoreError::NotFound);
            },
            Err(_) => {
                return Err(StoreError::StorageUnavailable);
            },
        }
        let ghost pairs = pair_texts(items@);
        let mut item_ids: Vec<String> = Vec::new();
        let mut i: usize = 0;
        while i < items.len()
            invariant
                i <= items.len(),
                self.location() == old(self).location(),
                self.well_formed() == old(self).well_formed(),
                item_ids.len() == i,
                pairs == pair_texts(items@),
                old(self)@.has_dataset(dataset_id@),
                self@.datasets == old(self)@.datasets,
                self@.names == old(self)@.names,
                self@ == with_items(old(self)@, dataset_id@, texts(item_ids@), pairs.take(i as int)),
                forall|j: int| 0 <= j < i ==> is_uuid_text(item_ids[j]@),
                forall|j: int|
                    0 <= j < i ==> item_fits(
                        new_item(#[trigger] item_ids[j]@, dataset_id@, pairs[j].0, pairs[j].1),
                    ),
            decreases items.len() - i,
        {
            let ghost so_far = texts(item_ids@);
            let item_id = match self.add_dataset_item(
                dataset_id,
                items[i].0.as_str(),
                items[i].1.as_str(),
            ) {
                Ok(item_id) => item_id,
                Err(e) => {
                    assert(e != StoreError::NotFound);
                    return Err(e);
                },
            };
            item_ids.push(item_id);
            proof {
                let ids = texts(item_ids@);
                assert(ids.drop_last() =~= so_far);
                assert(pairs.take(i + 1).drop_last() =~= pairs.take(i as int));
                assert(pairs.take(i + 1).last() == pairs[i as int]);
            }
            i = i + 1;
        }
        assert(pairs.take(items.len() as int) =~= pairs);
        Ok(item_ids)
    }

    /// The items of a dataset, in the order of their keys. The dataset
    /// itself is not looked for: where it is not there, or has no items,
    /// the result is empty. One entry that is no item fails the whole with
    /// `CorruptRecord`.
    pub fn get_items_by_dataset_id(&self, dataset_id: &str) -> (r: Result<
        Vec<DatasetItem>,
        StoreError,
    >)
        ensures
            list_items_step(self@, dataset_id@, items_result(r)),
    {
        let prefix = make_item_prefix(dataset_id);
        let pairs = match tree_scan_prefix(&self.dataset_items, prefix.as_slice()) {
            Ok(pairs) => pairs,
            Err(_) => {
                return Err(StoreError::StorageUnavailable);
            },
        };
        let r = decode_items(&pairs);
        proof {
            let keys = pair_keys(pairs@);
            law_listing_unique(keys, self@.items, prefix@);
            match &r {
                Ok(found) => {
                    let views = item_views(found@);
                    assert forall|i: int| 0 <= i < keys.len() implies parse_item(
                        self@.items[keys[i]],
                    ) == Some(#[trigger] views[i]) by {
                        assert(pairs[i].1@ == self@.items[keys[i]]);
                    }
                },
                Err(_) => {
                    let i = choose|i: int|
                        0 <= i < pairs.len() && parse_item((#[trigger] pairs[i]).1@) is None;
                    assert(parse_item(self@.items[keys[i]]) is None);
                },
            }
        }
        r
    }

    /// Deletes one item of a dataset. `NotFound` where no item lies under
    /// the two ids.
    pub fn delete_item(&mut self, dataset_id: &str, item_id: &str) -> (r: Result<(), StoreError>)
        ensures
            delete_item_step(old(self)@, dataset_id@, item_id@, r, final(self)@),
            final(self).location() == old(self).location(),
            final(self).well_formed() == old(self).well_formed(),
    {
        let key = make_item_key(dataset_id, item_id);
        match tree_contains(&self.dataset_items, key.as_slice()) {
            Ok(true) => {},
            Ok(false) => {
                return Err(StoreError::NotFound);
            },
            Err(_) => {
                return Err(StoreError::StorageUnavailable);
            },
        }
        match tree_remove(&mut self.dataset_items, key.as_slice()) {
            Ok(()) => {},
            Err(_) => {
                return Err(StoreError::StorageUnavailable);
            },
        }
        match flush_engine(&self.db) {
            Ok(()) => Ok(()),
            Err(_) => Err(StoreError::StorageUnavailable),
        }
    }

    /// Deletes items of a dataset, in their order. The first that is not
    /// there ends it with `NotFound`; those before it stay deleted.
    pub fn batch_delete_items(&mut self, dataset_id: &str, item_ids: &[&str]) -> (r: Result<
        (),
        StoreError,
    >)
        ensures
            batch_delete_step(old(self)@, dataset_id@, str_texts(item_ids@), r, final(self)@),
            final(self).location() == old(self).location(),
            final(self).well_formed() == old(self).well_formed(),
    {
        let ghost ids = str_texts(item_ids@);
        assert(ids.skip(0) =~= ids);
        let mut i: usize = 0;
        while i < item_ids.len()
            invariant
                i <= item_ids.len(),
                self.location() == old(self).location(),
                self.well_formed() == old(self).well_formed(),
                ids == str_texts(item_ids@),
                i == 0 ==> self@ == old(self)@,
                i > 0 ==> old(self)@.has_item(dataset_id@, ids[0]),
                self@.datasets == old(self)@.datasets,
                self@.names == old(self)@.names,
                delete_items_outcome(old(self)@, dataset_id@, ids) == delete_items_outcome(
                    self@,
                    dataset_id@,
                    ids.skip(i as int),
                ),
            decreases item_ids.len() - i,
        {
            proof {
                assert(ids.skip(i as int).drop_first() =~= ids.skip(i + 1));
                assert(ids.skip(i as int)[0] == item_ids[i as int]@);
            }
            match self.delete_item(dataset_id, item_ids[i]) {
                Ok(()) => {},
                Err(e) => {
                    return Err(e);
                },
            }
            i = i + 1;
        }
        Ok(())
    }
}

} // verus!
