//! The records that the store keeps, and their mathematical views.

use vstd::prelude::*;

verus! {

/// An instant: whole seconds since 1970-01-01T00:00:00Z, and the
/// nanoseconds into that second.
#[derive(Debug, Clone, Copy, PartialEq, Eq, Structural)]
pub struct Timestamp {
    pub secs: i64,
    pub nanos: u32,
}

/// A dataset: a named collection of items.
#[derive(Debug, Clone, PartialEq, Eq)]
pub struct Dataset {
    pub id: String,
    pub name: String,
    pub file_path: Option<String>,
    pub create_time: Timestamp,
    pub update_time: Timestamp,
}

/// One item of a dataset: a name with the name of a type.
#[derive(Debug, Clone, PartialEq, Eq)]
pub struct DatasetItem {
    pub id: String,
    pub dataset_id: String,
    pub item_name: String,
    pub item_type: String,
}

/// What a [`Dataset`] is, as a value of mathematics.
pub struct DatasetView {
    pub id: Seq<char>,
    pub name: Seq<char>,
    pub file_path: Option<Seq<char>>,
    pub create_time: Timestamp,
    pub update_time: Timestamp,
}

/// What a [`DatasetItem`] is, as a value of mathematics.
pub struct ItemView {
    pub id: Seq<char>,
    pub dataset_id: Seq<char>,
    pub item_name: Seq<char>,
    pub item_type: Seq<char>,
}

/// The text of an optional string.
pub open spec fn opt_text(s: Option<String>) -> Option<Seq<char>> {
    match s {
        Some(t) => Some(t@),
        None => None,
    }
}

impl View for Dataset {
    type V = DatasetView;

    open spec fn view(&self) -> DatasetView {
        DatasetView {
            id: self.id@,
            name: self.name@,
            file_path: opt_text(self.file_path),
            create_time: self.create_time,
            update_time: self.update_time,
        }
    }
}

impl View for DatasetItem {
    type V = ItemView;

    open spec fn view(&self) -> ItemView {
        ItemView {
            id: self.id@,
            dataset_id: self.dataset_id@,
            item_name: self.item_name@,
            item_type: self.item_type@,
        }
    }
}

/// The views of a sequence of datasets, one for one.
pub open spec fn dataset_views(v: Seq<Dataset>) -> Seq<DatasetView> {
    Seq::new(v.len(), |i: int| v[i]@)
}

/// The views of a sequence of items, one for one.
pub open spec fn item_views(v: Seq<DatasetItem>) -> Seq<ItemView> {
    Seq::new(v.len(), |i: int| v[i]@)
}

/// The texts of a sequence of strings, one for one.
pub open spec fn texts(v: Seq<String>) -> Seq<Seq<char>> {
    Seq::new(v.len(), |i: int| v[i]@)
}

/// The texts of a sequence of string slices, one for one.
pub open spec fn str_texts(v: Seq<&str>) -> Seq<Seq<char>> {
    Seq::new(v.len(), |i: int| v[i]@)
}

/// The texts of a sequence of pairs of strings, one for one.
pub open spec fn pair_texts(v: Seq<(String, String)>) -> Seq<(Seq<char>, Seq<char>)> {
    Seq::new(v.len(), |i: int| (v[i].0@, v[i].1@))
}

} // verus!
