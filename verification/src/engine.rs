//! The key-value engine: `sled`, seen as ordered maps from byte strings
//! to byte strings.
//!
//! Everything in this file is believed, not proved. Each function makes
//! one call into `sled` and states what that call does to what the tree
//! holds. An engine is known by the place on disk at which it was opened,
//! and a tree by its engine's place and the name under which it was
//! opened.
//!
//! `sled` changes a tree through a shared reference. Here a tree is
//! changed only through a `&mut` of it, so that what a tree holds is a
//! property of the handle. That is right as long as no second handle to
//! the same tree is at work. The store opens each of its trees once and
//! hands none out. Against a second opening of the same place `sled`
//! locks the files of a place while it is open, on Windows, Linux and
//! macOS: there such an opening fails. On other systems it takes no lock,
//! and it is for the caller to open a place once at a time.

use crate::lexical::is_listing;
use vstd::prelude::*;
use vstd::utf8::encode_utf8;

verus! {

/// `sled::Db`: the engine, opened at a place on disk.
#[verifier::external_type_specification]
#[verifier::external_body]
pub struct ExDb(sled::Db);

/// `sled::Tree`: one tree of the engine, an ordered map of its own.
#[verifier::external_type_specification]
#[verifier::external_body]
pub struct ExTree(sled::Tree);

/// `sled::Error`: why the engine failed.
#[verifier::external_type_specification]
#[verifier::external_body]
pub struct ExEngineError(sled::Error);

/// What a tree holds: its keys, each with its value.
pub uninterp spec fn tree_entries(tree: sled::Tree) -> Map<Seq<u8>, Seq<u8>>;

/// The place on disk at which an engine was opened: the path that it was
/// given.
pub uninterp spec fn engine_place(db: sled::Db) -> Seq<char>;

/// The place on disk of the engine that a tree belongs to.
pub uninterp spec fn tree_place(tree: sled::Tree) -> Seq<char>;

/// The name under which a tree was opened, as bytes.
pub uninterp spec fn tree_name(tree: sled::Tree) -> Seq<u8>;

/// The keys of a sequence of entries, one for one.
pub open spec fn pair_keys(pairs: Seq<(Vec<u8>, Vec<u8>)>) -> Seq<Seq<u8>> {
    Seq::new(pairs.len(), |i: int| pairs[i].0@)
}

/// `pairs` are the entries of `entries` whose keys start with `prefix`,
/// each once, in the order of the keys.
pub open spec fn lists(
    pairs: Seq<(Vec<u8>, Vec<u8>)>,
    entries: Map<Seq<u8>, Seq<u8>>,
    prefix: Seq<u8>,
) -> bool {
    &&& is_listing(pair_keys(pairs), entries, prefix)
    &&& forall|i: int| 0 <= i < pairs.len() ==> (#[trigger] pairs[i]).1@ == entries[pairs[i].0@]
}

/// `sled::open`: opens the engine at a path, creating it where there is
/// none. Where it succeeds, the engine is the one at that path. Nothing is
/// claimed of what it holds, nor of when it succeeds.
#[verifier::external_body]
pub(crate) fn open_engine(path: &str) -> (r: Result<sled::Db, sled::Error>)
    ensures
        r matches Ok(db) ==> engine_place(db) == path@,
{
    sled::open(path)
}

/// `sled::Db::open_tree`: opens the tree of that name, creating it where
/// there is none. Where it succeeds, the tree is one of that engine and
/// has that name. Nothing is claimed of what it holds, nor of when it
/// succeeds.
#[verifier::external_body]
pub(crate) fn open_tree(db: &sled::Db, name: &str) -> (r: Result<sled::Tree, sled::Error>)
    ensures
        r matches Ok(tree) ==> tree_place(tree) == engine_place(*db) && tree_name(tree)
            == encode_utf8(name@),
{
    db.open_tree(name)
}

/// `sled::Tree::flush`, on the engine's own tree: waits until what was
/// written is on disk. It changes nothing that a tree holds.
#[verifier::external_body]
pub(crate) fn flush_engine(db: &sled::Db) -> Result<(), sled::Error> {
    db.flush().map(|_| ())
}

/// `sled::Tree::contains_key`: on success, whether the tree holds the key.
#[verifier::external_body]
pub(crate) fn tree_contains(tree: &sled::Tree, key: &[u8]) -> (r: Result<bool, sled::Error>)
    ensures
        r matches Ok(b) ==> b == tree_entries(*tree).contains_key(key@),
{
    tree.contains_key(key)
}

/// `sled::Tree::get`: on success, the value under the key, or `None` where
/// the tree does not hold the key.
#[verifier::external_body]
pub(crate) fn tree_get(tree: &sled::Tree, key: &[u8]) -> (r: Result<
    Option<Vec<u8>>,
    sled::Error,
>)
    ensures
        r matches Ok(found) ==> match found {
            Some(value) => tree_entries(*tree).contains_key(key@) && value@ == tree_entries(
                *tree,
            )[key@],
            None => !tree_entries(*tree).contains_key(key@),
        },
{
    tree.get(key).map(|found| found.map(|value| value.to_vec()))
}

/// `sled::Tree::insert`: on success the tree holds `value` under `key` and
/// is otherwise as before. Nothing is claimed of what the tree holds
/// after a failure. It is the same tree in either case.
#[verifier::external_body]
pub(crate) fn tree_insert(tree: &mut sled::Tree, key: &[u8], value: &[u8]) -> (r: Result<
    (),
    sled::Error,
>)
    ensures
        r is Ok ==> tree_entries(*final(tree)) == tree_entries(*old(tree)).insert(key@, value@),
        tree_place(*final(tree)) == tree_place(*old(tree)),
        tree_name(*final(tree)) == tree_name(*old(tree)),
{
    tree.insert(key, value).map(|_| ())
}

/// `sled::Tree::remove`: on success the tree does not hold `key` and is
/// otherwise as before. Nothing is claimed of what the tree holds after a
/// failure. It is the same tree in either case.
#[verifier::external_body]
pub(crate) fn tree_remove(tree: &mut sled::Tree, key: &[u8]) -> (r: Result<(), sled::Error>)
    ensures
        r is Ok ==> tree_entries(*final(tree)) == tree_entries(*old(tree)).remove(key@),
        tree_place(*final(tree)) == tree_place(*old(tree)),
        tree_name(*final(tree)) == tree_name(*old(tree)),
{
    tree.remove(key).map(|_| ())
}

/// `sled::Tree::iter`, walked to its end: on success, all that the tree
/// holds, in the order of the keys. The first failure of the walk is the
/// result.
#[verifier::external_body]
pub(crate) fn tree_iter(tree: &sled::Tree) -> (r: Result<Vec<(Vec<u8>, Vec<u8>)>, sled::Error>)
    ensures
        r matches Ok(pairs) ==> lists(pairs@, tree_entries(*tree), Seq::empty()),
{
    tree.iter().map(|entry| entry.map(|(key, value)| (key.to_vec(), value.to_vec()))).collect()
}

/// `sled::Tree::scan_prefix`, walked to its end: on success, the entries
/// whose keys start with `prefix`, in the order of the keys. The first
/// failure of the walk is the result.
#[verifier::external_body]
pub(crate) fn tree_scan_prefix(tree: &sled::Tree, prefix: &[u8]) -> (r: Result<
    Vec<(Vec<u8>, Vec<u8>)>,
    sled::Error,
>)
    ensures
        r matches Ok(pairs) ==> lists(pairs@, tree_entries(*tree), prefix@),
{
    tree.scan_prefix(prefix).map(
        |entry| entry.map(|(key, value)| (key.to_vec(), value.to_vec())),
    ).collect()
}

} // verus!
