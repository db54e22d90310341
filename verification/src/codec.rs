//! The binary form of the records.
//!
//! A record is written field by field, with nothing between the fields: a
//! string as the length of its UTF-8 bytes in eight bytes, least
//! significant first, followed by those bytes; an optional string as one
//! byte, 0 or 1, followed by the string where it is 1; an instant as its
//! seconds in eight bytes and its nanoseconds in four, least significant
//! first. `bincode` does the writing and the reading; what it writes and
//! accepts for these fields is stated here as spec functions, and reading
//! is proved to undo writing.

use crate::error::StoreError;
use crate::record::{Dataset, DatasetItem, DatasetView, ItemView, Timestamp};
use vstd::bytes::*;
use vstd::prelude::*;
use vstd::utf8::*;

verus! {

/// `bincode::ErrorKind`: why `bincode` failed.
#[verifier::external_type_specification]
#[verifier::external_body]
pub struct ExCodecErrorKind(bincode::ErrorKind);

/// The bytes of a string field.
pub open spec fn text_bytes(s: Seq<char>) -> Seq<u8> {
    spec_u64_to_le_bytes(encode_utf8(s).len() as u64) + encode_utf8(s)
}

/// The bytes of an optional string field.
pub open spec fn opt_text_bytes(s: Option<Seq<char>>) -> Seq<u8> {
    match s {
        None => seq![0u8],
        Some(t) => seq![1u8] + text_bytes(t),
    }
}

/// The bytes of an instant.
pub open spec fn time_bytes(t: Timestamp) -> Seq<u8> {
    spec_u64_to_le_bytes(t.secs as u64) + spec_u32_to_le_bytes(t.nanos)
}

/// The bytes of an item.
pub open spec fn item_bytes(v: ItemView) -> Seq<u8> {
    text_bytes(v.id) + text_bytes(v.dataset_id) + text_bytes(v.item_name) + text_bytes(
        v.item_type,
    )
}

/// The bytes of a dataset.
pub open spec fn dataset_bytes(v: DatasetView) -> Seq<u8> {
    text_bytes(v.id) + text_bytes(v.name) + opt_text_bytes(v.file_path) + time_bytes(
        v.create_time,
    ) + time_bytes(v.update_time)
}

/// A string field read from the front of `b`, with the bytes that follow
/// it; `None` where `b` does not start with a string field.
pub open spec fn parse_text(b: Seq<u8>) -> Option<(Seq<char>, Seq<u8>)> {
    if b.len() < 8 {
        None
    } else {
        let n = spec_u64_from_le_bytes(b.take(8)) as int;
        if b.len() - 8 < n || !valid_utf8(b.subrange(8, 8 + n)) {
            None
        } else {
            Some((decode_utf8(b.subrange(8, 8 + n)), b.skip(8 + n)))
        }
    }
}

/// An optional string field read from the front of `b`.
pub open spec fn parse_opt_text(b: Seq<u8>) -> Option<(Option<Seq<char>>, Seq<u8>)> {
    if b.len() < 1 {
        None
    } else if b[0] == 0 {
        Some((None, b.skip(1)))
    } else if b[0] == 1 {
        match parse_text(b.skip(1)) {
            Some((t, rest)) => Some((Some(t), rest)),
            None => None,
        }
    } else {
        None
    }
}

/// An instant read from the front of `b`.
pub open spec fn parse_time(b: Seq<u8>) -> Option<(Timestamp, Seq<u8>)> {
    if b.len() < 12 {
        None
    } else {
        Some(
            (
                Timestamp {
                    secs: spec_u64_from_le_bytes(b.take(8)) as i64,
                    nanos: spec_u32_from_le_bytes(b.subrange(8, 12)),
                },
                b.skip(12),
            ),
        )
    }
}

/// The item that `b` starts with; bytes after it are not looked at.
pub open spec fn parse_item(b: Seq<u8>) -> Option<ItemView> {
    match parse_text(b) {
        Some((id, b1)) => match parse_text(b1) {
            Some((dataset_id, b2)) => match parse_text(b2) {
                Some((item_name, b3)) => match parse_text(b3) {
                    Some((item_type, _)) => Some(ItemView { id, dataset_id, item_name, item_type }),
                    None => None,
                },
                None => None,
            },
            None => None,
        },
        None => None,
    }
}

/// The dataset that `b` starts with; bytes after it are not looked at.
pub open spec fn parse_dataset(b: Seq<u8>) -> Option<DatasetView> {
    match parse_text(b) {
        Some((id, b1)) => match parse_text(b1) {
            Some((name, b2)) => match parse_opt_text(b2) {
                Some((file_path, b3)) => match parse_time(b3) {
                    Some((create_time, b4)) => match parse_time(b4) {
                        Some((update_time, _)) => Some(
                            DatasetView { id, name, file_path, create_time, update_time },
                        ),
                        None => None,
                    },
                    None => None,
                },
                None => None,
            },
            None => None,
        },
        None => None,
    }
}

/// A string whose UTF-8 bytes can be counted in eight bytes. Every
/// `String` is one.
pub open spec fn text_fits(s: Seq<char>) -> bool {
    encode_utf8(s).len() <= u64::MAX
}

/// An item all of whose strings fit.
pub open spec fn item_fits(v: ItemView) -> bool {
    text_fits(v.id) && text_fits(v.dataset_id) && text_fits(v.item_name) && text_fits(v.item_type)
}

/// A dataset all of whose strings fit.
pub open spec fn dataset_fits(v: DatasetView) -> bool {
    &&& text_fits(v.id)
    &&& text_fits(v.name)
    &&& v.file_path matches Some(p) ==> text_fits(p)
}

/// Reading a string field that was written gives the string back, and
/// leaves what followed it.
pub proof fn lemma_text_round_trip(s: Seq<char>, rest: Seq<u8>)
    requires
        text_fits(s),
    ensures
        parse_text(text_bytes(s) + rest) == Some((s, rest)),
{
    lemma_auto_spec_u64_to_from_le_bytes();
    let body = encode_utf8(s);
    let n = body.len() as u64;
    let b = text_bytes(s) + rest;
    assert(b.take(8) =~= spec_u64_to_le_bytes(n));
    assert(b.subrange(8, 8 + n) =~= body);
    assert(b.skip(8 + n) =~= rest);
    encode_utf8_valid_utf8(s);
    encode_utf8_decode_utf8(s);
}

/// Reading an optional string field that was written gives it back.
pub proof fn lemma_opt_text_round_trip(s: Option<Seq<char>>, rest: Seq<u8>)
    requires
        s matches Some(t) ==> text_fits(t),
    ensures
        parse_opt_text(opt_text_bytes(s) + rest) == Some((s, rest)),
{
    let b = opt_text_bytes(s) + rest;
    match s {
        None => {
            assert(b.skip(1) =~= rest);
        },
        Some(t) => {
            assert(b.skip(1) =~= text_bytes(t) + rest);
            lemma_text_round_trip(t, rest);
        },
    }
}

/// Reading an instant that was written gives it back.
pub proof fn lemma_time_round_trip(t: Timestamp, rest: Seq<u8>)
    ensures
        parse_time(time_bytes(t) + rest) == Some((t, rest)),
{
    lemma_auto_spec_u64_to_from_le_bytes();
    lemma_auto_spec_u32_to_from_le_bytes();
    let b = time_bytes(t) + rest;
    let secs = t.secs;
    assert(b.take(8) =~= spec_u64_to_le_bytes(secs as u64));
    assert(b.subrange(8, 12) =~= spec_u32_to_le_bytes(t.nanos));
    assert(b.skip(12) =~= rest);
    assert(((secs as u64) as i64) == secs) by (bit_vector);
}

/// Reading an item that was written gives the item back, whatever bytes
/// follow it.
pub proof fn law_item_round_trip(v: ItemView, rest: Seq<u8>)
    requires
        item_fits(v),
    ensures
        parse_item(item_bytes(v) + rest) == Some(v),
{
    let r3 = text_bytes(v.item_type) + rest;
    let r2 = text_bytes(v.item_name) + r3;
    let r1 = text_bytes(v.dataset_id) + r2;
    assert(item_bytes(v) + rest =~= text_bytes(v.id) + r1);
    lemma_text_round_trip(v.id, r1);
    lemma_text_round_trip(v.dataset_id, r2);
    lemma_text_round_trip(v.item_name, r3);
    lemma_text_round_trip(v.item_type, rest);
}

/// Reading a dataset that was written gives the dataset back, with or
/// without a file path, whatever bytes follow it.
pub proof fn law_dataset_round_trip(v: DatasetView, rest: Seq<u8>)
    requires
        dataset_fits(v),
    ensures
        parse_dataset(dataset_bytes(v) + rest) == Some(v),
{
    let r4 = time_bytes(v.update_time) + rest;
    let r3 = time_bytes(v.create_time) + r4;
    let r2 = opt_text_bytes(v.file_path) + r3;
    let r1 = text_bytes(v.name) + r2;
    assert(dataset_bytes(v) + rest =~= text_bytes(v.id) + r1);
    lemma_text_round_trip(v.id, r1);
    lemma_text_round_trip(v.name, r2);
    lemma_opt_text_round_trip(v.file_path, r3);
    lemma_time_round_trip(v.create_time, r4);
    lemma_time_round_trip(v.update_time, rest);
}

/// `bincode::serialize` on the fields of an item, in the order of the
/// record. It succeeds, and the bytes are those of the format: strings
/// are written to a `Vec` without a limit on its size, and nothing on
/// that way fails.
#[verifier::external_body]
fn serialize_item(item: &DatasetItem) -> (r: Result<Vec<u8>, Box<bincode::ErrorKind>>)
    ensures
        r is Ok,
        r matches Ok(b) ==> b@ == item_bytes(item@),
{
    bincode::serialize(&(&item.id, &item.dataset_id, &item.item_name, &item.item_type))
}

/// `bincode::deserialize` to the fields of an item. It succeeds where the
/// bytes start with four string fields, and gives the item they hold.
#[verifier::external_body]
fn deserialize_item(bytes: &[u8]) -> (r: Result<DatasetItem, Box<bincode::ErrorKind>>)
    ensures
        r is Ok <==> parse_item(bytes@) is Some,
        r matches Ok(item) ==> parse_item(bytes@) == Some(item@),
{
    bincode::deserialize::<(String, String, String, String)>(bytes).map(
        |t| DatasetItem { id: t.0, dataset_id: t.1, item_name: t.2, item_type: t.3 },
    )
}

/// `bincode::serialize` on the fields of a dataset, in the order of the
/// record, each instant as its seconds and its nanoseconds. It succeeds,
/// and the bytes are those of the format: strings, an optional string and
/// integers are written to a `Vec` without a limit on its size, and
/// nothing on that way fails.
#[verifier::external_body]
fn serialize_dataset(d: &Dataset) -> (r: Result<Vec<u8>, Box<bincode::ErrorKind>>)
    ensures
        r is Ok,
        r matches Ok(b) ==> b@ == dataset_bytes(d@),
{
    let (c, u) = (d.create_time, d.update_time);
    bincode::serialize(&(&d.id, &d.name, &d.file_path, c.secs, c.nanos, u.secs, u.nanos))
}

/// `bincode::deserialize` to the fields of a dataset. It succeeds where
/// the bytes start with two string fields, an optional string field and
/// two instants, and gives the dataset they hold.
#[verifier::external_body]
fn deserialize_dataset(bytes: &[u8]) -> (r: Result<Dataset, Box<bincode::ErrorKind>>)
    ensures
        r is Ok <==> parse_dataset(bytes@) is Some,
        r matches Ok(d) ==> parse_dataset(bytes@) == Some(d@),
{
    bincode::deserialize::<(String, String, Option<String>, i64, u32, i64, u32)>(bytes).map(
        |t| Dataset {
            id: t.0,
            name: t.1,
            file_path: t.2,
            create_time: Timestamp { secs: t.3, nanos: t.4 },
            update_time: Timestamp { secs: t.5, nanos: t.6 },
        },
    )
}

/// Every string's bytes can be counted: their number is a `usize`.
fn string_fits(s: &String)
    ensures
        text_fits(s@),
{
    let _n: usize = s.as_str().as_bytes().len();
}

/// Every item's strings fit.
fn item_strings_fit(item: &DatasetItem)
    ensures
        item_fits(item@),
{
    string_fits(&item.id);
    string_fits(&item.dataset_id);
    string_fits(&item.item_name);
    string_fits(&item.item_type);
}

/// Every dataset's strings fit.
fn dataset_strings_fit(d: &Dataset)
    ensures
        dataset_fits(d@),
{
    string_fits(&d.id);
    string_fits(&d.name);
    match &d.file_path {
        Some(p) => {
            string_fits(p);
        },
        None => {},
    }
}

/// Writes an item. It succeeds for every item: the bytes are those of
/// the format, and reading them gives the item back.
pub fn encode_item(item: &DatasetItem) -> (r: Result<Vec<u8>, StoreError>)
    ensures
        item_fits(item@),
        r matches Ok(b) && b@ == item_bytes(item@) && parse_item(b@) == Some(item@),
{
    item_strings_fit(item);
    match serialize_item(item) {
        Ok(b) => {
            proof {
                law_item_round_trip(item@, Seq::empty());
                assert(item_bytes(item@) + Seq::<u8>::empty() =~= item_bytes(item@));
            }
            Ok(b)
        },
        Err(_) => Err(StoreError::CorruptRecord),
    }
}

/// Reads the item that the bytes start with: `CorruptRecord` exactly where
/// they start with none.
pub fn decode_item(bytes: &[u8]) -> (r: Result<DatasetItem, StoreError>)
    ensures
        match r {
            Ok(item) => parse_item(bytes@) == Some(item@),
            Err(e) => e == StoreError::CorruptRecord && parse_item(bytes@) is None,
        },
{
    match deserialize_item(bytes) {
        Ok(item) => Ok(item),
        Err(_) => Err(StoreError::CorruptRecord),
    }
}

/// Writes a dataset. It succeeds for every dataset: the bytes are those
/// of the format, and reading them gives the dataset back.
pub fn encode_dataset(d: &Dataset) -> (r: Result<Vec<u8>, StoreError>)
    ensures
        dataset_fits(d@),
        r matches Ok(b) && b@ == dataset_bytes(d@) && parse_dataset(b@) == Some(d@),
{
    dataset_strings_fit(d);
    match serialize_dataset(d) {
        Ok(b) => {
            proof {
                law_dataset_round_trip(d@, Seq::empty());
                assert(dataset_bytes(d@) + Seq::<u8>::empty() =~= dataset_bytes(d@));
            }
            Ok(b)
        },
        Err(_) => Err(StoreError::CorruptRecord),
    }
}

/// Reads the dataset that the bytes start with: `CorruptRecord` exactly
/// where they start with none.
pub fn decode_dataset(bytes: &[u8]) -> (r: Result<Dataset, StoreError>)
    ensures
        match r {
            Ok(d) => parse_dataset(bytes@) == Some(d@),
            Err(e) => e == StoreError::CorruptRecord && parse_dataset(bytes@) is None,
        },
{
    match deserialize_dataset(bytes) {
        Ok(d) => Ok(d),
        Err(_) => Err(StoreError::CorruptRecord),
    }
}

/// Reads the values of the entries as datasets, in their order:
/// `CorruptRecord` exactly where one of them is no dataset.
pub fn decode_datasets(pairs: &Vec<(Vec<u8>, Vec<u8>)>) -> (r: Result<Vec<Dataset>, StoreError>)
    ensures
        match r {
            Ok(found) => found.len() == pairs.len() && forall|i: int|
                0 <= i < pairs.len() ==> parse_dataset((#[trigger] pairs[i]).1@) == Some(
                    found[i]@,
                ),
            Err(e) => e == StoreError::CorruptRecord && exists|i: int|
                0 <= i < pairs.len() && parse_dataset((#[trigger] pairs[i]).1@) is None,
        },
{
    let mut found: Vec<Dataset> = Vec::new();
    let mut i: usize = 0;
    while i < pairs.len()
        invariant
            i <= pairs.len(),
            found.len() == i,
            forall|j: int|
                0 <= j < i ==> parse_dataset((#[trigger] pairs[j]).1@) == Some(found[j]@),
        decreases pairs.len() - i,
    {
        match decode_dataset(pairs[i].1.as_slice()) {
            Ok(d) => {
                found.push(d);
            },
            Err(e) => {
                return Err(e);
            },
        }
        i = i + 1;
    }
    Ok(found)
}

/// Reads the values of the entries as items, in their order:
/// `CorruptRecord` exactly where one of them is no item.
pub fn decode_items(pairs: &Vec<(Vec<u8>, Vec<u8>)>) -> (r: Result<Vec<DatasetItem>, StoreError>)
    ensures
        match r {
            Ok(found) => found.len() == pairs.len() && forall|i: int|
                0 <= i < pairs.len() ==> parse_item((#[trigger] pairs[i]).1@) == Some(found[i]@),
            Err(e) => e == StoreError::CorruptRecord && exists|i: int|
                0 <= i < pairs.len() && parse_item((#[trigger] pairs[i]).1@) is None,
        },
{
    let mut found: Vec<DatasetItem> = Vec::new();
    let mut i: usize = 0;
    while i < pairs.len()
        invariant
            i <= pairs.len(),
            found.len() == i,
            forall|j: int| 0 <= j < i ==> parse_item((#[trigger] pairs[j]).1@) == Some(found[j]@),
        decreases pairs.len() - i,
    {
        match decode_item(pairs[i].1.as_slice()) {
            Ok(item) => {
                found.push(item);
            },
            Err(e) => {
                return Err(e);
            },
        }
        i = i + 1;
    }
    Ok(found)
}

} // verus!
