//! The keys under which the records lie.
//!
//! A dataset lies under the UTF-8 bytes of its id, its name under those of
//! the name, and an item under `<dataset id>:<item id>`, so that the items
//! of one dataset are the keys that start with `<dataset id>:`.

use vstd::prelude::*;
use vstd::utf8::*;

verus! {

/// The byte of the colon between the two ids of an item's key.
pub const SEPARATOR: u8 = 0x3a;

/// The key of a dataset with this id, and of a name.
pub open spec fn text_key(s: Seq<char>) -> Seq<u8> {
    encode_utf8(s)
}

/// What the keys of a dataset's items start with.
pub open spec fn item_prefix(dataset_id: Seq<char>) -> Seq<u8> {
    encode_utf8(dataset_id).push(SEPARATOR)
}

/// The key of an item.
pub open spec fn item_key(dataset_id: Seq<char>, item_id: Seq<char>) -> Seq<u8> {
    item_prefix(dataset_id) + encode_utf8(item_id)
}

/// The UTF-8 bytes of two texts joined are the bytes of the first
/// followed by those of the second.
pub proof fn lemma_encode_joined(a: Seq<char>, b: Seq<char>)
    ensures
        encode_utf8(a + b) == encode_utf8(a) + encode_utf8(b),
    decreases a.len(),
{
    if a.len() == 0 {
        assert(a + b =~= b);
        assert(encode_utf8(a) + encode_utf8(b) =~= encode_utf8(b));
    } else {
        assert((a + b).drop_first() =~= a.drop_first() + b);
        lemma_encode_joined(a.drop_first(), b);
        assert(encode_utf8(a + b) =~= encode_utf8(a) + encode_utf8(b));
    }
}

/// Two texts with the same UTF-8 bytes are the same text.
pub proof fn lemma_text_key_injective(a: Seq<char>, b: Seq<char>)
    requires
        text_key(a) == text_key(b),
    ensures
        a == b,
{
    encode_utf8_decode_utf8(a);
    encode_utf8_decode_utf8(b);
}

/// An item's key is the UTF-8 text of the dataset's id, a colon, and the
/// item's id.
pub proof fn law_item_key_is_text(dataset_id: Seq<char>, item_id: Seq<char>)
    ensures
        item_key(dataset_id, item_id) == encode_utf8(dataset_id + seq![':'] + item_id),
{
    let colon = seq![':'];
    assert(encode_utf8(colon) =~= seq![SEPARATOR]) by {
        assert(colon.drop_first() =~= Seq::<char>::empty());
        assert(encode_utf8(colon) =~= encode_scalar(':' as u32) + encode_utf8(
            Seq::<char>::empty(),
        ));
        assert(':' as u32 == 0x3au32);
        assert((0x3au32 & 0x7F) as u8 == 0x3au8) by (bit_vector);
    }
    lemma_encode_joined(dataset_id, colon);
    lemma_encode_joined(dataset_id + colon, item_id);
    assert(encode_utf8(dataset_id) + seq![SEPARATOR] =~= item_prefix(dataset_id));
}

/// The key of each item of a dataset starts with the prefix of that
/// dataset.
pub proof fn law_item_key_has_prefix(dataset_id: Seq<char>, item_id: Seq<char>)
    ensures
        item_prefix(dataset_id).is_prefix_of(item_key(dataset_id, item_id)),
{
}

/// Where the ids of two datasets have UTF-8 forms of one length, as ids
/// of one fixed width have, no key of an item of the one starts with the
/// prefix of the other.
pub proof fn law_prefixes_apart(a: Seq<char>, b: Seq<char>, item_id: Seq<char>)
    requires
        a != b,
        text_key(a).len() == text_key(b).len(),
    ensures
        !item_prefix(a).is_prefix_of(item_key(b, item_id)),
{
    if item_prefix(a).is_prefix_of(item_key(b, item_id)) {
        let k = item_key(b, item_id);
        let n = text_key(a).len() as int;
        assert forall|i: int| 0 <= i < n implies text_key(a)[i] == text_key(b)[i] by {
            assert(item_prefix(a)[i] == k[i]);
        }
        assert(text_key(a) =~= text_key(b));
        lemma_text_key_injective(a, b);
    }
}

/// Adds the bytes of `more` to the end of `bytes`.
fn append_bytes(bytes: &mut Vec<u8>, more: &[u8])
    ensures
        final(bytes)@ == old(bytes)@ + more@,
{
    let mut i: usize = 0;
    while i < more.len()
        invariant
            i <= more.len(),
            bytes@ == old(bytes)@ + more@.take(i as int),
        decreases more.len() - i,
    {
        bytes.push(more[i]);
        i = i + 1;
        assert(more@.take(i as int) =~= more@.take(i - 1).push(more@[i - 1]));
    }
    assert(more@.take(more.len() as int) =~= more@);
}

/// The prefix of the keys of a dataset's items.
pub fn make_item_prefix(dataset_id: &str) -> (prefix: Vec<u8>)
    ensures
        prefix@ == item_prefix(dataset_id@),
{
    let mut prefix: Vec<u8> = Vec::new();
    append_bytes(&mut prefix, dataset_id.as_bytes());
    prefix.push(SEPARATOR);
    assert(prefix@ =~= item_prefix(dataset_id@));
    prefix
}

/// The key of an item.
pub fn make_item_key(dataset_id: &str, item_id: &str) -> (key: Vec<u8>)
    ensures
        key@ == item_key(dataset_id@, item_id@),
{
    let mut key = make_item_prefix(dataset_id);
    append_bytes(&mut key, item_id.as_bytes());
    key
}

} // verus!
