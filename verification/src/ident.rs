//! Fresh identifiers: random UUIDs in their usual written form.

use vstd::prelude::*;
use vstd::utf8::*;

verus! {

/// A digit to base 16, in lower case.
pub open spec fn is_hex_digit(c: char) -> bool {
    ('0' <= c && c <= '9') || ('a' <= c && c <= 'f')
}

/// Whether the text has the shape of a written UUID: 36 characters,
/// hyphens after the 8th, 12th, 16th and 20th digit, and digits to base
/// 16 in lower case everywhere else.
pub open spec fn is_uuid_text(s: Seq<char>) -> bool {
    &&& s.len() == 36
    &&& forall|i: int|
        0 <= i < 36 ==> if i == 8 || i == 13 || i == 18 || i == 23 {
            #[trigger] s[i] == '-'
        } else {
            is_hex_digit(s[i])
        }
}

/// `uuid::Uuid::new_v4`, written with `to_string`. Which UUID comes is a
/// matter of chance; its written shape is not.
#[verifier::external_body]
pub(crate) fn fresh_id() -> (id: String)
    ensures
        is_uuid_text(id@),
{
    uuid::Uuid::new_v4().to_string()
}

/// A written UUID takes 36 bytes as a key.
pub proof fn lemma_uuid_text_key_len(s: Seq<char>)
    requires
        is_uuid_text(s),
    ensures
        encode_utf8(s).len() == 36,
{
    assert(is_ascii_chars(s)) by {
        assert forall|i: int| 0 <= i < s.len() implies '\0' <= #[trigger] s[i] <= '\x7f' by {
            assert(s[i] == '-' || is_hex_digit(s[i]));
        }
    }
    is_ascii_chars_encode_utf8(s);
}

} // verus!
