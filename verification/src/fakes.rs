//! Values made up at random, for the previews of the front end.

use fake::Fake;
use vstd::prelude::*;

verus! {

/// `fake::Fake::fake` on `fake::Faker`, asked for a `String`: a text made
/// up at random. Nothing is claimed of it.
#[verifier::external_body]
pub(crate) fn fake_text() -> String {
    fake::Faker.fake::<String>()
}

/// `fake::Fake::fake` on `fake::Faker`, asked for a `u8`: a number made
/// up at random. Nothing is claimed of it.
#[verifier::external_body]
pub(crate) fn fake_number() -> u8 {
    fake::Faker.fake::<u8>()
}

} // verus!
