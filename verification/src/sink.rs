//! A writer that takes everything and keeps nothing.

use vstd::prelude::*;

verus! {

/// `std::io::Error`: the failure that a writer may report.
#[verifier::external_type_specification]
#[verifier::external_body]
pub struct ExIoError(std::io::Error);

/// A writer that takes everything and keeps nothing.
pub struct Sink;

/// Things that can say whether they are an emoji.
pub trait IsEmoji {
    fn is_emoji(&self) -> bool;
}

impl std::io::Write for Sink {
    fn write(&mut self, buf: &[u8]) -> (r: Result<usize, std::io::Error>)
        ensures
            r matches Ok(n) && n == buf@.len(),
    {
        Ok(buf.len())
    }

    fn flush(&mut self) -> (r: Result<(), std::io::Error>)
        ensures
            r is Ok,
    {
        Ok(())
    }
}

impl IsEmoji for Sink {
    fn is_emoji(&self) -> (r: bool)
        ensures
            r,
    {
        true
    }
}

} // verus!
