//! The failures that the store reports.

use vstd::prelude::*;

verus! {

/// Why a store operation did not succeed.
#[derive(Debug, Clone, Copy, PartialEq, Eq, Structural)]
pub enum StoreError {
    /// The engine could not be opened, or failed during an operation.
    StorageUnavailable,
    /// A dataset with this name exists already.
    DuplicateName,
    /// No such dataset, or no such item.
    NotFound,
    /// Stored bytes are not a record.
    CorruptRecord,
}

} // verus!
