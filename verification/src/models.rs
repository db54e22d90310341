//! What the terminal front end shows.

use vstd::prelude::*;

verus! {

/// A dataset as the front end lists it: a name and the names of its
/// fields.
#[derive(Clone)]
pub struct Dataset {
    pub name: String,
    pub fields: Vec<String>,
}

/// The two tabs.
#[derive(PartialEq, Eq, Structural)]
pub enum AppTab {
    Database,
    Dataset,
}

/// What the keys mean at the moment.
pub enum Mode {
    /// Moving about the lists.
    Normal,
    /// Typing the name of a new dataset.
    Creating,
    /// Looking at rows made up for a dataset.
    Preview(Vec<String>),
}

} // verus!
