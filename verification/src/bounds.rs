//! Sizes and places on a grid.

use vstd::prelude::*;

verus! {

/// A width and a height.
pub struct Bounds(pub usize, pub usize);

/// A place: so far to the right, so far up.
pub struct Point {
    pub x: u8,
    pub y: u8,
}

} // verus!
