//! The rules by which values of each kind are made up.

use vstd::prelude::*;

verus! {

/// The rules of all kinds; a kind without a rule is `None`.
#[derive(Debug)]
pub struct AllRules {
    pub number: Option<NumberRule>,
    pub string: Option<StringRule>,
    pub date: Option<DateRule>,
    pub timestamp: Option<TimestampRule>,
}

/// Numbers between two bounds.
#[derive(Debug)]
pub struct NumberRule {
    pub title: String,
    pub default: String,
    pub min: i64,
    pub max: i64,
}

/// Strings drawn from a pool of a given size.
#[derive(Debug)]
pub struct StringRule {
    pub title: String,
    pub default: String,
    pub pool_size: usize,
}

/// Dates.
#[derive(Debug)]
pub struct DateRule {
    pub title: String,
    pub default: String,
}

/// Instants.
#[derive(Debug)]
pub struct TimestampRule {
    pub title: String,
    pub default: String,
}

} // verus!
