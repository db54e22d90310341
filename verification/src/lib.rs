//! An embedded store of datasets and their items on an ordered, durable
//! key-value engine, with the state of a small terminal front end.
//!
//! The store is [`database::DatasetDb`]. What it holds is a
//! [`model::StoreState`]; for each operation a relation in [`model`] says
//! which results and next states are possible, and [`laws`] holds what
//! follows for the operations taken together. The records and their
//! binary form are in [`record`] and [`codec`], the keys in [`keys`] and
//! their order in [`lexical`]. The calls into other crates stand in
//! [`engine`], [`codec`], [`ident`], [`clock`] and [`fakes`], each with
//! what is believed of it.
//!
//! The front end is [`front`], over the types of [`models`].

pub mod bounds;
pub mod clock;
pub mod codec;
pub mod complex;
pub mod conf;
pub mod database;
pub mod engine;
pub mod error;
pub mod fakes;
pub mod front;
pub mod ident;
pub mod keys;
pub mod laws;
pub mod lexical;
pub mod model;
pub mod models;
pub mod record;
pub mod rule;
pub mod sink;
