//! The settings of the serving side.

use vstd::prelude::*;

verus! {

/// All settings.
#[derive(Debug)]
pub struct Config {
    pub server: Server,
    pub database: Database,
}

/// Where the server listens, and with how many workers.
#[derive(Debug)]
pub struct Server {
    pub host: String,
    pub port: u16,
    pub workers: Option<u8>,
}

/// Where the relational database is, and how many connections are kept
/// to it.
#[derive(Debug)]
pub struct Database {
    pub url: String,
    pub pool_size: u32,
}

} // verus!
