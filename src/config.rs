use vstd::prelude::*;

verus! {

/// The settings the program starts from.
pub struct Config {
    pub database: DatabaseConfig,
}

/// Where the database is and how many connections to it may be open.
pub struct DatabaseConfig {
    pub url: String,
    pub max_connections: u32,
}

} // verus!
