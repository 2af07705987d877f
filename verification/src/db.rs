//! Database connection settings (the pool itself lives with the adapter
//! that owns the connection).

use vstd::prelude::*;

verus! {

/// Configuration for the database connection; the timeout is in seconds.
#[derive(Debug, Clone)]
pub struct DatabaseConfig {
    pub url: String,
    pub max_connections: u32,
    pub min_connections: u32,
    pub acquire_timeout_secs: u64,
}

impl Default for DatabaseConfig {
    /// A local SQLite file with a small pool.
    fn default() -> (r: Self)
        ensures
            r.url@ == "sqlite:data.db?mode=rwc"@,
            r.max_connections == 5,
            r.min_connections == 1,
            r.acquire_timeout_secs == 5,
    {
        DatabaseConfig {
            url: String::from_str("sqlite:data.db?mode=rwc"),
            max_connections: 5,
            min_connections: 1,
            acquire_timeout_secs: 5,
        }
    }
}

impl DatabaseConfig {
    /// The default settings pointed at the given url.
    pub fn new(url: &str) -> (r: Self)
        ensures
            r.url@ == url@,
            r.max_connections == 5,
            r.min_connections == 1,
            r.acquire_timeout_secs == 5,
    {
        DatabaseConfig {
            url: String::from_str(url),
            max_connections: 5,
            min_connections: 1,
            acquire_timeout_secs: 5,
        }
    }

    /// An in-memory SQLite database; in-memory SQLite is single-connection.
    pub fn in_memory() -> (r: Self)
        ensures
            r.url@ == "sqlite::memory:"@,
            r.max_connections == 1,
            r.min_connections == 1,
            r.acquire_timeout_secs == 5,
    {
        DatabaseConfig {
            url: String::from_str("sqlite::memory:"),
            max_connections: 1,
            min_connections: 1,
            acquire_timeout_secs: 5,
        }
    }
}

} // verus!
