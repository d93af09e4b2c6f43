//! The application's configuration: the connections it offers.
use vstd::prelude::*;
use crate::db::connection::ConnectionConfig;

verus! {

/// The configured connections.
pub struct Config {
    pub conn: Vec<ConnectionConfig>,
}

impl Default for Config {
    /// No connection.
    fn default() -> (c: Self)
        ensures
            c.conn@.len() == 0,
    {
        Config { conn: Vec::new() }
    }
}

} // verus!
