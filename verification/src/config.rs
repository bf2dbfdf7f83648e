//! What the service is set up with.

use vstd::prelude::*;

verus! {

/// The settings of the service.
#[derive(Debug)]
pub struct Config {
    /// The token the service signs in with.
    pub token: String,
    /// The identifier of the application.
    pub id: u64,
    /// The key under which the records are sealed.
    pub key: String,
    /// The number of connections to open.
    pub shards: u64,
    /// Where the records are stored.
    pub db: String,
    pub infos: Infos,
}

/// How the service presents itself.
#[derive(Debug)]
pub struct Infos {
    pub name: String,
    /// What a command begins with.
    pub prefix: String,
}

} // verus!
