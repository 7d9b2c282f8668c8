//! The settings of one server.

use vstd::prelude::*;

verus! {

/// What a server is started with.
#[derive(Debug, PartialEq, Eq)]
pub struct Config {
    /// Where the durable store is reached.
    pub database_url: String,
    /// The origin of the web client, the only one allowed to call.
    pub front_url: String,
    /// The secret under which session tokens are signed.
    pub secret: String,
    /// Whether cookies are restricted to HTTPS.
    pub is_prod: bool,
}

} // verus!
