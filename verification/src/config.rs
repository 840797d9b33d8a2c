//! Runtime configuration, handed to the core as plain values.
//!
//! Reading the command line is the front end's business; the core only
//! keeps what it was given.

use vstd::prelude::*;

verus! {

/// What the bridge needs to run: the upstream console connection string
/// (which embeds a credential, so it is never echoed back).
pub struct Config {
    pub rcon_connection: String,
}

impl Config {
    /// Builds the configuration from the connection string the front end
    /// read.
    pub fn get(rcon_connection: String) -> (c: Config)
        ensures
            c.rcon_connection@ == rcon_connection@,
    {
        Config { rcon_connection }
    }
}

} // verus!
