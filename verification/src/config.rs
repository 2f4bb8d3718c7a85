//! What the user sets once: the keys to the two services.

use vstd::prelude::*;

verus! {

/// The configuration of the tool.
#[derive(Debug, Clone)]
pub struct Config {
    /// The key for the video platform's data service.
    pub google_api_key: String,
    pub statink: StatInk,
}

/// The user's account at the record store.
#[derive(Debug, Clone)]
pub struct StatInk {
    pub username: String,
    /// The value of the cookie that identifies the user.
    pub identity_cookie: String,
}

impl Default for StatInk {
    /// An account with nothing filled in.
    fn default() -> (account: StatInk)
        ensures
            account.username@.len() == 0,
            account.identity_cookie@.len() == 0,
    {
        StatInk { username: String::new(), identity_cookie: String::new() }
    }
}

impl Default for Config {
    /// A configuration with nothing filled in.
    fn default() -> (config: Config)
        ensures
            config.google_api_key@.len() == 0,
            config.statink.username@.len() == 0,
            config.statink.identity_cookie@.len() == 0,
    {
        Config { google_api_key: String::new(), statink: StatInk::default() }
    }
}

} // verus!
