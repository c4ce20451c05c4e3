//! The Discord adaptor.

use vstd::prelude::*;

pub mod json_structs;
pub mod rest_api;

use json_structs::Channel;

verus! {

/// A signed-in Discord account and the private channels last fetched for it.
pub struct Discord {
    pub token: String,
    pub dms: Vec<Channel>,
}

impl Discord {
    pub fn new(token: &str) -> (r: Discord)
        ensures
            r.token@ == token@,
            r.dms@.len() == 0,
    {
        Discord { token: token.to_owned(), dms: Vec::new() }
    }

    /// The platform's name.
    pub fn name(&self) -> (r: String)
        ensures
            r@ == "Discord"@,
    {
        String::from_str("Discord")
    }

    /// The credential the account signs in with.
    pub fn auth(&self) -> (r: String)
        ensures
            r == self.token,
    {
        self.token.clone()
    }
}

} // verus!
