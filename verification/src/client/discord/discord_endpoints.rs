//! The first endpoint the chat view read: the friend list.

use vstd::prelude::*;

verus! {

pub const FRIENDLIST_URL: &'static str = "https://discord.com/api/v9/users/@me/relationships";

pub enum ApiEndpoints {
    FriendList,
}

impl ApiEndpoints {
    pub fn get_url(&self) -> (r: &'static str)
        ensures
            r@ == "https://discord.com/api/v9/users/@me/relationships"@,
    {
        match self {
            ApiEndpoints::FriendList => "https://discord.com/api/v9/users/@me/relationships",
        }
    }
}

} // verus!
