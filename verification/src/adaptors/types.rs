//! Platform-neutral chat data: places that hold messages, users, messages.

use vstd::prelude::*;

verus! {

/// A place that holds messages: a conversation or a guild.
#[derive(Debug)]
pub struct MsgsStore {
    /// The platform's id of the place.
    pub id: String,
    pub name: String,
    /// Where the icon was cached, if it was.
    pub icon: Option<String>,
}

impl Clone for MsgsStore {
    fn clone(&self) -> (r: Self)
        ensures
            r == *self,
    {
        MsgsStore { id: self.id.clone(), name: self.name.clone(), icon: self.icon.clone() }
    }
}

/// A user of a platform.
#[derive(Debug)]
pub struct User {
    pub id: String,
    pub username: String,
}

impl Clone for User {
    fn clone(&self) -> (r: Self)
        ensures
            r == *self,
    {
        User { id: self.id.clone(), username: self.username.clone() }
    }
}

/// A chat message.
#[derive(Debug)]
pub struct Message {
    pub id: String,
    pub sender: User,
    pub text: String,
}

} // verus!
