//! The pages of the desktop front end and the messages they answer.

use vstd::prelude::*;

pub mod chat;
pub mod login;

use chat::Message as MessangerMessage;
use login::Message as LoginMessage;

verus! {

/// A message to one of the pages.
#[derive(Debug)]
pub enum MyAppMessage {
    Login(LoginMessage),
    Chat(MessangerMessage),
}

} // verus!
