//! The Discord requests of the client.

use vstd::prelude::*;

use crate::client::auth::Auth;

verus! {

/// The Discord backend of a sign-in.
pub struct Discord<'a> {
    pub auth: &'a Auth,
}

impl<'a> Discord<'a> {
    /// The sign-in the backend works for.
    pub fn recover_auth(&self) -> (r: &Auth)
        ensures
            r == self.auth,
    {
        self.auth
    }
}

} // verus!

verus! {

/// The signed-in user's relationships.
pub fn contacts_url() -> (r: &'static str)
    ensures
        r@ == "https://discord.com/api/v9/users/@me/relationships"@,
{
    "https://discord.com/api/v9/users/@me/relationships"
}

/// The signed-in user's private channels.
pub fn conversations_url() -> (r: &'static str)
    ensures
        r@ == "https://discord.com/api/v10/users/@me/channels"@,
{
    "https://discord.com/api/v10/users/@me/channels"
}

/// The signed-in user's profile.
pub fn profile_url() -> (r: &'static str)
    ensures
        r@ == "https://discord.com/api/v9/users/@me"@,
{
    "https://discord.com/api/v9/users/@me"
}

impl<'a> Discord<'a> {
    /// The headers every request of the sign-in carries: its token, in clear.
    pub fn auth_header(&self) -> (r: Vec<(&'static str, String)>)
        ensures
            r@.len() == 1,
            r@[0].0@ == "Authorization"@,
            r@[0].1@ == crate::client::auth::secret_text(self.auth.token),
    {
        let mut v = Vec::new();
        v.push(("Authorization", self.auth.token_text()));
        v
    }
}

/// Which messages to fetch: the channel, how many, and the message to load
/// before, if any.
#[derive(Debug)]
pub struct MessageOrigin {
    pub channel_id: String,
    pub message_limit: String,
    pub load_from_message: Option<String>,
}

/// Where the messages of an origin are fetched from.
pub open spec fn origin_url(channel_id: Seq<char>, limit: Seq<char>, before: Option<Seq<char>>) -> Seq<char> {
    "https://discord.com/api/v9/channels/"@ + channel_id + "/messages?"@ + match before {
        Some(b) => "before="@ + b + "&"@,
        None => Seq::<char>::empty(),
    } + "limit="@ + limit
}

impl MessageOrigin {
    /// The address the messages are fetched from.
    pub fn messages_url(&self) -> (r: String)
        ensures
            r@ == origin_url(
                self.channel_id@,
                self.message_limit@,
                match self.load_from_message {
                    Some(b) => Some(b@),
                    None => None,
                },
            ),
    {
        let mut url = String::from_str("https://discord.com/api/v9/channels/");
        url.append(self.channel_id.as_str());
        url.append("/messages?");
        match &self.load_from_message {
            Some(b) => {
                url.append("before=");
                url.append(b.as_str());
                url.append("&");
            },
            None => {},
        }
        url.append("limit=");
        url.append(self.message_limit.as_str());
        url
    }
}

} // verus!
