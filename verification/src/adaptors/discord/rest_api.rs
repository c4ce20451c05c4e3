//! The Discord REST requests of the adaptor and what it makes of the answers.

use vstd::prelude::*;

use crate::adaptors::network::CacheDownload;
use crate::adaptors::types::{Message as GlobalMessage, MsgsStore, User};

use super::json_structs::{is_conversation_of, message_of, user_of_friend, Channel, Friend, Guild, Message};
use super::Discord;

verus! {

/// The signed-in user's profile.
pub fn profile_url() -> (r: &'static str)
    ensures
        r@ == "https://discord.com/api/v9/users/@me"@,
{
    "https://discord.com/api/v9/users/@me"
}

/// The signed-in user's relationships.
pub fn contacts_url() -> (r: &'static str)
    ensures
        r@ == "https://discord.com/api/v9/users/@me/relationships"@,
{
    "https://discord.com/api/v9/users/@me/relationships"
}

/// The signed-in user's private channels.
pub fn conversations_url() -> (r: &'static str)
    ensures
        r@ == "https://discord.com/api/v10/users/@me/channels"@,
{
    "https://discord.com/api/v10/users/@me/channels"
}

/// The guilds the signed-in user is in.
pub fn guilds_url() -> (r: &'static str)
    ensures
        r@ == "https://discord.com/api/v10/users/@me/guilds"@,
{
    "https://discord.com/api/v10/users/@me/guilds"
}

/// Where a guild's icon is fetched from.
pub open spec fn guild_icon_url(id: Seq<char>, hash: Seq<char>) -> Seq<char> {
    "https://cdn.discordapp.com/icons/"@ + id + "/"@ + hash + ".webp?size=80&quality=lossless"@
}

/// The directory a guild's icon is cached in.
pub open spec fn guild_icon_dir(id: Seq<char>) -> Seq<char> {
    "./cache/discord/guilds/"@ + id + "/imgs/"@
}

/// The file name a guild's icon is cached under.
pub open spec fn guild_icon_file(hash: Seq<char>) -> Seq<char> {
    hash + ".webp"@
}

/// The messages of a channel, before a given message when one is given.
pub open spec fn messages_url_spec(channel_id: Seq<char>, before: Option<Seq<char>>) -> Seq<char> {
    "https://discord.com/api/v10/channels/"@ + channel_id + "/messages"@ + match before {
        Some(id) => "?"@ + id,
        None => Seq::<char>::empty(),
    }
}

impl Discord {
    /// The headers every request of the account carries.
    pub fn get_auth_header(&self) -> (r: Vec<(&'static str, String)>)
        ensures
            r@.len() == 1,
            r@[0].0@ == "Authorization"@,
            r@[0].1 == self.token,
    {
        let mut v = Vec::new();
        v.push(("Authorization", self.token.clone()));
        v
    }

    /// The contacts of the account, from its relationships.
    pub fn contacts_from(friends: &Vec<Friend>) -> (r: Vec<User>)
        ensures
            r@.len() == friends@.len(),
            forall|i: int|
                0 <= i < r@.len() ==> #[trigger] r@[i] == user_of_friend(friends@[i]),
    {
        let mut r: Vec<User> = Vec::new();
        for i in 0..friends.len()
            invariant
                r@.len() == i,
                forall|j: int|
                    0 <= j < i ==> #[trigger] r@[j] == user_of_friend(friends@[j]),
        {
            let f = friends[i].clone();
            r.push(f.into());
        }
        r
    }

    /// Takes in the private channels just fetched: they become the account's
    /// known channels, and are listed as conversations in the same order.
    pub fn store_conversations(&mut self, channels: Vec<Channel>) -> (r: Vec<MsgsStore>)
        ensures
            final(self).token == old(self).token,
            final(self).dms@ == channels@,
            r@.len() == channels@.len(),
            forall|i: int| 0 <= i < r@.len() ==> is_conversation_of(#[trigger] r@[i], channels@[i]),
    {
        let mut r: Vec<MsgsStore> = Vec::new();
        for i in 0..channels.len()
            invariant
                r@.len() == i,
                forall|j: int| 0 <= j < i ==> is_conversation_of(#[trigger] r@[j], channels@[j]),
        {
            r.push(MsgsStore::from_channel(&channels[i]));
        }
        self.dms = channels;
        r
    }

    /// The icon download a guild asks for: none when it has no icon.
    pub fn guild_icon_download(g: &Guild) -> (r: Option<CacheDownload>)
        ensures
            r is Some <==> g.icon is Some,
            r matches Some(d) ==> {
                &&& d.url@ == guild_icon_url(g.id@, g.icon->0@)
                &&& d.dir@ == guild_icon_dir(g.id@)
                &&& d.file_name@ == guild_icon_file(g.icon->0@)
            },
    {
        match &g.icon {
            None => None,
            Some(hash) => {
                let mut url = String::from_str("https://cdn.discordapp.com/icons/");
                url.append(g.id.as_str());
                url.append("/");
                url.append(hash.as_str());
                url.append(".webp?size=80&quality=lossless");
                let mut dir = String::from_str("./cache/discord/guilds/");
                dir.append(g.id.as_str());
                dir.append("/imgs/");
                let mut file_name = hash.clone();
                file_name.append(".webp");
                Some(CacheDownload { url, dir, file_name })
            },
        }
    }

    /// The guild as a place of messages; `cached` is where its icon download
    /// left the icon, or nothing when the download failed.
    pub fn guild_store(g: &Guild, cached: Option<String>) -> (r: MsgsStore)
        ensures
            r.id == g.id,
            r.name == g.name,
            r.icon == (if g.icon is Some { cached } else { None }),
    {
        match &g.icon {
            None => MsgsStore { id: g.id.clone(), name: g.name.clone(), icon: None },
            Some(_) => MsgsStore { id: g.id.clone(), name: g.name.clone(), icon: cached },
        }
    }

    /// Where the messages of `msgs_location` are fetched from; with a message
    /// to load from, only those before it.
    pub fn messages_url(msgs_location: &MsgsStore, load_from_msg: &Option<GlobalMessage>) -> (r: String)
        ensures
            r@ == messages_url_spec(
                msgs_location.id@,
                match load_from_msg {
                    Some(m) => Some(m.id@),
                    None => None,
                },
            ),
    {
        let mut url = String::from_str("https://discord.com/api/v10/channels/");
        url.append(msgs_location.id.as_str());
        url.append("/messages");
        match load_from_msg {
            Some(m) => {
                url.append("?");
                url.append(m.id.as_str());
            },
            None => {},
        }
        url
    }

    /// The fetched messages in the platform-neutral form, in order.
    pub fn messages_from(messages: &Vec<Message>) -> (r: Vec<GlobalMessage>)
        ensures
            r@.len() == messages@.len(),
            forall|i: int|
                0 <= i < r@.len() ==> #[trigger] r@[i] == message_of(messages@[i]),
    {
        let mut r: Vec<GlobalMessage> = Vec::new();
        for i in 0..messages.len()
            invariant
                r@.len() == i,
                forall|j: int|
                    0 <= j < i ==> #[trigger] r@[j] == message_of(messages@[j]),
        {
            r.push((&messages[i]).into());
        }
        r
    }
}

} // verus!
