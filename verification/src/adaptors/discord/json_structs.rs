//! The shapes of what the Discord REST API answers, as far as the adaptor
//! reads them, and their conversions into the platform-neutral types.

use vstd::prelude::*;
use vstd::std_specs::convert::FromSpecImpl;

use crate::adaptors::types::{Message as GlobalMessage, MsgsStore, User as GlobalUser};

verus! {

// === Users ===

/// The signed-in user (`/users/@me`).
pub struct Profile {
    pub id: String,
    pub username: String,
}

impl From<Profile> for GlobalUser {
    fn from(val: Profile) -> (r: Self) {
        GlobalUser { id: val.id, username: val.username }
    }
}

impl FromSpecImpl<Profile> for GlobalUser {
    open spec fn obeys_from_spec() -> bool {
        true
    }

    open spec fn from_spec(val: Profile) -> GlobalUser {
        GlobalUser { id: val.id, username: val.username }
    }
}

/// A user as embedded in friends and messages.
#[derive(Debug)]
pub struct User {
    pub id: String,
    pub username: String,
}

impl Clone for User {
    fn clone(&self) -> (r: Self)
        ensures
            r == *self,
    {
        User { id: self.id.clone(), username: self.username.clone() }
    }
}

impl<'a> From<&'a User> for GlobalUser {
    fn from(val: &'a User) -> (r: Self) {
        GlobalUser { id: val.id.clone(), username: val.username.clone() }
    }
}

impl<'a> FromSpecImpl<&'a User> for GlobalUser {
    open spec fn obeys_from_spec() -> bool {
        true
    }

    open spec fn from_spec(val: &'a User) -> GlobalUser {
        GlobalUser { id: val.id, username: val.username }
    }
}

/// A relationship (`/users/@me/relationships`).
#[derive(Debug)]
pub struct Friend {
    /// The relationship's id.
    pub id: String,
    pub user: User,
}

impl Clone for Friend {
    fn clone(&self) -> (r: Self)
        ensures
            r == *self,
    {
        Friend { id: self.id.clone(), user: self.user.clone() }
    }
}

impl From<Friend> for GlobalUser {
    fn from(val: Friend) -> (r: Self) {
        GlobalUser { id: val.id.clone(), username: val.user.username.clone() }
    }
}

impl FromSpecImpl<Friend> for GlobalUser {
    open spec fn obeys_from_spec() -> bool {
        true
    }

    open spec fn from_spec(val: Friend) -> GlobalUser {
        user_of_friend(val)
    }
}

/// The user a relationship is listed as: it carries the relationship's id
/// and the friend's username.
pub open spec fn user_of_friend(f: Friend) -> GlobalUser {
    GlobalUser { id: f.id, username: f.user.username }
}

/// A member of a private channel.
#[derive(Debug)]
pub struct Recipient {
    pub username: String,
}

impl Clone for Recipient {
    fn clone(&self) -> (r: Self)
        ensures
            r == *self,
    {
        Recipient { username: self.username.clone() }
    }
}

// === Channels ===

/// The kinds of channel Discord numbers 0 to 12.
#[derive(Debug, Clone, Copy, PartialEq, Eq, Structural)]
pub enum ChannelTypes {
    GuildText,
    DM,
    GuildVoice,
    GroupDM,
    GuildCategory,
    GuildAnnouncement,
    AnnouncementThread,
    PublicThread,
    PrivateThread,
    GuildStageVoice,
    GuildDirectory,
    GuildForum,
    GuildMedia,
}

/// A private channel (`/users/@me/channels`).
#[derive(Debug)]
pub struct Channel {
    pub id: String,
    pub last_message_id: String,
    pub name: Option<String>,
    pub recipients: Vec<Recipient>,
}

impl Clone for Channel {
    fn clone(&self) -> (r: Self)
        ensures
            r.id == self.id,
            r.last_message_id == self.last_message_id,
            r.name == self.name,
            r.recipients@ == self.recipients@,
    {
        let mut recipients: Vec<Recipient> = Vec::new();
        for i in 0..self.recipients.len()
            invariant
                recipients@ == self.recipients@.take(i as int),
        {
            recipients.push(self.recipients[i].clone());
            assert(recipients@ =~= self.recipients@.take(i + 1));
        }
        assert(recipients@ =~= self.recipients@);
        Channel {
            id: self.id.clone(),
            last_message_id: self.last_message_id.clone(),
            name: self.name.clone(),
            recipients,
        }
    }
}

/// The name a conversation is listed under: the channel's own name, else its
/// first member's username, else a placeholder.
pub open spec fn conversation_name(c: Channel) -> Seq<char> {
    match c.name {
        Some(n) => n@,
        None => if c.recipients.len() > 0 {
            c.recipients@[0].username@
        } else {
            "Fix later"@
        },
    }
}

/// `m` is the conversation that `c` is listed as.
pub open spec fn is_conversation_of(m: MsgsStore, c: Channel) -> bool {
    &&& m.id == c.id
    &&& m.name@ == conversation_name(c)
    &&& m.icon is None
}

impl MsgsStore {
    /// The conversation a private channel is listed as.
    pub fn from_channel(val: &Channel) -> (r: MsgsStore)
        ensures
            is_conversation_of(r, *val),
            r.id == val.id,
            val.name matches Some(n) ==> r.name@ == n@,
            val.name is None && val.recipients@.len() > 0 ==> r.name@ == val.recipients@[0].username@,
            val.name is None && val.recipients@.len() == 0 ==> r.name@ == "Fix later"@,
    {
        let name = match &val.name {
            Some(n) => n.clone(),
            None => if val.recipients.len() > 0 {
                val.recipients[0].username.clone()
            } else {
                String::from_str("Fix later")
            },
        };
        MsgsStore { id: val.id.clone(), name, icon: None }
    }
}

/// The split of a reaction count (read but unused).
#[derive(Debug)]
pub struct CountDetails {}

/// A reaction's emoji (read but unused).
#[derive(Debug)]
pub struct Emoji {}

/// A reaction on a message (read but unused).
#[derive(Debug)]
pub struct Reaction {}

/// A message of a channel (`/channels/{id}/messages`).
#[derive(Debug)]
pub struct Message {
    pub author: User,
    pub content: String,
    pub id: String,
}

impl<'a> From<&'a Message> for GlobalMessage {
    fn from(value: &'a Message) -> (r: Self) {
        GlobalMessage { id: value.id.clone(), sender: (&value.author).into(), text: value.content.clone() }
    }
}

impl<'a> FromSpecImpl<&'a Message> for GlobalMessage {
    open spec fn obeys_from_spec() -> bool {
        true
    }

    open spec fn from_spec(value: &'a Message) -> GlobalMessage {
        message_of(*value)
    }
}

/// The platform-neutral form of a fetched message.
pub open spec fn message_of(m: Message) -> GlobalMessage {
    GlobalMessage {
        id: m.id,
        sender: GlobalUser { id: m.author.id, username: m.author.username },
        text: m.content,
    }
}

/// A guild the user is in (`/users/@me/guilds`).
#[derive(Debug)]
pub struct Guild {
    pub id: String,
    pub name: String,
    /// The hash of the guild's icon, if it has one.
    pub icon: Option<String>,
}

impl Clone for Guild {
    fn clone(&self) -> (r: Self)
        ensures
            r == *self,
    {
        Guild { id: self.id.clone(), name: self.name.clone(), icon: self.icon.clone() }
    }
}

impl<'a> From<&'a Guild> for MsgsStore {
    fn from(g: &'a Guild) -> (r: MsgsStore) {
        MsgsStore { id: g.id.clone(), name: g.name.clone(), icon: None }
    }
}

impl<'a> FromSpecImpl<&'a Guild> for MsgsStore {
    open spec fn obeys_from_spec() -> bool {
        true
    }

    open spec fn from_spec(g: &'a Guild) -> MsgsStore {
        MsgsStore { id: g.id, name: g.name, icon: None }
    }
}

/// How a private channel is named as a conversation: by its own name when it
/// has one; else by its first member's username, whatever the number of
/// members; the placeholder only when it has no member at all.
pub proof fn lemma_conversation_named(m: MsgsStore, c: Channel)
    requires
        is_conversation_of(m, c),
    ensures
        m.id == c.id,
        m.icon is None,
        c.name matches Some(n) ==> m.name@ == n@,
        c.name is None && c.recipients@.len() > 0 ==> m.name@ == c.recipients@[0].username@,
        c.name is None && c.recipients@.len() == 0 ==> m.name@ == "Fix later"@,
{
}

/// A member's name names each channel that has no name of its own in the
/// same way, whoever else is in it: the members after the first play no part.
pub proof fn lemma_conversation_name_first_member(c: Channel, d: Channel)
    requires
        c.name is None,
        d.name is None,
        c.recipients@.len() > 0,
        d.recipients@.len() > 0,
        c.recipients@[0].username@ == d.recipients@[0].username@,
    ensures
        conversation_name(c) == conversation_name(d),
        conversation_name(c) == c.recipients@[0].username@,
{
}

} // verus!
