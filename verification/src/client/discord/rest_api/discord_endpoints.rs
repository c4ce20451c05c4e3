//! The endpoints of the GTK chat view: where each one is, how it is asked,
//! and what it answers.

use vstd::prelude::*;

use crate::text::{decimal, push_decimal};

verus! {

/// The gateway the chat view's websocket connects to.
pub const DISCORD_GATEWAY: &'static str = "wss://gateway.discord.gg/?v=10&encoding=json";

/// The REST endpoints of the chat view.
#[derive(Debug)]
pub enum ApiEndpoints {
    FriendList,
    /// The private channels; with a user id, the one opened with that user.
    GetChannels(Option<String>),
    /// A channel's messages: channel id, the message to load before, how many.
    GetMessages(String, Option<String>, u32),
    GetUser,
}

/// The shape of what an endpoint answers.
#[derive(Debug, Clone, Copy, PartialEq, Eq, Structural)]
pub enum ResponseShape {
    Friends,
    Channels,
    /// One channel, answered as a list of one.
    SingleChannel,
    Messages,
    User,
}

/// Where the messages of `channel_id` are read, `limit` at most, before a
/// given message if one is given.
pub open spec fn messages_url(channel_id: Seq<char>, before: Option<Seq<char>>, limit: nat) -> Seq<char> {
    "https://discord.com/api/v9/channels/"@ + channel_id + "/messages?"@ + match before {
        Some(b) => "before="@ + b + "&"@,
        None => Seq::<char>::empty(),
    } + "limit="@ + decimal(limit)
}

/// The address of an endpoint.
pub open spec fn endpoint_url(e: ApiEndpoints) -> Seq<char> {
    match e {
        ApiEndpoints::FriendList => "https://discord.com/api/v9/users/@me/relationships"@,
        ApiEndpoints::GetChannels(_) => "https://discord.com/api/v10/users/@me/channels"@,
        ApiEndpoints::GetMessages(c, b, l) => messages_url(
            c@,
            match b {
                Some(b) => Some(b@),
                None => None,
            },
            l as nat,
        ),
        ApiEndpoints::GetUser => "https://discord.com/api/v9/users/@me"@,
    }
}

/// The private channels live at one address, whoever a channel is opened
/// with: that user travels in the request's body, never in its address.
pub proof fn lemma_channels_address(with: Option<String>)
    ensures
        endpoint_url(ApiEndpoints::GetChannels(with)) == "https://discord.com/api/v10/users/@me/channels"@,
        endpoint_url(ApiEndpoints::GetChannels(with)) == endpoint_url(ApiEndpoints::GetChannels(None)),
{
}

impl ApiEndpoints {
    pub fn get_url(&self) -> (r: String)
        ensures
            r@ == endpoint_url(*self),
            *self matches ApiEndpoints::GetChannels(_) ==> r@ == "https://discord.com/api/v10/users/@me/channels"@,
    {
        match self {
            ApiEndpoints::FriendList => String::from_str("https://discord.com/api/v9/users/@me/relationships"),
            ApiEndpoints::GetChannels(_) => String::from_str("https://discord.com/api/v10/users/@me/channels"),
            ApiEndpoints::GetMessages(channel_id, before_message, message_limit) => {
                let mut url = String::from_str("https://discord.com/api/v9/channels/");
                url.append(channel_id.as_str());
                url.append("/messages?");
                match before_message {
                    Some(b) => {
                        url.append("before=");
                        url.append(b.as_str());
                        url.append("&");
                    },
                    None => {},
                }
                url.append("limit=");
                push_decimal(&mut url, *message_limit as u64);
                url
            },
            ApiEndpoints::GetUser => String::from_str("https://discord.com/api/v9/users/@me"),
        }
    }

    /// The user a channel is opened with: the request is then a POST whose
    /// body lists that user as the one recipient; every other request is a
    /// GET without body.
    pub fn recipient(&self) -> (r: Option<&String>)
        ensures
            r == (match *self {
                ApiEndpoints::GetChannels(Some(u)) => Some(&u),
                _ => None,
            }),
    {
        match self {
            ApiEndpoints::GetChannels(Some(u)) => Some(u),
            _ => None,
        }
    }

    /// What the endpoint answers.
    pub fn response_shape(&self) -> (r: ResponseShape)
        ensures
            r == (match *self {
                ApiEndpoints::FriendList => ResponseShape::Friends,
                ApiEndpoints::GetChannels(None) => ResponseShape::Channels,
                ApiEndpoints::GetChannels(Some(_)) => ResponseShape::SingleChannel,
                ApiEndpoints::GetMessages(_, _, _) => ResponseShape::Messages,
                ApiEndpoints::GetUser => ResponseShape::User,
            }),
    {
        match self {
            ApiEndpoints::FriendList => ResponseShape::Friends,
            ApiEndpoints::GetChannels(None) => ResponseShape::Channels,
            ApiEndpoints::GetChannels(Some(_)) => ResponseShape::SingleChannel,
            ApiEndpoints::GetMessages(_, _, _) => ResponseShape::Messages,
            ApiEndpoints::GetUser => ResponseShape::User,
        }
    }
}

/// What an endpoint answered.
#[derive(Debug)]
pub enum ApiResponse {
    Friends(Vec<Friend>),
    Channels(Vec<Channel>),
    Messeges(Vec<Message>),
    User(AuthedUser),
}

/// The signed-in user.
#[derive(Debug)]
pub struct AuthedUser {
    pub id: String,
    pub username: String,
    pub avatar: Option<String>,
}

#[derive(Debug)]
pub struct Message {
    pub author: User,
    pub channel_id: String,
    pub content: String,
    pub edited_timestamp: Option<String>,
    pub flags: u32,
    pub id: String,
    pub mention_everyone: bool,
    pub pinned: bool,
    pub reactions: Option<Vec<Reaction>>,
    pub timestamp: String,
    pub tts: bool,
}

#[derive(Debug)]
pub struct Reaction {
    pub burst_colors: Vec<String>,
    pub burst_count: u32,
    pub burst_me: bool,
    pub count: u32,
    pub count_details: CountDetails,
    pub emoji: Emoji,
    pub me: bool,
    pub me_burst: bool,
}

#[derive(Debug)]
pub struct Emoji {
    pub id: Option<String>,
    pub name: String,
}

#[derive(Debug)]
pub struct CountDetails {
    pub burst: u32,
    pub normal: u32,
}

#[derive(Debug)]
pub struct Friend {
    pub id: String,
    pub nickname: Option<String>,
    pub since: Option<String>,
    pub type_of: i32,
    pub user: User,
    pub is_spam_request: bool,
}

#[derive(Debug)]
pub struct User {
    pub avatar: Option<String>,
    pub avatar_decoration_data: Option<AvatarDecoration>,
    pub clan: Option<Clan>,
    pub discriminator: String,
    pub id: String,
    pub public_flags: i32,
    pub global_name: Option<String>,
    pub username: String,
}

#[derive(Debug)]
pub struct AvatarDecoration {
    pub asset: String,
    pub expires_at: Option<i32>,
    pub sku_id: String,
}

#[derive(Debug)]
pub struct Channel {
    pub id: String,
    pub type_of: i32,
    pub last_message_id: Option<String>,
    pub flags: i32,
    pub recipients: Vec<Recipient>,
    pub name: Option<String>,
    pub icon: Option<String>,
    pub owner_id: Option<String>,
    pub last_pin_timestamp: Option<String>,
}

#[derive(Debug)]
pub struct Recipient {
    pub id: String,
    pub username: String,
    pub global_name: Option<String>,
    pub avatar: Option<String>,
    pub avatar_decoration_data: Option<AvatarDecoration>,
    pub discriminator: String,
    pub public_flags: i32,
    pub clan: Option<Clan>,
    pub system: Option<bool>,
    pub bot: Option<bool>,
    pub accent_color: Option<u32>,
    pub banner: Option<String>,
    pub banner_color: Option<String>,
    pub flags: Option<i32>,
}

#[derive(Debug)]
pub struct Clan {
    pub id: Option<String>,
    pub identity_enabled: bool,
    pub identity_guild_id: String,
    pub tag: String,
}

/// A guild as the guild bar lists it.
#[derive(Debug)]
pub struct Guilds {
    pub id: String,
    pub name: String,
    pub icon: Option<String>,
}

} // verus!
