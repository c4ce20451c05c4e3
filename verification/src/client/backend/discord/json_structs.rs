//! The shapes of what the Discord REST API answers the client, and how a
//! private channel is listed in the conversation list.

use vstd::prelude::*;

use crate::adaptors::network::CacheDownload;
use crate::client::ui::Conversation;

verus! {

#[derive(Debug)]
pub struct Message {
    pub attachments: Vec<String>,
    pub author: User,
    pub channel_id: String,
    pub components: Vec<String>,
    pub content: String,
    pub edited_timestamp: Option<String>,
    pub embeds: Vec<u32>,
    pub flags: u32,
    pub id: String,
    pub mention_everyone: bool,
    pub pinned: bool,
    pub reactions: Option<Vec<Reaction>>,
    pub timestamp: String,
    pub tts: bool,
}

#[derive(Debug)]
pub struct Reaction {
    pub burst_colors: Vec<String>,
    pub burst_count: u32,
    pub burst_me: bool,
    pub count: u32,
    pub count_details: CountDetails,
    pub emoji: Emoji,
    pub me: bool,
    pub me_burst: bool,
}

#[derive(Debug)]
pub struct Emoji {
    pub id: Option<String>,
    pub name: String,
}

#[derive(Debug)]
pub struct CountDetails {
    pub burst: u32,
    pub normal: u32,
}

#[derive(Debug)]
pub struct Friend {
    pub id: String,
    pub is_spam_request: bool,
    pub nickname: Option<String>,
    pub since: String,
    pub user: User,
}

#[derive(Debug)]
pub struct User {
    pub avatar: Option<String>,
    pub avatar_decoration_data: Option<String>,
    pub clan: Option<String>,
    pub discriminator: String,
    pub id: String,
    pub username: String,
}

/// The kinds of channel Discord numbers 0 to 12.
#[derive(Debug, Clone, Copy, PartialEq, Eq, Structural)]
pub enum ChannelTypes {
    GuildText,
    DM,
    GuildVoice,
    GroupDM,
    GuildCategory,
    GuildAnnouncement,
    AnnouncementThread,
    PublicThread,
    PrivateThread,
    GuildStageVoice,
    GuildDirectory,
    GuildForum,
    GuildMedia,
}

#[derive(Debug)]
pub struct Channel {
    pub id: String,
    pub channel_type: ChannelTypes,
    pub flags: i32,
    pub icon: Option<String>,
    pub last_message_id: String,
    pub name: Option<String>,
    pub recipients: Vec<Recipient>,
}

#[derive(Debug)]
pub struct Recipient {
    pub avatar: Option<String>,
    pub avatar_decoration_data: Option<String>,
    pub clan: Option<String>,
    pub discriminator: String,
    pub global_name: Option<String>,
    pub id: String,
    pub public_flags: i32,
    pub username: String,
}

#[derive(Debug)]
pub struct Profile {
    pub accent_color: Option<String>,
    pub authenticator_types: Vec<String>,
    pub avatar: Option<String>,
    pub avatar_decoration_data: Option<String>,
    pub banner: Option<String>,
    pub banner_color: Option<String>,
    pub bio: String,
    pub clan: Option<String>,
    pub discriminator: String,
    pub email: String,
    pub flags: i32,
    pub global_name: String,
    pub id: String,
    pub linked_users: Vec<String>,
    pub locale: String,
    pub mfa_enabled: bool,
    pub nsfw_allowed: bool,
    pub phone: Option<String>,
    pub premium_type: i32,
    pub public_flags: i32,
    pub username: String,
    pub verified: bool,
}

/// The picture a conversation without avatar shows.
pub open spec fn stock_avatar_path() -> Seq<char> {
    "public/Assets/avatar.png"@
}

/// The name a direct message is listed under: its member's display name,
/// else the member's username.
pub open spec fn dm_name(r: Recipient) -> Seq<char> {
    match r.global_name {
        Some(g) => g@,
        None => r.username@,
    }
}

/// The avatar download of a direct message whose member has an avatar.
pub open spec fn dm_avatar_download(channel_id: Seq<char>, r: Recipient, avatar: Seq<char>) -> (Seq<char>, Seq<char>, Seq<char>) {
    (
        "https://cdn.discordapp.com/avatars/"@ + r.id@ + "/"@ + avatar + ".png?size=80"@,
        "public/Discord/Users/"@ + channel_id,
        avatar + ".png"@,
    )
}

impl Channel {
    /// How a direct message is listed: its id, its member's name, the
    /// member's avatar (fetched into `public/Discord/Users/{channel id}`)
    /// or the stock picture, on platform Discord.
    pub fn into_conversation(&self) -> (r: (Conversation, Option<CacheDownload>))
        requires
            self.channel_type == ChannelTypes::DM,
            self.recipients@.len() > 0,
        ensures
            r.0.id == self.id,
            r.0.name@ == dm_name(self.recipients@[0]),
            self.recipients@[0].global_name matches Some(g) ==> r.0.name@ == g@,
            self.recipients@[0].global_name is None ==> r.0.name@ == self.recipients@[0].username@,
            r.0.platform@ == "Discord"@,
            r.1 is Some <==> self.recipients@[0].avatar is Some,
            r.1 matches Some(d) ==> {
                &&& (d.url@, d.dir@, d.file_name@) == dm_avatar_download(
                    self.id@,
                    self.recipients@[0],
                    self.recipients@[0].avatar->0@,
                )
                &&& r.0.image@ == d.dir@ + "/"@ + d.file_name@
            },
            r.1 is None ==> r.0.image@ == stock_avatar_path(),
    {
        let recipient = &self.recipients[0];
        let name = match &recipient.global_name {
            Some(g) => g.clone(),
            None => recipient.username.clone(),
        };
        let (image, download) = match &recipient.avatar {
            Some(avatar_id) => {
                let mut url = String::from_str("https://cdn.discordapp.com/avatars/");
                url.append(recipient.id.as_str());
                url.append("/");
                url.append(avatar_id.as_str());
                url.append(".png?size=80");
                let mut dir = String::from_str("public/Discord/Users/");
                dir.append(self.id.as_str());
                let mut file_name = avatar_id.clone();
                file_name.append(".png");
                let mut image = dir.clone();
                image.append("/");
                image.append(file_name.as_str());
                (image, Some(CacheDownload { url, dir, file_name }))
            },
            None => (String::from_str("public/Assets/avatar.png"), None),
        };
        (Conversation { id: self.id.clone(), image, name, platform: String::from_str("Discord") }, download)
    }
}

/// A direct message is listed under its member's display name whenever the
/// member has one, whether or not it has an avatar, and under the username
/// exactly when it has none.
pub proof fn lemma_dm_name(r: Recipient)
    ensures
        r.global_name matches Some(g) ==> dm_name(r) == g@,
        r.global_name is None ==> dm_name(r) == r.username@,
{
}

/// The avatar plays no part in the name: two members that differ only in
/// their avatars give the same name.
pub proof fn lemma_dm_name_ignores_avatar(r: Recipient, s: Recipient)
    requires
        r.global_name == s.global_name,
        r.username == s.username,
    ensures
        dm_name(r) == dm_name(s),
{
}

} // verus!
