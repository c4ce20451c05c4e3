//! The lists of the GTK chat view (private channels, friends, guilds) and
//! the chat pane: what each entry shows, which picture it shows and where
//! that picture is fetched from and cached.

use vstd::prelude::*;

use crate::adaptors::network::CacheDownload;
use crate::client::discord::rest_api::discord_endpoints::{
    ApiEndpoints, ApiResponse, Channel, Friend, Guilds as GuildData, Message as ApiMessage, Recipient,
};
use crate::text::{decimal, path_join_spec, push_decimal};

verus! {

/// An entry of a list: its id, the name it shows, and its picture.
#[derive(Debug)]
pub struct ListEntry {
    pub id: String,
    pub name: String,
    pub icon: CacheDownload,
}

/// An entry as plain text: id, name, picture address, cache directory,
/// cache file name.
pub type EntryView = (Seq<char>, Seq<char>, Seq<char>, Seq<char>, Seq<char>);

pub open spec fn entry_view(e: ListEntry) -> EntryView {
    (e.id@, e.name@, e.icon.url@, e.icon.dir@, e.icon.file_name@)
}

pub open spec fn entry_views(es: Seq<ListEntry>) -> Seq<EntryView> {
    es.map_values(|e: ListEntry| entry_view(e))
}

/// The stock avatar an entry without picture gets; `n` counts the entries
/// without picture so far, and the five stock avatars take turns.
pub open spec fn default_avatar_url(n: nat) -> Seq<char> {
    "https://cdn.discordapp.com/embed/avatars/"@ + decimal(n % 5) + ".png"@
}

/// A user's avatar.
pub open spec fn user_avatar_url(user_id: Seq<char>, hash: Seq<char>) -> Seq<char> {
    "https://cdn.discordapp.com/avatars/"@ + user_id + "/"@ + hash + ".png?size=80"@
}

/// A group channel's icon.
pub open spec fn channel_icon_url(channel_id: Seq<char>, hash: Seq<char>) -> Seq<char> {
    "https://cdn.discordapp.com/channel-icons/"@ + channel_id + "/"@ + hash + ".png?size=80"@
}

/// A guild's icon.
pub open spec fn guild_icon_url(guild_id: Seq<char>, hash: Seq<char>) -> Seq<char> {
    "https://cdn.discordapp.com/icons/"@ + guild_id + "/"@ + hash + ".png?size=80"@
}

pub open spec fn channel_dir(channel_id: Seq<char>) -> Seq<char> {
    "public/Discord/Channels/"@ + channel_id
}

pub open spec fn user_dir(user_id: Seq<char>) -> Seq<char> {
    "public/Discord/Users/"@ + user_id
}

pub open spec fn guild_dir(guild_id: Seq<char>) -> Seq<char> {
    "public/Discord/Guilds/"@ + guild_id
}

/// Counts one more entry without picture and names its stock avatar: the
/// address, and the count as the cache file name.
fn next_default_avatar(discriminator: &mut u8) -> (r: (String, String))
    requires
        *old(discriminator) < 255,
    ensures
        *final(discriminator) == *old(discriminator) + 1,
        r.0@ == default_avatar_url(*final(discriminator) as nat),
        r.1@ == decimal(*final(discriminator) as nat),
{
    *discriminator = *discriminator + 1;
    let mut url = String::from_str("https://cdn.discordapp.com/embed/avatars/");
    push_decimal(&mut url, (*discriminator % 5) as u64);
    url.append(".png");
    let mut file = String::new();
    push_decimal(&mut file, *discriminator as u64);
    (url, file)
}

fn url_with(prefix: &str, id: &str, hash: &str, suffix: &str) -> (r: String)
    ensures
        r@ == prefix@ + id@ + "/"@ + hash@ + suffix@,
{
    let mut r = prefix.to_owned();
    r.append(id);
    r.append("/");
    r.append(hash);
    r.append(suffix);
    r
}

fn dir_with(prefix: &str, id: &str) -> (r: String)
    ensures
        r@ == prefix@ + id@,
{
    let mut r = prefix.to_owned();
    r.append(id);
    r
}

// === Private channels ===

/// The names of a group's members, each followed by a comma and a space.
pub open spec fn member_list(rs: Seq<Recipient>) -> Seq<char>
    decreases rs.len(),
{
    if rs.len() == 0 {
        Seq::<char>::empty()
    } else {
        member_list(rs.drop_last()) + rs.last().username@ + ", "@
    }
}

/// The name a group channel shows: its own, else a placeholder when it has
/// no members, else the list of its members.
pub open spec fn group_name(c: Channel) -> Seq<char> {
    match c.name {
        Some(n) => n@,
        None => if c.recipients@.len() == 0 {
            "User's Group"@
        } else {
            member_list(c.recipients@)
        },
    }
}

/// The entry of a private channel, and the count of pictureless entries
/// after it. A direct message (type 1) shows its member; a group (type 3)
/// its name; any other channel shows nothing.
pub open spec fn channel_entry(c: Channel, disc: nat) -> (EntryView, nat) {
    if c.type_of == 1 {
        let r = c.recipients@[0];
        match r.avatar {
            Some(p) => ((c.id@, r.username@, user_avatar_url(r.id@, p@), channel_dir(c.id@), p@), disc),
            None => (
                (c.id@, r.username@, default_avatar_url(disc + 1), channel_dir(c.id@), decimal(disc + 1)),
                disc + 1,
            ),
        }
    } else if c.type_of == 3 {
        match c.icon {
            Some(p) => ((c.id@, group_name(c), channel_icon_url(c.id@, p@), channel_dir(c.id@), p@), disc),
            None => (
                (c.id@, group_name(c), default_avatar_url(disc + 1), channel_dir(c.id@), decimal(disc + 1)),
                disc + 1,
            ),
        }
    } else {
        ((c.id@, Seq::empty(), Seq::empty(), Seq::empty(), Seq::empty()), disc)
    }
}

/// The entries of channels listed one after another from count `disc`.
pub open spec fn channel_entries(cs: Seq<Channel>, disc: nat) -> (Seq<EntryView>, nat)
    decreases cs.len(),
{
    if cs.len() == 0 {
        (seq![], disc)
    } else {
        let prev = channel_entries(cs.drop_last(), disc);
        let last = channel_entry(cs.last(), prev.1);
        (prev.0.push(last.0), last.1)
    }
}

/// A channel the list can show: a direct message has its member.
pub open spec fn is_listable(c: Channel) -> bool {
    c.type_of == 1 ==> c.recipients@.len() > 0
}

proof fn lemma_channel_entries_grow(cs: Seq<Channel>, disc: nat, i: int)
    requires
        0 <= i <= cs.len(),
    ensures
        disc <= channel_entries(cs.take(i), disc).1 <= channel_entries(cs, disc).1,
    decreases cs.len(),
{
    if cs.len() > 0 {
        if i == cs.len() {
            assert(cs.take(i) =~= cs);
            lemma_channel_entries_grow(cs.drop_last(), disc, i - 1);
            assert(cs.drop_last().take(i - 1) =~= cs.drop_last());
        } else {
            assert(cs.drop_last().take(i) =~= cs.take(i));
            lemma_channel_entries_grow(cs.drop_last(), disc, i);
        }
    } else {
        assert(cs.take(i) =~= cs);
    }
}

/// One more member adds its username and a comma to the member list: every
/// member counts, however many there are.
pub proof fn lemma_member_list_push(rs: Seq<Recipient>, r: Recipient)
    ensures
        member_list(rs.push(r)) == member_list(rs) + r.username@ + ", "@,
{
    assert(rs.push(r).drop_last() =~= rs);
}

/// The member list holds every member's username, each followed by a comma
/// and a space, in order: the list of the first members starts it, and it is
/// as long as all the usernames with two more characters per member.
pub proof fn lemma_member_list_members(rs: Seq<Recipient>, i: int)
    requires
        0 <= i < rs.len(),
    ensures
        member_list(rs.take(i + 1)) == member_list(rs.take(i)) + rs[i].username@ + ", "@,
        member_list(rs.take(i)).len() + rs[i].username@.len() + 2 <= member_list(rs).len(),
        member_list(rs).subrange(
            member_list(rs.take(i)).len() as int,
            (member_list(rs.take(i)).len() + rs[i].username@.len()) as int,
        ) == rs[i].username@,
        member_list(rs) == member_list(rs.take(i + 1)) + member_list(rs.skip(i + 1)),
    decreases rs.len(),
{
    reveal_strlit(", ");
    assert(rs.take(i + 1).drop_last() =~= rs.take(i));
    assert(rs.take(i + 1).last() == rs[i]);
    lemma_member_list_split(rs, i + 1);
    let a = member_list(rs.take(i));
    let u = rs[i].username@;
    assert((a + u + ", "@).subrange(a.len() as int, (a.len() + u.len()) as int) =~= u);
    assert(member_list(rs).subrange(a.len() as int, (a.len() + u.len()) as int) =~= (a + u + ", "@).subrange(
        a.len() as int,
        (a.len() + u.len()) as int,
    ));
}

/// The member list of a group is that of its first members followed by that
/// of the others.
pub proof fn lemma_member_list_split(rs: Seq<Recipient>, k: int)
    requires
        0 <= k <= rs.len(),
    ensures
        member_list(rs) == member_list(rs.take(k)) + member_list(rs.skip(k)),
    decreases rs.len() - k,
{
    if k == rs.len() {
        assert(rs.take(k) =~= rs);
        assert(rs.skip(k) =~= Seq::<Recipient>::empty());
        assert(member_list(rs) + Seq::<char>::empty() =~= member_list(rs));
    } else {
        lemma_member_list_split(rs, k + 1);
        assert(rs.take(k + 1).drop_last() =~= rs.take(k));
        assert(rs.take(k + 1).last() == rs[k]);
        let t = rs.skip(k);
        assert(t.len() > 0);
        lemma_member_list_prepend(rs[k], rs.skip(k + 1));
        assert(seq![rs[k]] + rs.skip(k + 1) =~= t);
        assert(member_list(rs.take(k + 1)) + member_list(rs.skip(k + 1)) =~= member_list(rs.take(k)) + member_list(t));
    }
}

/// A member put first comes first in the member list.
pub proof fn lemma_member_list_prepend(r: Recipient, rs: Seq<Recipient>)
    ensures
        member_list(seq![r] + rs) == r.username@ + ", "@ + member_list(rs),
    decreases rs.len(),
{
    if rs.len() == 0 {
        assert(seq![r] + rs =~= seq![r]);
        assert(seq![r].drop_last() =~= Seq::<Recipient>::empty());
        assert(member_list(Seq::<Recipient>::empty()) == Seq::<char>::empty());
        assert(member_list(rs) == Seq::<char>::empty());
        assert(seq![r].last() == r);
        assert(member_list(seq![r]) == Seq::<char>::empty() + r.username@ + ", "@);
        assert(member_list(seq![r]) =~= r.username@ + ", "@ + member_list(rs));
    } else {
        lemma_member_list_prepend(r, rs.drop_last());
        assert((seq![r] + rs).drop_last() =~= seq![r] + rs.drop_last());
        assert((seq![r] + rs).last() == rs.last());
        assert(member_list(seq![r] + rs) =~= r.username@ + ", "@ + member_list(rs));
    }
}

/// An unnamed group with members shows its member list; one without members
/// the placeholder; a named group its name.
pub proof fn lemma_group_name(c: Channel)
    ensures
        c.name matches Some(n) ==> group_name(c) == n@,
        c.name is None && c.recipients@.len() > 0 ==> group_name(c) == member_list(c.recipients@),
        c.name is None && c.recipients@.len() == 0 ==> group_name(c) == "User's Group"@,
{
}

fn group_member_list(rs: &Vec<Recipient>) -> (r: String)
    ensures
        r@ == member_list(rs@),
{
    let mut r = String::new();
    for i in 0..rs.len()
        invariant
            r@ == member_list(rs@.take(i as int)),
    {
        assert(rs@.take(i + 1).drop_last() =~= rs@.take(i as int));
        r.append(rs[i].username.as_str());
        r.append(", ");
    }
    assert(rs@.take(rs@.len() as int) =~= rs@);
    r
}

/// A listed private channel: its id, the name it shows and the path of the
/// picture it shows.
pub struct ListedChannel {
    pub channel_id: String,
    pub username: String,
    pub icon_path: String,
}

/// The list of private channels.
pub struct Channels {
    pub channels: Vec<ListedChannel>,
    /// How many entries so far had no picture of their own.
    pub discriminator: u8,
}

/// The ids of listed channels.
pub open spec fn channel_ids(cs: Seq<ListedChannel>) -> Seq<Seq<char>> {
    cs.map_values(|c: ListedChannel| c.channel_id@)
}

/// Listed channels as (id, name, picture path).
pub open spec fn listed_channels(cs: Seq<ListedChannel>) -> Seq<(Seq<char>, Seq<char>, Seq<char>)> {
    cs.map_values(|c: ListedChannel| (c.channel_id@, c.username@, c.icon_path@))
}

/// How entries are listed: id, name, and the cached picture's path.
pub open spec fn listing_of(es: Seq<EntryView>) -> Seq<(Seq<char>, Seq<char>, Seq<char>)> {
    es.map_values(|e: EntryView| (e.0, e.1, path_join_spec(e.3, e.4)))
}

impl Channels {
    pub fn new() -> (r: Self)
        ensures
            r.channels@.len() == 0,
            r.discriminator == 0,
    {
        Channels { channels: Vec::new(), discriminator: 0 }
    }

    /// Lists one more channel, last.
    pub fn add_channel(&mut self, channel_id: String, username: String, icon_path: String)
        ensures
            listed_channels(final(self).channels@) == listed_channels(old(self).channels@).push(
                (channel_id@, username@, icon_path@),
            ),
            final(self).discriminator == old(self).discriminator,
    {
        let ghost before = self.channels@;
        let ghost v = (channel_id@, username@, icon_path@);
        self.channels.push(ListedChannel { channel_id, username, icon_path });
        assert(listed_channels(self.channels@) =~= listed_channels(before).push(v));
    }

    /// Keeps the listed channels whose id is `channel_id`, and only those.
    pub fn remove_channel(&mut self, channel_id: String)
        ensures
            listed_channels(final(self).channels@) == listed_channels(old(self).channels@).filter(
                |c: (Seq<char>, Seq<char>, Seq<char>)| c.0 == channel_id@,
            ),
            final(self).discriminator == old(self).discriminator,
    {
        let mut kept: Vec<ListedChannel> = Vec::new();
        let ghost ls = listed_channels(self.channels@);
        for i in 0..self.channels.len()
            invariant
                ls == listed_channels(self.channels@),
                listed_channels(kept@) == ls.take(i as int).filter(
                    |c: (Seq<char>, Seq<char>, Seq<char>)| c.0 == channel_id@,
                ),
        {
            proof {
                reveal_with_fuel(Seq::<_>::filter, 1);
                assert(ls.take(i + 1).drop_last() =~= ls.take(i as int));
            }
            let ghost before = kept@;
            let c = &self.channels[i];
            if c.channel_id == channel_id {
                kept.push(
                    ListedChannel {
                        channel_id: c.channel_id.clone(),
                        username: c.username.clone(),
                        icon_path: c.icon_path.clone(),
                    },
                );
                assert(listed_channels(kept@) =~= listed_channels(before).push(ls[i as int]));
            }
        }
        assert(ls.take(ls.len() as int) =~= ls);
        self.channels = kept;
    }

    /// What clicking the `i`-th listed channel does: the chat pane opens it
    /// under its name and picture.
    pub fn click(&self, i: usize, chat: &mut Chat) -> (r: Option<ApiEndpoints>)
        requires
            i < self.channels@.len(),
        ensures
            opens(
                *old(chat),
                *final(chat),
                r,
                self.channels@[i as int].username,
                self.channels@[i as int].icon_path,
                self.channels@[i as int].channel_id,
            ),
    {
        let c = &self.channels[i];
        chat.open_chat(c.username.clone(), c.icon_path.clone(), c.channel_id.clone())
    }

    /// Whether `load_new_data` can list `data`: every direct message has its
    /// member, and the count of pictureless entries stays within 255.
    pub fn accepts(&self, data: &Vec<Channel>) -> (r: bool)
        ensures
            r == ((forall|i: int| 0 <= i < data@.len() ==> is_listable(#[trigger] data@[i])) && channel_entries(
                data@,
                self.discriminator as nat,
            ).1 <= 255),
    {
        let ghost d0 = self.discriminator as nat;
        let mut n: u64 = self.discriminator as u64;
        for i in 0..data.len()
            invariant
                d0 == self.discriminator as nat,
                n == channel_entries(data@.take(i as int), d0).1,
                n <= 255,
                forall|k: int| 0 <= k < i ==> is_listable(#[trigger] data@[k]),
        {
            proof {
                assert(data@.take(i + 1).drop_last() =~= data@.take(i as int));
            }
            let c = &data[i];
            if c.type_of == 1 {
                if c.recipients.len() == 0 {
                    assert(!is_listable(data@[i as int]));
                    return false;
                }
                match &c.recipients[0].avatar {
                    Some(_) => {},
                    None => {
                        n = n + 1;
                    },
                }
            } else if c.type_of == 3 {
                match &c.icon {
                    Some(_) => {},
                    None => {
                        n = n + 1;
                    },
                }
            }
            if n > 255 {
                proof {
                    lemma_channel_entries_grow(data@, d0, i + 1);
                }
                return false;
            }
        }
        assert(data@.take(data@.len() as int) =~= data@);
        true
    }

    /// Lists channels as they come and says, for each, what it shows and
    /// which picture it shows; a direct message without avatar and a group
    /// without icon get the next stock avatar.
    pub fn load_new_data(&mut self, data: Vec<Channel>) -> (r: Vec<ListEntry>)
        requires
            forall|i: int| 0 <= i < data@.len() ==> is_listable(#[trigger] data@[i]),
            channel_entries(data@, old(self).discriminator as nat).1 <= 255,
        ensures
            entry_views(r@) == channel_entries(data@, old(self).discriminator as nat).0,
            final(self).discriminator == channel_entries(data@, old(self).discriminator as nat).1,
            listed_channels(final(self).channels@) == listed_channels(old(self).channels@) + listing_of(
                channel_entries(data@, old(self).discriminator as nat).0,
            ),
    {
        let ghost d0 = self.discriminator as nat;
        let ghost ls0 = listed_channels(self.channels@);
        let mut r: Vec<ListEntry> = Vec::new();
        for i in 0..data.len()
            invariant
                forall|k: int| 0 <= k < data@.len() ==> is_listable(#[trigger] data@[k]),
                channel_entries(data@, d0).1 <= 255,
                entry_views(r@) == channel_entries(data@.take(i as int), d0).0,
                self.discriminator == channel_entries(data@.take(i as int), d0).1,
                listed_channels(self.channels@) == ls0 + listing_of(channel_entries(data@.take(i as int), d0).0),
        {
            proof {
                assert(data@.take(i + 1).drop_last() =~= data@.take(i as int));
                lemma_channel_entries_grow(data@, d0, i + 1);
            }
            let c = &data[i];
            let ghost disc = self.discriminator as nat;
            let entry = if c.type_of == 1 {
                let rec = &c.recipients[0];
                let dir = dir_with("public/Discord/Channels/", c.id.as_str());
                match &rec.avatar {
                    Some(p) => {
                        let url = url_with("https://cdn.discordapp.com/avatars/", rec.id.as_str(), p.as_str(), ".png?size=80");
                        ListEntry { id: c.id.clone(), name: rec.username.clone(), icon: CacheDownload { url, dir, file_name: p.clone() } }
                    },
                    None => {
                        let (url, file_name) = next_default_avatar(&mut self.discriminator);
                        ListEntry { id: c.id.clone(), name: rec.username.clone(), icon: CacheDownload { url, dir, file_name } }
                    },
                }
            } else if c.type_of == 3 {
                let name = match &c.name {
                    Some(n) => n.clone(),
                    None => if c.recipients.len() == 0 {
                        String::from_str("User's Group")
                    } else {
                        group_member_list(&c.recipients)
                    },
                };
                let dir = dir_with("public/Discord/Channels/", c.id.as_str());
                match &c.icon {
                    Some(p) => {
                        let url = url_with("https://cdn.discordapp.com/channel-icons/", c.id.as_str(), p.as_str(), ".png?size=80");
                        ListEntry { id: c.id.clone(), name, icon: CacheDownload { url, dir, file_name: p.clone() } }
                    },
                    None => {
                        let (url, file_name) = next_default_avatar(&mut self.discriminator);
                        ListEntry { id: c.id.clone(), name, icon: CacheDownload { url, dir, file_name } }
                    },
                }
            } else {
                ListEntry {
                    id: c.id.clone(),
                    name: String::new(),
                    icon: CacheDownload { url: String::new(), dir: String::new(), file_name: String::new() },
                }
            };
            assert(entry_view(entry) == channel_entry(data@[i as int], disc).0);
            let ghost before = r@;
            let pfp = entry.icon.cache_path();
            let (id, name) = (entry.id.clone(), entry.name.clone());
            let ghost ev = entry_view(entry);
            r.push(entry);
            assert(entry_views(r@) =~= entry_views(before).push(ev));
            self.add_channel(id, name, pfp);
            assert(listing_of(channel_entries(data@.take(i + 1), d0).0) =~= listing_of(
                channel_entries(data@.take(i as int), d0).0,
            ).push((ev.0, ev.1, path_join_spec(ev.3, ev.4))));
        }
        assert(data@.take(data@.len() as int) =~= data@);
        r
    }
}


// === Friends ===

/// The entry of a friend, and the count of pictureless entries after it.
pub open spec fn friend_entry(f: Friend, disc: nat) -> (EntryView, nat) {
    let u = f.user;
    match u.avatar {
        Some(p) => ((u.id@, u.username@, user_avatar_url(u.id@, p@), user_dir(u.id@), p@), disc),
        None => ((u.id@, u.username@, default_avatar_url(disc + 1), user_dir(u.id@), decimal(disc + 1)), disc + 1),
    }
}

pub open spec fn friend_entries(fs: Seq<Friend>, disc: nat) -> (Seq<EntryView>, nat)
    decreases fs.len(),
{
    if fs.len() == 0 {
        (seq![], disc)
    } else {
        let prev = friend_entries(fs.drop_last(), disc);
        let last = friend_entry(fs.last(), prev.1);
        (prev.0.push(last.0), last.1)
    }
}

proof fn lemma_friend_entries_grow(fs: Seq<Friend>, disc: nat, i: int)
    requires
        0 <= i <= fs.len(),
    ensures
        disc <= friend_entries(fs.take(i), disc).1 <= friend_entries(fs, disc).1,
    decreases fs.len(),
{
    if fs.len() > 0 {
        if i == fs.len() {
            assert(fs.take(i) =~= fs);
            lemma_friend_entries_grow(fs.drop_last(), disc, i - 1);
            assert(fs.drop_last().take(i - 1) =~= fs.drop_last());
        } else {
            assert(fs.drop_last().take(i) =~= fs.take(i));
            lemma_friend_entries_grow(fs.drop_last(), disc, i);
        }
    } else {
        assert(fs.take(i) =~= fs);
    }
}

/// A listed friend: the user id, the name shown and the picture's path.
pub struct ListedFriend {
    pub user_id: String,
    pub username: String,
    pub icon_path: String,
}

/// The friend list, keyed by user id.
pub struct FriendList {
    pub friends: Vec<ListedFriend>,
    /// How many entries so far had no picture of their own.
    pub discriminator: u8,
}

/// Whether a friend list holds the user `id`.
pub open spec fn is_friend(fs: Seq<ListedFriend>, id: Seq<char>) -> bool {
    exists|i: int| 0 <= i < fs.len() && #[trigger] fs[i].user_id@ == id
}

/// No user is listed twice.
pub open spec fn unique_friends(fs: Seq<ListedFriend>) -> bool {
    forall|i: int, j: int| 0 <= i < j < fs.len() ==> #[trigger] fs[i].user_id@ != #[trigger] fs[j].user_id@
}

/// Whether some friend of `data` is the user `id`.
pub open spec fn has_user(data: Seq<Friend>, id: Seq<char>) -> bool {
    exists|i: int| 0 <= i < data.len() && #[trigger] data[i].user.id@ == id
}

/// A listed friend as plain text: user id, name, picture path.
pub type FriendView = (Seq<char>, Seq<char>, Seq<char>);

pub open spec fn friend_views(fs: Seq<ListedFriend>) -> Seq<FriendView> {
    fs.map_values(|f: ListedFriend| (f.user_id@, f.username@, f.icon_path@))
}

/// The position of the first friend with user id `id`, or the length.
pub open spec fn friend_index(vs: Seq<FriendView>, id: Seq<char>) -> int
    decreases vs.len(),
{
    if vs.len() == 0 {
        0
    } else if vs[0].0 == id {
        0
    } else {
        1 + friend_index(vs.drop_first(), id)
    }
}

/// The list after listing `v`: a user listed already is listed anew in
/// place, any other user is added last.
pub open spec fn with_friend(vs: Seq<FriendView>, v: FriendView) -> Seq<FriendView> {
    let k = friend_index(vs, v.0);
    if k < vs.len() {
        vs.update(k, v)
    } else {
        vs.push(v)
    }
}

/// The list after listing the entries `es` one after another, each under
/// its id, name and cached picture.
pub open spec fn friends_loaded(vs: Seq<FriendView>, es: Seq<EntryView>) -> Seq<FriendView>
    decreases es.len(),
{
    if es.len() == 0 {
        vs
    } else {
        with_friend(friends_loaded(vs, es.drop_last()), listed_entry(es.last()))
    }
}

/// How an entry is listed: its id, its name and its cached picture.
pub open spec fn listed_entry(e: EntryView) -> FriendView {
    (e.0, e.1, path_join_spec(e.3, e.4))
}

/// `friend_index` is the first position holding `id`, or the length.
proof fn lemma_friend_index(vs: Seq<FriendView>, id: Seq<char>)
    ensures
        0 <= friend_index(vs, id) <= vs.len(),
        forall|j: int| 0 <= j < friend_index(vs, id) ==> vs[j].0 != id,
        friend_index(vs, id) < vs.len() ==> vs[friend_index(vs, id)].0 == id,
    decreases vs.len(),
{
    if vs.len() > 0 && vs[0].0 != id {
        lemma_friend_index(vs.drop_first(), id);
        assert forall|j: int| 0 <= j < friend_index(vs, id) implies vs[j].0 != id by {
            if j > 0 {
                assert(vs[j] == vs.drop_first()[j - 1]);
            }
        }
    }
}

proof fn lemma_friend_index_unique(vs: Seq<FriendView>, id: Seq<char>, k: int)
    requires
        0 <= k <= vs.len(),
        forall|j: int| 0 <= j < k ==> vs[j].0 != id,
        k == vs.len() || vs[k].0 == id,
    ensures
        k == friend_index(vs, id),
{
    lemma_friend_index(vs, id);
    let f = friend_index(vs, id);
    if f < k {
        assert(vs[f].0 == id);
    } else if k < f {
        assert(vs[k].0 != id);
    }
}

/// Loading friends lists each user under the last entry given for it, and
/// leaves every earlier friend whom no entry names as it was, where it was.
pub proof fn lemma_friends_loaded(vs: Seq<FriendView>, es: Seq<EntryView>)
    ensures
        friends_loaded(vs, es).len() >= vs.len(),
        forall|k: int|
            0 <= k < vs.len() && (forall|j: int| 0 <= j < es.len() ==> (#[trigger] es[j]).0 != vs[k].0) ==> #[trigger] friends_loaded(vs, es)[k] == vs[k],
        forall|j: int|
            #![trigger listed_entry(es[j])]
            0 <= j < es.len() && (forall|j2: int| j < j2 < es.len() ==> (#[trigger] es[j2]).0 != es[j].0) ==> friends_loaded(
                vs,
                es,
            ).contains(listed_entry(es[j])),
    decreases es.len(),
{
    if es.len() > 0 {
        let p = es.drop_last();
        let prev = friends_loaded(vs, p);
        let v = listed_entry(es.last());
        let result = friends_loaded(vs, es);
        assert(result == with_friend(prev, v));
        lemma_friends_loaded(vs, p);
        lemma_friend_index(prev, v.0);
        let idx = friend_index(prev, v.0);
        assert forall|k: int|
            0 <= k < vs.len() && (forall|j: int| 0 <= j < es.len() ==> (#[trigger] es[j]).0 != vs[k].0) implies #[trigger] result[k]
            == vs[k] by {
            assert forall|j: int| 0 <= j < p.len() implies (#[trigger] p[j]).0 != vs[k].0 by {
                assert(p[j] == es[j]);
            }
            assert(prev[k] == vs[k]);
            assert(es[es.len() - 1].0 != vs[k].0);
        }
        assert forall|j: int|
            #![trigger listed_entry(es[j])]
            0 <= j < es.len() && (forall|j2: int| j < j2 < es.len() ==> (#[trigger] es[j2]).0 != es[j].0) implies result.contains(
                listed_entry(es[j]),
            ) by {
            if j == es.len() - 1 {
                if idx < prev.len() {
                    assert(result[idx] == v);
                } else {
                    assert(result[prev.len() as int] == v);
                }
            } else {
                assert(p[j] == es[j]);
                assert forall|j2: int| j < j2 < p.len() implies (#[trigger] p[j2]).0 != p[j].0 by {
                    assert(p[j2] == es[j2]);
                }
                assert(listed_entry(p[j]) == listed_entry(es[j]));
                assert(prev.contains(listed_entry(p[j])));
                let i = choose|i: int| 0 <= i < prev.len() && prev[i] == listed_entry(p[j]);
                assert(es[es.len() - 1].0 != es[j].0);
                assert(result[i] == prev[i]);
            }
        }
    }
}

proof fn lemma_is_friend_push(fs: Seq<ListedFriend>, f: ListedFriend)
    ensures
        forall|x: Seq<char>| #[trigger] is_friend(fs.push(f), x) <==> (is_friend(fs, x) || x == f.user_id@),
{
    assert forall|x: Seq<char>| #[trigger] is_friend(fs.push(f), x) <==> (is_friend(fs, x) || x == f.user_id@) by {
        if is_friend(fs.push(f), x) {
            let i = choose|i: int| 0 <= i < fs.push(f).len() && #[trigger] fs.push(f)[i].user_id@ == x;
            if i < fs.len() {
                assert(fs[i].user_id@ == x);
            }
        }
        if is_friend(fs, x) {
            let i = choose|i: int| 0 <= i < fs.len() && #[trigger] fs[i].user_id@ == x;
            assert(fs.push(f)[i].user_id@ == x);
        }
        if x == f.user_id@ {
            assert(fs.push(f)[fs.len() as int].user_id@ == x);
        }
    }
}

proof fn lemma_is_friend_update(fs: Seq<ListedFriend>, k: int, f: ListedFriend)
    requires
        0 <= k < fs.len(),
        fs[k].user_id@ == f.user_id@,
    ensures
        forall|x: Seq<char>| #[trigger] is_friend(fs.update(k, f), x) <==> is_friend(fs, x),
{
    assert forall|x: Seq<char>| #[trigger] is_friend(fs.update(k, f), x) <==> is_friend(fs, x) by {
        if is_friend(fs.update(k, f), x) {
            let i = choose|i: int| 0 <= i < fs.len() && #[trigger] fs.update(k, f)[i].user_id@ == x;
            assert(fs[i].user_id@ == x);
        }
        if is_friend(fs, x) {
            let i = choose|i: int| 0 <= i < fs.len() && #[trigger] fs[i].user_id@ == x;
            assert(fs.update(k, f)[i].user_id@ == x);
        }
    }
}

impl FriendList {
    /// Well-formed: no user is listed twice.
    pub open spec fn wf(&self) -> bool {
        unique_friends(self.friends@)
    }

    pub fn new() -> (r: Self)
        ensures
            r.friends@.len() == 0,
            r.discriminator == 0,
            r.wf(),
    {
        FriendList { friends: Vec::new(), discriminator: 0 }
    }

    fn position(&self, user_id: &String) -> (r: Option<usize>)
        ensures
            r matches Some(i) ==> i < self.friends@.len() && self.friends@[i as int].user_id@ == user_id@ && i
                == friend_index(friend_views(self.friends@), user_id@),
            r is None ==> !is_friend(self.friends@, user_id@) && friend_index(friend_views(self.friends@), user_id@)
                == self.friends@.len(),
    {
        let ghost vs = friend_views(self.friends@);
        for i in 0..self.friends.len()
            invariant
                vs == friend_views(self.friends@),
                forall|j: int| 0 <= j < i ==> self.friends@[j].user_id@ != user_id@,
        {
            if self.friends[i].user_id == *user_id {
                proof {
                    assert forall|j: int| 0 <= j < i implies vs[j].0 != user_id@ by {
                        assert(vs[j].0 == self.friends@[j].user_id@);
                    }
                    lemma_friend_index_unique(vs, user_id@, i as int);
                }
                return Some(i);
            }
        }
        proof {
            assert forall|j: int| 0 <= j < vs.len() implies vs[j].0 != user_id@ by {
                assert(vs[j].0 == self.friends@[j].user_id@);
            }
            lemma_friend_index_unique(vs, user_id@, vs.len() as int);
        }
        None
    }

    /// Lists a friend; a user listed already is listed anew in place, under
    /// the new name and picture.
    pub fn add_friend(&mut self, user_id: String, username: String, icon_path: String)
        requires
            old(self).wf(),
        ensures
            final(self).wf(),
            final(self).discriminator == old(self).discriminator,
            friend_views(final(self).friends@) == with_friend(
                friend_views(old(self).friends@),
                (user_id@, username@, icon_path@),
            ),
            forall|x: Seq<char>|
                #[trigger] is_friend(final(self).friends@, x) <==> (is_friend(old(self).friends@, x) || x
                    == user_id@),
    {
        let ghost before = self.friends@;
        match self.position(&user_id) {
            Some(k) => {
                let f = ListedFriend { user_id, username, icon_path };
                proof {
                    lemma_is_friend_update(before, k as int, f);
                    assert(is_friend(before, f.user_id@));
                }
                let ghost fv = (f.user_id@, f.username@, f.icon_path@);
                self.friends.set(k, f);
                proof {
                    assert(friend_views(self.friends@) =~= friend_views(before).update(k as int, fv));
                    assert forall|i: int, j: int| 0 <= i < j < self.friends@.len() implies #[trigger] self.friends@[i].user_id@
                        != #[trigger] self.friends@[j].user_id@ by {
                        assert(before[i].user_id@ != before[j].user_id@);
                    }
                }
            },
            None => {
                let f = ListedFriend { user_id, username, icon_path };
                proof {
                    lemma_is_friend_push(before, f);
                }
                let ghost fv = (f.user_id@, f.username@, f.icon_path@);
                self.friends.push(f);
                proof {
                    assert(friend_views(self.friends@) =~= friend_views(before).push(fv));
                    assert forall|i: int, j: int| 0 <= i < j < self.friends@.len() implies #[trigger] self.friends@[i].user_id@
                        != #[trigger] self.friends@[j].user_id@ by {
                        if j == before.len() {
                            if before[i].user_id@ == f.user_id@ {
                                assert(is_friend(before, f.user_id@));
                            }
                        } else {
                            assert(before[i].user_id@ != before[j].user_id@);
                        }
                    }
                }
            },
        }
    }

    /// Takes a listed friend off the list.
    pub fn remove_friend(&mut self, user_id: String)
        requires
            old(self).wf(),
            is_friend(old(self).friends@, user_id@),
        ensures
            final(self).wf(),
            final(self).discriminator == old(self).discriminator,
            exists|k: int|
                0 <= k < old(self).friends@.len() && old(self).friends@[k].user_id@ == user_id@ && final(self).friends@ == old(self).friends@.remove(k),
            !is_friend(final(self).friends@, user_id@),
    {
        let ghost before = self.friends@;
        match self.position(&user_id) {
            Some(k) => {
                self.friends.remove(k);
                proof {
                    assert forall|i: int, j: int| 0 <= i < j < self.friends@.len() implies #[trigger] self.friends@[i].user_id@
                        != #[trigger] self.friends@[j].user_id@ by {
                        let i2 = if i < k { i } else { i + 1 };
                        let j2 = if j < k { j } else { j + 1 };
                        assert(self.friends@[i] == before[i2]);
                        assert(self.friends@[j] == before[j2]);
                        assert(before[i2].user_id@ != before[j2].user_id@);
                    }
                    if is_friend(self.friends@, user_id@) {
                        let i = choose|i: int| 0 <= i < self.friends@.len() && #[trigger] self.friends@[i].user_id@ == user_id@;
                        let i2 = if i < k { i } else { i + 1 };
                        assert(self.friends@[i] == before[i2]);
                        if i2 < k {
                            assert(before[i2].user_id@ != before[k as int].user_id@);
                        } else {
                            assert(before[k as int].user_id@ != before[i2].user_id@);
                        }
                    }
                }
            },
            None => {},
        }
    }

    /// The request clicking the `i`-th friend sends: the private channel with
    /// that user.
    pub fn click(&self, i: usize) -> (r: ApiEndpoints)
        requires
            i < self.friends@.len(),
        ensures
            r == ApiEndpoints::GetChannels(Some(self.friends@[i as int].user_id)),
    {
        ApiEndpoints::GetChannels(Some(self.friends[i].user_id.clone()))
    }

    /// What the answer to clicking the `i`-th friend does: when it lists
    /// channels, the chat pane opens the first one under the friend's name
    /// and picture; any other answer changes nothing.
    pub fn open_answer(&self, i: usize, chat: &mut Chat, answer: ApiResponse) -> (r: Option<ApiEndpoints>)
        requires
            i < self.friends@.len(),
            answer matches ApiResponse::Channels(v) ==> v@.len() > 0,
        ensures
            answer matches ApiResponse::Channels(v) ==> opens(
                *old(chat),
                *final(chat),
                r,
                self.friends@[i as int].username,
                self.friends@[i as int].icon_path,
                v@[0].id,
            ),
            !(answer is Channels) ==> r is None && *final(chat) == *old(chat),
    {
        match answer {
            ApiResponse::Channels(v) => {
                let f = &self.friends[i];
                chat.open_chat(f.username.clone(), f.icon_path.clone(), v[0].id.clone())
            },
            _ => None,
        }
    }

    /// Whether `load_new_data` can list `data`: the count of pictureless
    /// entries stays within 255.
    pub fn accepts(&self, data: &Vec<Friend>) -> (r: bool)
        ensures
            r == (friend_entries(data@, self.discriminator as nat).1 <= 255),
    {
        let ghost d0 = self.discriminator as nat;
        let mut n: u64 = self.discriminator as u64;
        for i in 0..data.len()
            invariant
                d0 == self.discriminator as nat,
                n == friend_entries(data@.take(i as int), d0).1,
                n <= 255,
        {
            proof {
                assert(data@.take(i + 1).drop_last() =~= data@.take(i as int));
            }
            match &data[i].user.avatar {
                Some(_) => {},
                None => {
                    n = n + 1;
                },
            }
            if n > 255 {
                proof {
                    lemma_friend_entries_grow(data@, d0, i + 1);
                }
                return false;
            }
        }
        assert(data@.take(data@.len() as int) =~= data@);
        true
    }

    /// Lists friends as they come and says, for each, what it shows and which
    /// picture it shows; a friend without avatar gets the next stock avatar.
    pub fn load_new_data(&mut self, data: Vec<Friend>) -> (r: Vec<ListEntry>)
        requires
            old(self).wf(),
            friend_entries(data@, old(self).discriminator as nat).1 <= 255,
        ensures
            final(self).wf(),
            entry_views(r@) == friend_entries(data@, old(self).discriminator as nat).0,
            final(self).discriminator == friend_entries(data@, old(self).discriminator as nat).1,
            friend_views(final(self).friends@) == friends_loaded(
                friend_views(old(self).friends@),
                friend_entries(data@, old(self).discriminator as nat).0,
            ),
            forall|x: Seq<char>|
                #[trigger] is_friend(final(self).friends@, x) <==> (is_friend(old(self).friends@, x)
                    || has_user(data@, x)),
    {
        let ghost d0 = self.discriminator as nat;
        let ghost fs0 = self.friends@;
        let mut r: Vec<ListEntry> = Vec::new();
        for i in 0..data.len()
            invariant
                self.wf(),
                friend_entries(data@, d0).1 <= 255,
                entry_views(r@) == friend_entries(data@.take(i as int), d0).0,
                self.discriminator == friend_entries(data@.take(i as int), d0).1,
                friend_views(self.friends@) == friends_loaded(friend_views(fs0), friend_entries(data@.take(i as int), d0).0),
                forall|x: Seq<char>|
                    #[trigger] is_friend(self.friends@, x) <==> (is_friend(fs0, x) || has_user(
                        data@.take(i as int),
                        x,
                    )),
        {
            proof {
                assert(data@.take(i + 1).drop_last() =~= data@.take(i as int));
                lemma_friend_entries_grow(data@, d0, i + 1);
            }
            let u = &data[i].user;
            let ghost disc = self.discriminator as nat;
            let dir = dir_with("public/Discord/Users/", u.id.as_str());
            let entry = match &u.avatar {
                Some(p) => {
                    let url = url_with("https://cdn.discordapp.com/avatars/", u.id.as_str(), p.as_str(), ".png?size=80");
                    ListEntry { id: u.id.clone(), name: u.username.clone(), icon: CacheDownload { url, dir, file_name: p.clone() } }
                },
                None => {
                    let (url, file_name) = next_default_avatar(&mut self.discriminator);
                    ListEntry { id: u.id.clone(), name: u.username.clone(), icon: CacheDownload { url, dir, file_name } }
                },
            };
            assert(entry_view(entry) == friend_entry(data@[i as int], disc).0);
            let ghost before = r@;
            let pfp = entry.icon.cache_path();
            let (id, name) = (entry.id.clone(), entry.name.clone());
            let ghost ev = entry_view(entry);
            r.push(entry);
            assert(entry_views(r@) =~= entry_views(before).push(ev));
            self.add_friend(id, name, pfp);
            proof {
                let es1 = friend_entries(data@.take(i + 1), d0).0;
                assert(es1.drop_last() =~= friend_entries(data@.take(i as int), d0).0);
                assert(es1.last() == ev);
                let t = data@.take(i + 1);
                assert forall|x: Seq<char>| has_user(t, x) <==> (has_user(data@.take(i as int), x) || x
                    == data@[i as int].user.id@) by {
                    if has_user(t, x) {
                        let j = choose|j: int| 0 <= j < t.len() && #[trigger] t[j].user.id@ == x;
                        if j < i {
                            assert(data@.take(i as int)[j].user.id@ == x);
                        }
                    }
                    if has_user(data@.take(i as int), x) {
                        let j = choose|j: int| 0 <= j < i && #[trigger] data@.take(i as int)[j].user.id@ == x;
                        assert(t[j].user.id@ == x);
                    }
                    if x == data@[i as int].user.id@ {
                        assert(t[i as int].user.id@ == x);
                    }
                }
            }
        }
        assert(data@.take(data@.len() as int) =~= data@);
        r
    }
}


// === Guilds ===

/// The entry of a guild, and the count of pictureless entries after it.
pub open spec fn guild_entry(g: GuildData, disc: nat) -> (EntryView, nat) {
    match g.icon {
        Some(p) => ((g.id@, g.name@, guild_icon_url(g.id@, p@), guild_dir(g.id@), p@), disc),
        None => ((g.id@, g.name@, default_avatar_url(disc + 1), guild_dir(g.id@), decimal(disc + 1)), disc + 1),
    }
}

pub open spec fn guild_entries(gs: Seq<GuildData>, disc: nat) -> (Seq<EntryView>, nat)
    decreases gs.len(),
{
    if gs.len() == 0 {
        (seq![], disc)
    } else {
        let prev = guild_entries(gs.drop_last(), disc);
        let last = guild_entry(gs.last(), prev.1);
        (prev.0.push(last.0), last.1)
    }
}

proof fn lemma_guild_entries_grow(gs: Seq<GuildData>, disc: nat, i: int)
    requires
        0 <= i <= gs.len(),
    ensures
        disc <= guild_entries(gs.take(i), disc).1 <= guild_entries(gs, disc).1,
    decreases gs.len(),
{
    if gs.len() > 0 {
        if i == gs.len() {
            assert(gs.take(i) =~= gs);
            lemma_guild_entries_grow(gs.drop_last(), disc, i - 1);
            assert(gs.drop_last().take(i - 1) =~= gs.drop_last());
        } else {
            assert(gs.drop_last().take(i) =~= gs.take(i));
            lemma_guild_entries_grow(gs.drop_last(), disc, i);
        }
    } else {
        assert(gs.take(i) =~= gs);
    }
}

/// A guild in the guild bar.
pub struct Guild {
    pub guild_name: String,
    pub guild_id: String,
}

/// The guild bar.
pub struct Guilds {
    pub guilds: Vec<Guild>,
    /// How many entries so far had no picture of their own.
    pub discriminator: u8,
}

/// The (id, name) pairs a guild bar lists.
pub open spec fn guild_views(gs: Seq<Guild>) -> Seq<(Seq<char>, Seq<char>)> {
    gs.map_values(|g: Guild| (g.guild_id@, g.guild_name@))
}

impl Guilds {
    pub fn new() -> (r: Self)
        ensures
            r.guilds@.len() == 0,
            r.discriminator == 0,
    {
        Guilds { guilds: Vec::new(), discriminator: 0 }
    }

    pub fn add_guild(&mut self, guild_id: String, guild_name: String)
        ensures
            guild_views(final(self).guilds@) == guild_views(old(self).guilds@).push((guild_id@, guild_name@)),
            final(self).discriminator == old(self).discriminator,
    {
        let ghost before = self.guilds@;
        self.guilds.push(Guild { guild_name, guild_id });
        assert(guild_views(self.guilds@) =~= guild_views(before).push((guild_id@, guild_name@)));
    }

    /// Whether `load_new_data` can list `data`: the count of pictureless
    /// entries stays within 255.
    pub fn accepts(&self, data: &Vec<GuildData>) -> (r: bool)
        ensures
            r == (guild_entries(data@, self.discriminator as nat).1 <= 255),
    {
        let ghost d0 = self.discriminator as nat;
        let mut n: u64 = self.discriminator as u64;
        for i in 0..data.len()
            invariant
                d0 == self.discriminator as nat,
                n == guild_entries(data@.take(i as int), d0).1,
                n <= 255,
        {
            proof {
                assert(data@.take(i + 1).drop_last() =~= data@.take(i as int));
            }
            match &data[i].icon {
                Some(_) => {},
                None => {
                    n = n + 1;
                },
            }
            if n > 255 {
                proof {
                    lemma_guild_entries_grow(data@, d0, i + 1);
                }
                return false;
            }
        }
        assert(data@.take(data@.len() as int) =~= data@);
        true
    }

    /// Lists guilds as they come and says, for each, which picture it shows;
    /// a guild without icon gets the next stock avatar.
    pub fn load_new_data(&mut self, data: Vec<GuildData>) -> (r: Vec<ListEntry>)
        requires
            guild_entries(data@, old(self).discriminator as nat).1 <= 255,
        ensures
            entry_views(r@) == guild_entries(data@, old(self).discriminator as nat).0,
            final(self).discriminator == guild_entries(data@, old(self).discriminator as nat).1,
            guild_views(final(self).guilds@) == guild_views(old(self).guilds@) + data@.map_values(
                |g: GuildData| (g.id@, g.name@),
            ),
    {
        let ghost d0 = self.discriminator as nat;
        let ghost gs0 = guild_views(self.guilds@);
        let mut r: Vec<ListEntry> = Vec::new();
        for i in 0..data.len()
            invariant
                guild_entries(data@, d0).1 <= 255,
                entry_views(r@) == guild_entries(data@.take(i as int), d0).0,
                self.discriminator == guild_entries(data@.take(i as int), d0).1,
                guild_views(self.guilds@) == gs0 + data@.take(i as int).map_values(
                    |g: GuildData| (g.id@, g.name@),
                ),
        {
            proof {
                assert(data@.take(i + 1).drop_last() =~= data@.take(i as int));
                lemma_guild_entries_grow(data@, d0, i + 1);
            }
            let g = &data[i];
            let ghost disc = self.discriminator as nat;
            let dir = dir_with("public/Discord/Guilds/", g.id.as_str());
            let entry = match &g.icon {
                Some(p) => {
                    let url = url_with("https://cdn.discordapp.com/icons/", g.id.as_str(), p.as_str(), ".png?size=80");
                    ListEntry { id: g.id.clone(), name: g.name.clone(), icon: CacheDownload { url, dir, file_name: p.clone() } }
                },
                None => {
                    let (url, file_name) = next_default_avatar(&mut self.discriminator);
                    ListEntry { id: g.id.clone(), name: g.name.clone(), icon: CacheDownload { url, dir, file_name } }
                },
            };
            assert(entry_view(entry) == guild_entry(data@[i as int], disc).0);
            let ghost before = r@;
            r.push(entry);
            assert(entry_views(r@) =~= entry_views(before).push(entry_view(entry)));
            self.add_guild(g.id.clone(), g.name.clone());
            assert(data@.take(i + 1).map_values(|g: GuildData| (g.id@, g.name@)) =~= data@.take(
                i as int,
            ).map_values(|g: GuildData| (g.id@, g.name@)).push((data@[i as int].id@, data@[i as int].name@)));
        }
        assert(data@.take(data@.len() as int) =~= data@);
        r
    }
}

// === Filling the lists ===

/// `c1` is `c0` after listing the channels `data`, which gave the entries `r`.
pub open spec fn channels_loaded_from(c0: Channels, c1: Channels, data: Seq<Channel>, r: Seq<ListEntry>) -> bool {
    let d = c0.discriminator as nat;
    &&& entry_views(r) == channel_entries(data, d).0
    &&& c1.discriminator == channel_entries(data, d).1
    &&& listed_channels(c1.channels@) == listed_channels(c0.channels@) + listing_of(channel_entries(data, d).0)
}

/// `f1` is `f0` after listing the friends `data`, which gave the entries `r`.
pub open spec fn friends_loaded_from(f0: FriendList, f1: FriendList, data: Seq<Friend>, r: Seq<ListEntry>) -> bool {
    let d = f0.discriminator as nat;
    &&& f1.wf()
    &&& entry_views(r) == friend_entries(data, d).0
    &&& f1.discriminator == friend_entries(data, d).1
    &&& friend_views(f1.friends@) == friends_loaded(friend_views(f0.friends@), friend_entries(data, d).0)
}

/// Fills the lists from one answer of the account: friends go to the friend
/// list, channels to the channel list, and any other answer fills nothing
/// (`Some` of no entries). The result is `None`, and nothing changes, when
/// the list cannot take the answer: a direct message without its member, or
/// more pictureless entries than the count holds.
pub fn load_answer(channels: &mut Channels, friends: &mut FriendList, answer: ApiResponse) -> (r: Option<Vec<ListEntry>>)
    requires
        old(friends).wf(),
    ensures
        final(friends).wf(),
        r is None ==> *final(channels) == *old(channels) && *final(friends) == *old(friends),
        match answer {
            ApiResponse::Friends(d) => {
                &&& r is Some <==> friend_entries(d@, old(friends).discriminator as nat).1 <= 255
                &&& r matches Some(es) ==> friends_loaded_from(*old(friends), *final(friends), d@, es@) && *final(channels) == *old(channels)
            },
            ApiResponse::Channels(d) => {
                &&& r is Some <==> ((forall|i: int| 0 <= i < d@.len() ==> is_listable(#[trigger] d@[i]))
                    && channel_entries(d@, old(channels).discriminator as nat).1 <= 255)
                &&& r matches Some(es) ==> channels_loaded_from(*old(channels), *final(channels), d@, es@) && *final(friends) == *old(friends)
            },
            _ => r matches Some(es) && es@.len() == 0 && *final(channels) == *old(channels) && *final(friends)
                == *old(friends),
        },
{
    match answer {
        ApiResponse::Friends(d) => {
            if friends.accepts(&d) {
                Some(friends.load_new_data(d))
            } else {
                None
            }
        },
        ApiResponse::Channels(d) => {
            if channels.accepts(&d) {
                Some(channels.load_new_data(d))
            } else {
                None
            }
        },
        _ => Some(Vec::new()),
    }
}

// === Chat ===

/// A message shown in the chat pane; `sender_other_then_client` is `None`
/// for the signed-in user's own messages.
pub struct Message {
    pub sender_other_then_client: Option<String>,
    pub message_text: String,
}

/// What a shown message amounts to: its sender, if not the user, and text.
pub open spec fn shown(m: Message) -> (Option<Seq<char>>, Seq<char>) {
    (
        match m.sender_other_then_client {
            Some(s) => Some(s@),
            None => None,
        },
        m.message_text@,
    )
}

pub open spec fn shown_all(ms: Seq<Message>) -> Seq<(Option<Seq<char>>, Seq<char>)> {
    ms.map_values(|m: Message| shown(m))
}

/// How a fetched message is shown to the user `me`: without sender when it
/// is the user's own.
pub open spec fn shown_from(m: ApiMessage, me: Seq<char>) -> (Option<Seq<char>>, Seq<char>) {
    (if m.author.id@ == me { None } else { Some(m.author.username@) }, m.content@)
}

/// The chat pane: the channel open in it, the name and picture it is shown
/// under, and its messages, oldest first.
pub struct Chat {
    pub chat_label: String,
    pub chat_icon: String,
    pub messages: Vec<Message>,
    pub selected_channel_id: Option<String>,
}

/// What opening the channel `id`, shown as `name` with picture `icon`, does
/// to the pane `c0`, leaving `c1` and asking for `r`: the channel already
/// open changes nothing and asks for nothing; any other channel becomes the
/// open one under its name and picture, its pane is emptied, and its latest
/// 50 messages are asked for.
pub open spec fn opens(c0: Chat, c1: Chat, r: Option<ApiEndpoints>, name: String, icon: String, id: String) -> bool {
    if c0.selected_channel_id matches Some(s) && s@ == id@ {
        &&& r is None
        &&& c1.messages@ == c0.messages@
        &&& c1.selected_channel_id == c0.selected_channel_id
        &&& c1.chat_label == c0.chat_label
        &&& c1.chat_icon == c0.chat_icon
    } else {
        &&& c1.selected_channel_id == Some(id)
        &&& c1.chat_label == name
        &&& c1.chat_icon == icon
        &&& c1.messages@.len() == 0
        &&& r == Some(ApiEndpoints::GetMessages(id, None, 50))
    }
}

/// Opening a channel other than the one open makes it the open one, whatever
/// was open before, under its name and picture, and asks for its messages;
/// opening the open one again changes nothing.
pub proof fn lemma_opens(c0: Chat, c1: Chat, r: Option<ApiEndpoints>, name: String, icon: String, id: String)
    requires
        opens(c0, c1, r, name, icon, id),
    ensures
        !(c0.selected_channel_id matches Some(s) && s@ == id@) ==> {
            &&& c1.selected_channel_id == Some(id)
            &&& c1.chat_label == name
            &&& c1.chat_icon == icon
            &&& r == Some(ApiEndpoints::GetMessages(id, None, 50))
        },
        (c0.selected_channel_id matches Some(s) && s@ == id@) ==> {
            &&& r is None
            &&& c1.messages@ == c0.messages@
            &&& c1.selected_channel_id == c0.selected_channel_id
            &&& c1.chat_label == c0.chat_label
            &&& c1.chat_icon == c0.chat_icon
        },
{
}

/// Switching back: after opening `a`, then a different `b`, opening `a` again
/// shows `a` once more and asks for its messages anew.
pub proof fn lemma_opens_switch_back(
    c0: Chat,
    c1: Chat,
    c2: Chat,
    c3: Chat,
    r1: Option<ApiEndpoints>,
    r2: Option<ApiEndpoints>,
    r3: Option<ApiEndpoints>,
    name_a: String,
    icon_a: String,
    a: String,
    name_b: String,
    icon_b: String,
    b: String,
)
    requires
        opens(c0, c1, r1, name_a, icon_a, a),
        opens(c1, c2, r2, name_b, icon_b, b),
        opens(c2, c3, r3, name_a, icon_a, a),
        a@ != b@,
    ensures
        c2.selected_channel_id == Some(b),
        c2.chat_label == name_b,
        c3.selected_channel_id == Some(a),
        c3.chat_label == name_a,
        c3.chat_icon == icon_a,
        c3.messages@.len() == 0,
        r3 == Some(ApiEndpoints::GetMessages(a, None, 50)),
{
}

impl Chat {
    pub fn new() -> (r: Self)
        ensures
            r.messages@.len() == 0,
            r.selected_channel_id is None,
            r.chat_label@.len() == 0,
            r.chat_icon@.len() == 0,
    {
        Chat { chat_label: String::new(), chat_icon: String::new(), messages: Vec::new(), selected_channel_id: None }
    }

    pub fn append_message(&mut self, text: String, sender: Option<String>)
        ensures
            final(self).messages@ == old(self).messages@.push(
                Message { sender_other_then_client: sender, message_text: text },
            ),
            final(self).selected_channel_id == old(self).selected_channel_id,
            final(self).chat_label == old(self).chat_label,
            final(self).chat_icon == old(self).chat_icon,
    {
        self.messages.push(Message { sender_other_then_client: sender, message_text: text });
    }

    pub fn clear_messages(&mut self)
        ensures
            final(self).messages@.len() == 0,
            final(self).selected_channel_id == old(self).selected_channel_id,
            final(self).chat_label == old(self).chat_label,
            final(self).chat_icon == old(self).chat_icon,
    {
        self.messages = Vec::new();
    }

    /// Opens a channel in the pane, shown as `name` with the picture at
    /// `icon_path` (see `opens`).
    pub fn open_chat(&mut self, name: String, icon_path: String, channel_id: String) -> (r: Option<ApiEndpoints>)
        ensures
            opens(*old(self), *final(self), r, name, icon_path, channel_id),
            !(old(self).selected_channel_id matches Some(s) && s@ == channel_id@) ==> final(self).selected_channel_id
                == Some(channel_id) && final(self).chat_label == name && final(self).chat_icon == icon_path,
    {
        match &self.selected_channel_id {
            Some(s) => {
                if *s == channel_id {
                    return None;
                }
            },
            None => {},
        }
        self.selected_channel_id = Some(channel_id.clone());
        self.chat_label = name;
        self.chat_icon = icon_path;
        self.clear_messages();
        Some(ApiEndpoints::GetMessages(channel_id, None, 50))
    }

    /// Shows fetched messages, which come newest first, so that the oldest
    /// is shown first; the user `me`'s own are shown without sender.
    pub fn load_new_data(&mut self, data: Vec<ApiMessage>, me: &String)
        ensures
            shown_all(final(self).messages@) == shown_all(old(self).messages@) + data@.reverse().map_values(
                |m: ApiMessage| shown_from(m, me@),
            ),
            final(self).selected_channel_id == old(self).selected_channel_id,
            final(self).chat_label == old(self).chat_label,
            final(self).chat_icon == old(self).chat_icon,
    {
        let ghost before = shown_all(self.messages@);
        let ghost sel = self.selected_channel_id;
        let ghost label = self.chat_label;
        let ghost icon = self.chat_icon;
        let n = data.len();
        let mut k = n;
        while k > 0
            invariant
                k <= n == data@.len(),
                self.selected_channel_id == sel,
                sel == old(self).selected_channel_id,
                self.chat_label == label && label == old(self).chat_label,
                self.chat_icon == icon && icon == old(self).chat_icon,
                shown_all(self.messages@) == before + data@.reverse().take(n - k).map_values(
                    |m: ApiMessage| shown_from(m, me@),
                ),
            decreases k,
        {
            k = k - 1;
            let m = &data[k];
            let ghost prev = self.messages@;
            if m.author.id == *me {
                self.append_message(m.content.clone(), None);
            } else {
                self.append_message(m.content.clone(), Some(m.author.username.clone()));
            }
            proof {
                assert(data@.reverse()[n - k - 1] == data@[k as int]);
                assert(data@.reverse().take(n - k).map_values(|m: ApiMessage| shown_from(m, me@))
                    =~= data@.reverse().take(n - k - 1).map_values(|m: ApiMessage| shown_from(m, me@)).push(
                    shown_from(data@[k as int], me@),
                ));
                assert(shown_all(self.messages@) =~= shown_all(prev).push(shown_from(data@[k as int], me@)));
            }
        }
        assert(data@.reverse().take(n as int) =~= data@.reverse());
    }
}

} // verus!
