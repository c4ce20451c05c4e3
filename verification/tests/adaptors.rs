use record::adaptors::discord::json_structs::{
    Channel, Friend, Guild, Message, Profile, Recipient, User as DiscordUser,
};
use record::adaptors::discord::rest_api::{contacts_url, conversations_url, guilds_url, profile_url};
use record::adaptors::discord::Discord;
use record::adaptors::network::{check_status, CacheDownload, UNAUTHORIZED};
use record::adaptors::same_messanger;
use record::adaptors::types::{Message as GlobalMessage, MsgsStore, User};

fn channel(id: &str, name: Option<&str>, recipients: &[&str]) -> Channel {
    Channel {
        id: id.to_string(),
        last_message_id: "0".to_string(),
        name: name.map(|n| n.to_string()),
        recipients: recipients.iter().map(|r| Recipient { username: r.to_string() }).collect(),
    }
}

#[test]
fn discord_account() {
    let d = Discord::new("tok");
    assert_eq!(d.name(), "Discord");
    assert_eq!(d.auth(), "tok");
    assert!(d.dms.is_empty());
    assert_eq!(d.get_auth_header(), vec![("Authorization", "tok".to_string())]);
}

#[test]
fn endpoint_addresses() {
    assert_eq!(profile_url(), "https://discord.com/api/v9/users/@me");
    assert_eq!(contacts_url(), "https://discord.com/api/v9/users/@me/relationships");
    assert_eq!(conversations_url(), "https://discord.com/api/v10/users/@me/channels");
    assert_eq!(guilds_url(), "https://discord.com/api/v10/users/@me/guilds");
}

#[test]
fn profile_becomes_user() {
    let u: User = Profile { id: "1".into(), username: "me".into() }.into();
    assert_eq!((u.id.as_str(), u.username.as_str()), ("1", "me"));
}

#[test]
fn contacts_carry_relationship_ids() {
    let friends = vec![
        Friend { id: "r1".into(), user: DiscordUser { id: "u1".into(), username: "alice".into() } },
        Friend { id: "r2".into(), user: DiscordUser { id: "u2".into(), username: "bob".into() } },
    ];
    let users = Discord::contacts_from(&friends);
    assert_eq!(users.len(), 2);
    assert_eq!((users[0].id.as_str(), users[0].username.as_str()), ("r1", "alice"));
    assert_eq!((users[1].id.as_str(), users[1].username.as_str()), ("r2", "bob"));
}

#[test]
fn conversations_are_named_and_remembered() {
    let mut d = Discord::new("tok");
    let chans = vec![
        channel("1", Some("group"), &["x"]),
        channel("2", None, &["carol", "dave"]),
        channel("3", None, &[]),
    ];
    let convs = d.store_conversations(chans);
    let names: Vec<&str> = convs.iter().map(|c| c.name.as_str()).collect();
    assert_eq!(names, vec!["group", "carol", "Fix later"]);
    assert!(convs.iter().all(|c| c.icon.is_none()));
    assert_eq!(convs[1].id, "2");
    assert_eq!(d.dms.len(), 3);
    assert_eq!(d.dms[2].id, "3");
}

#[test]
fn guild_icons() {
    let g = Guild { id: "42".into(), name: "club".into(), icon: Some("abc".into()) };
    let dl = Discord::guild_icon_download(&g).unwrap();
    assert_eq!(dl.url, "https://cdn.discordapp.com/icons/42/abc.webp?size=80&quality=lossless");
    assert_eq!(dl.dir, "./cache/discord/guilds/42/imgs/");
    assert_eq!(dl.file_name, "abc.webp");
    assert_eq!(dl.cache_path(), "./cache/discord/guilds/42/imgs/abc.webp");

    let s = Discord::guild_store(&g, Some(dl.cache_path()));
    assert_eq!(s.icon.as_deref(), Some("./cache/discord/guilds/42/imgs/abc.webp"));
    let failed = Discord::guild_store(&g, None);
    assert_eq!(failed.icon, None);

    let plain = Guild { id: "7".into(), name: "plain".into(), icon: None };
    assert!(Discord::guild_icon_download(&plain).is_none());
    let s = Discord::guild_store(&plain, Some("ignored".into()));
    assert_eq!((s.id.as_str(), s.name.as_str(), s.icon.clone()), ("7", "plain", None));
    let via_into: MsgsStore = (&g).into();
    assert_eq!((via_into.id.as_str(), via_into.icon.clone()), ("42", None));
}

#[test]
fn message_addresses() {
    let loc = MsgsStore { id: "99".into(), name: "n".into(), icon: None };
    assert_eq!(Discord::messages_url(&loc, &None), "https://discord.com/api/v10/channels/99/messages");
    let before = GlobalMessage {
        id: "555".into(),
        sender: User { id: "u".into(), username: "x".into() },
        text: "t".into(),
    };
    assert_eq!(
        Discord::messages_url(&loc, &Some(before)),
        "https://discord.com/api/v10/channels/99/messages?555"
    );
}

#[test]
fn messages_convert() {
    let msgs = vec![Message {
        author: DiscordUser { id: "a".into(), username: "ann".into() },
        content: "hi".into(),
        id: "m1".into(),
    }];
    let out = Discord::messages_from(&msgs);
    assert_eq!(out.len(), 1);
    assert_eq!(out[0].id, "m1");
    assert_eq!(out[0].text, "hi");
    assert_eq!((out[0].sender.id.as_str(), out[0].sender.username.as_str()), ("a", "ann"));
}

#[test]
fn same_account_by_token() {
    assert!(same_messanger(&Discord::new("t1"), &Discord::new("t1")));
    assert!(!same_messanger(&Discord::new("t1"), &Discord::new("t2")));
}

#[test]
fn status_check() {
    assert_eq!(check_status(200), Ok(()));
    assert_eq!(check_status(404), Err(UNAUTHORIZED));
    assert_eq!(check_status(401), Err(401));
}

#[test]
fn cache_paths() {
    let d = CacheDownload { url: "u".into(), dir: "dir".into(), file_name: "f.png".into() };
    assert_eq!(d.cache_path(), "dir/f.png");
}
