use record::client::auth::{keeps_sign_in, Auth, AuthStore, ParseError, Platform};
use record::client::backend::discord::json_structs::{Channel, ChannelTypes, Recipient};
use record::client::backend::discord::rest_api::{contacts_url, conversations_url, profile_url, MessageOrigin};
use record::client::backend::utils::{check_status, Request_Type};
use record::client::discord::discord_endpoints::{self, FRIENDLIST_URL};
use record::client::discord::rest_api::discord_endpoints::{ApiEndpoints, ResponseShape, DISCORD_GATEWAY};
use record::client::ui::conversation_key;

#[test]
fn platform_names() {
    assert_eq!(Platform::from_str("Discord"), Ok(Platform::Discord));
    assert_eq!(Platform::from_str("Unkown"), Ok(Platform::Unkown));
    assert_eq!(Platform::from_str("discord"), Err(ParseError::VariantNotFound));
    assert_eq!(Platform::Discord.name(), "Discord");
    assert_eq!(Platform::Unkown.name(), "Unkown");
}

#[test]
fn auth_lines_and_secrets() {
    let a = Auth::new(Platform::Discord, "s3cr:et".to_string());
    assert_eq!(a.token_text(), "s3cr:et");
    assert_eq!(a.to_line(), "Discord:s3cr:et");
    let m = a.get_messanger();
    assert_eq!(m.auth_header(), vec![("Authorization", "s3cr:et".to_string())]);
    assert_eq!(m.recover_auth().token_text(), "s3cr:et");
}

#[test]
fn store_reads_what_it_wrote() {
    let mut store = AuthStore::new("").unwrap();
    assert!(store.is_empty());
    let mut file = String::new();
    file.push_str(&store.add(Platform::Discord, "tok1".to_string()));
    file.push_str(&store.add(Platform::Unkown, "to:k2".to_string()));
    assert_eq!(file, "Discord:tok1\nUnkown:to:k2\n");
    assert!(!store.is_empty());
    assert_eq!(store.get(1).token_text(), "to:k2");

    let reread = AuthStore::new(&file).unwrap();
    assert_eq!(reread.auths.len(), 2);
    assert_eq!(reread.get(0).platform, Platform::Discord);
    assert_eq!(reread.get(0).token_text(), "tok1");
    assert_eq!(reread.get(1).platform, Platform::Unkown);
    assert_eq!(reread.get(1).token_text(), "to:k2");
}

#[test]
fn store_rejects_unknown_platforms() {
    assert!(matches!(AuthStore::new("Discord:a\nSlack:b\n"), Err(ParseError::VariantNotFound)));
    let skipped = AuthStore::new("just a line\nDiscord:a\n").unwrap();
    assert_eq!(skipped.auths.len(), 1);
}

#[test]
fn backend_addresses() {
    assert_eq!(contacts_url(), "https://discord.com/api/v9/users/@me/relationships");
    assert_eq!(conversations_url(), "https://discord.com/api/v10/users/@me/channels");
    assert_eq!(profile_url(), "https://discord.com/api/v9/users/@me");
    let o = MessageOrigin { channel_id: "12".into(), message_limit: "50".into(), load_from_message: None };
    assert_eq!(o.messages_url(), "https://discord.com/api/v9/channels/12/messages?limit=50");
    let o = MessageOrigin { channel_id: "12".into(), message_limit: "10".into(), load_from_message: Some("7".into()) };
    assert_eq!(o.messages_url(), "https://discord.com/api/v9/channels/12/messages?before=7&limit=10");
    assert_eq!(check_status(200), Ok(()));
    assert_eq!(check_status(500), Err(401));
    assert_ne!(Request_Type::GET, Request_Type::POST);
}

#[test]
fn endpoints() {
    assert_eq!(FRIENDLIST_URL, "https://discord.com/api/v9/users/@me/relationships");
    assert_eq!(discord_endpoints::ApiEndpoints::FriendList.get_url(), FRIENDLIST_URL);
    assert_eq!(DISCORD_GATEWAY, "wss://gateway.discord.gg/?v=10&encoding=json");
    assert_eq!(ApiEndpoints::FriendList.get_url(), "https://discord.com/api/v9/users/@me/relationships");
    assert_eq!(ApiEndpoints::GetChannels(None).get_url(), "https://discord.com/api/v10/users/@me/channels");
    assert_eq!(ApiEndpoints::GetUser.get_url(), "https://discord.com/api/v9/users/@me");
    assert_eq!(
        ApiEndpoints::GetMessages("5".into(), None, 50).get_url(),
        "https://discord.com/api/v9/channels/5/messages?limit=50"
    );
    assert_eq!(
        ApiEndpoints::GetMessages("5".into(), Some("9".into()), 4294967295).get_url(),
        "https://discord.com/api/v9/channels/5/messages?before=9&limit=4294967295"
    );
    assert_eq!(ApiEndpoints::GetChannels(Some("u".into())).recipient().map(|s| s.as_str()), Some("u"));
    assert_eq!(ApiEndpoints::GetChannels(None).recipient(), None);
    assert_eq!(ApiEndpoints::GetUser.recipient(), None);
    assert_eq!(ApiEndpoints::GetChannels(Some("u".into())).response_shape(), ResponseShape::SingleChannel);
    assert_eq!(ApiEndpoints::GetChannels(None).response_shape(), ResponseShape::Channels);
    assert_eq!(ApiEndpoints::FriendList.response_shape(), ResponseShape::Friends);
    assert_eq!(ApiEndpoints::GetMessages("1".into(), None, 1).response_shape(), ResponseShape::Messages);
    assert_eq!(ApiEndpoints::GetUser.response_shape(), ResponseShape::User);
}

fn recipient(id: &str, username: &str, global: Option<&str>, avatar: Option<&str>) -> Recipient {
    Recipient {
        avatar: avatar.map(|a| a.to_string()),
        avatar_decoration_data: None,
        clan: None,
        discriminator: "0".into(),
        global_name: global.map(|g| g.to_string()),
        id: id.into(),
        public_flags: 0,
        username: username.into(),
    }
}

fn dm(id: &str, r: Recipient) -> Channel {
    Channel {
        id: id.into(),
        channel_type: ChannelTypes::DM,
        flags: 0,
        icon: None,
        last_message_id: "0".into(),
        name: None,
        recipients: vec![r],
    }
}

#[test]
fn direct_messages_as_conversations() {
    let (c, dl) = dm("77", recipient("u1", "alice", Some("Alice A."), Some("hash"))).into_conversation();
    assert_eq!(c.id, "77");
    assert_eq!(c.name, "Alice A.");
    assert_eq!(c.platform, "Discord");
    assert_eq!(c.image, "public/Discord/Users/77/hash.png");
    let dl = dl.unwrap();
    assert_eq!(dl.url, "https://cdn.discordapp.com/avatars/u1/hash.png?size=80");
    assert_eq!(dl.dir, "public/Discord/Users/77");
    assert_eq!(dl.file_name, "hash.png");

    let (c, dl) = dm("78", recipient("u2", "bob", None, None)).into_conversation();
    assert_eq!(c.name, "bob");
    assert_eq!(c.image, "public/Assets/avatar.png");
    assert!(dl.is_none());
}

#[test]
fn conversation_keys() {
    assert_eq!(conversation_key(Platform::Discord, "12"), vec![0, b'1', b'2']);
    assert_eq!(conversation_key(Platform::Unkown, "é"), vec![1, 0xc3, 0xa9]);
    assert_ne!(conversation_key(Platform::Discord, "1"), conversation_key(Platform::Unkown, "1"));
}

#[test]
fn refresh_drops_expired_sign_ins() {
    assert!(keeps_sign_in(&Ok(())));
    assert!(!keeps_sign_in(&Err(401)));
    assert!(keeps_sign_in(&Err(500)));

    let mut store = AuthStore::new("Discord:a\nUnkown:b\nDiscord:c\n").unwrap();
    assert_eq!(store.file_contents(), "Discord:a\nUnkown:b\nDiscord:c\n");
    let text = store.retain_and_rewrite(|auth| auth.platform == Platform::Discord);
    assert_eq!(text, "Discord:a\nDiscord:c\n");
    assert_eq!(store.auths.len(), 2);
}

#[test]
fn appended_sign_ins_read_after_the_earlier_ones() {
    let earlier = "a note without colon\r\nUnkown:old\n";
    let mut store = AuthStore::new(earlier).unwrap();
    assert_eq!(store.auths.len(), 1);
    let mut file = earlier.to_string();
    file.push_str(&store.add(Platform::Discord, "new1".to_string()));
    file.push_str(&store.add(Platform::Discord, "n:ew2".to_string()));
    let reread = AuthStore::new(&file).unwrap();
    assert_eq!(reread.auths.len(), 3);
    assert_eq!(reread.get(0).platform, Platform::Unkown);
    assert_eq!(reread.get(0).token_text(), "old");
    assert_eq!(reread.get(1).token_text(), "new1");
    assert_eq!(reread.get(2).platform, Platform::Discord);
    assert_eq!(reread.get(2).token_text(), "n:ew2");
}
