use record::client::discord::rest_api::discord_endpoints::{
    ApiEndpoints, ApiResponse, Channel, Friend, Guilds as GuildData, Message, Recipient, User,
};
use record::client::ui::components::{load_answer, Channels, Chat, FriendList, Guilds};

fn recipient(id: &str, username: &str, avatar: Option<&str>) -> Recipient {
    Recipient {
        id: id.into(),
        username: username.into(),
        global_name: None,
        avatar: avatar.map(|a| a.to_string()),
        avatar_decoration_data: None,
        discriminator: "0".into(),
        public_flags: 0,
        clan: None,
        system: None,
        bot: None,
        accent_color: None,
        banner: None,
        banner_color: None,
        flags: None,
    }
}

fn channel(id: &str, type_of: i32, name: Option<&str>, icon: Option<&str>, rs: Vec<Recipient>) -> Channel {
    Channel {
        id: id.into(),
        type_of,
        last_message_id: None,
        flags: 0,
        recipients: rs,
        name: name.map(|n| n.to_string()),
        icon: icon.map(|i| i.to_string()),
        owner_id: None,
        last_pin_timestamp: None,
    }
}

fn user(id: &str, username: &str, avatar: Option<&str>) -> User {
    User {
        avatar: avatar.map(|a| a.to_string()),
        avatar_decoration_data: None,
        clan: None,
        discriminator: "0".into(),
        id: id.into(),
        public_flags: 0,
        global_name: None,
        username: username.into(),
    }
}

#[test]
fn channel_entries() {
    let mut list = Channels::new();
    let data = vec![
        channel("1", 1, None, None, vec![recipient("u1", "alice", Some("av"))]),
        channel("2", 1, None, None, vec![recipient("u2", "bob", None)]),
        channel("3", 3, Some("crew"), Some("ic"), vec![]),
        channel("4", 3, None, None, vec![recipient("a", "x", None), recipient("b", "y", None)]),
        channel("5", 3, None, None, vec![]),
        channel("6", 0, None, None, vec![]),
    ];
    let es = list.load_new_data(data);
    assert_eq!(es.len(), 6);
    assert_eq!(es[0].name, "alice");
    assert_eq!(es[0].icon.url, "https://cdn.discordapp.com/avatars/u1/av.png?size=80");
    assert_eq!(es[0].icon.cache_path(), "public/Discord/Channels/1/av");
    assert_eq!(es[1].name, "bob");
    assert_eq!(es[1].icon.url, "https://cdn.discordapp.com/embed/avatars/1.png");
    assert_eq!(es[1].icon.file_name, "1");
    assert_eq!(es[2].name, "crew");
    assert_eq!(es[2].icon.url, "https://cdn.discordapp.com/channel-icons/3/ic.png?size=80");
    assert_eq!(es[3].name, "x, y, ");
    assert_eq!(es[3].icon.url, "https://cdn.discordapp.com/embed/avatars/2.png");
    assert_eq!(es[4].name, "User's Group");
    assert_eq!(es[4].icon.file_name, "3");
    assert_eq!(es[5].name, "");
    assert_eq!(es[5].icon.cache_path(), "");
    assert_eq!(list.discriminator, 3);
    let ids: Vec<&str> = list.channels.iter().map(|c| c.channel_id.as_str()).collect();
    assert_eq!(ids, vec!["1", "2", "3", "4", "5", "6"]);
    assert_eq!(list.channels[1].username, "bob");
    assert_eq!(list.channels[1].icon_path, "public/Discord/Channels/2/1");
    assert_eq!(list.channels[2].icon_path, "public/Discord/Channels/3/ic");

    list.remove_channel("4".into());
    let ids: Vec<&str> = list.channels.iter().map(|c| c.channel_id.as_str()).collect();
    assert_eq!(ids, vec!["4"]);
}

#[test]
fn stock_avatars_take_turns() {
    let mut list = FriendList::new();
    let data: Vec<Friend> = (0..7)
        .map(|i| Friend {
            id: format!("r{}", i),
            nickname: None,
            since: None,
            type_of: 1,
            user: user(&format!("u{}", i), "n", None),
            is_spam_request: false,
        })
        .collect();
    let es = list.load_new_data(data);
    let urls: Vec<&str> = es.iter().map(|e| e.icon.url.as_str()).collect();
    assert_eq!(urls[0], "https://cdn.discordapp.com/embed/avatars/1.png");
    assert_eq!(urls[4], "https://cdn.discordapp.com/embed/avatars/0.png");
    assert_eq!(urls[6], "https://cdn.discordapp.com/embed/avatars/2.png");
    assert_eq!(es[6].icon.file_name, "7");
    assert_eq!(es[6].icon.cache_path(), "public/Discord/Users/u6/7");
    assert_eq!(list.discriminator, 7);
}

fn friend(user_id: &str, name: &str, avatar: Option<&str>) -> Friend {
    Friend {
        id: format!("r{}", user_id),
        nickname: None,
        since: None,
        type_of: 1,
        user: user(user_id, name, avatar),
        is_spam_request: false,
    }
}

#[test]
fn friends_by_user_id() {
    let mut list = FriendList::new();
    let es = list.load_new_data(vec![friend("u9", "zed", Some("h"))]);
    assert_eq!(es[0].id, "u9");
    assert_eq!(es[0].icon.url, "https://cdn.discordapp.com/avatars/u9/h.png?size=80");
    assert_eq!(list.discriminator, 0);
    assert_eq!(list.friends.len(), 1);
    assert_eq!(list.friends[0].username, "zed");
    assert_eq!(list.friends[0].icon_path, "public/Discord/Users/u9/h");

    list.add_friend("u9".into(), "zed2".into(), "p2".into());
    assert_eq!(list.friends.len(), 1);
    assert_eq!(list.friends[0].username, "zed2");
    assert_eq!(list.friends[0].icon_path, "p2");
    list.add_friend("u1".into(), "one".into(), "p1".into());
    let ids: Vec<&str> = list.friends.iter().map(|f| f.user_id.as_str()).collect();
    assert_eq!(ids, vec!["u9", "u1"]);
    list.remove_friend("u9".into());
    let ids: Vec<&str> = list.friends.iter().map(|f| f.user_id.as_str()).collect();
    assert_eq!(ids, vec!["u1"]);
}

#[test]
fn friend_listed_twice_once() {
    let mut list = FriendList::new();
    list.load_new_data(vec![friend("u1", "a", Some("x")), friend("u2", "b", None), friend("u1", "c", None)]);
    let ids: Vec<&str> = list.friends.iter().map(|f| f.user_id.as_str()).collect();
    assert_eq!(ids, vec!["u1", "u2"]);
    assert_eq!(list.friends[0].username, "c");
    assert_eq!(list.friends[0].icon_path, "public/Discord/Users/u1/2");
    assert_eq!(list.discriminator, 2);
}

#[test]
fn clicking_a_friend_opens_its_channel() {
    let mut list = FriendList::new();
    list.load_new_data(vec![friend("u5", "eve", Some("h5"))]);
    match list.click(0) {
        ApiEndpoints::GetChannels(Some(id)) => assert_eq!(id, "u5"),
        other => panic!("unexpected {:?}", other),
    }
    let mut chat = Chat::new();
    let answer = ApiResponse::Channels(vec![
        channel("dm5", 1, None, None, vec![recipient("u5", "eve", None)]),
        channel("other", 1, None, None, vec![recipient("u6", "x", None)]),
    ]);
    match list.open_answer(0, &mut chat, answer) {
        Some(ApiEndpoints::GetMessages(c, None, 50)) => assert_eq!(c, "dm5"),
        other => panic!("unexpected {:?}", other),
    }
    assert_eq!(chat.selected_channel_id.as_deref(), Some("dm5"));
    assert_eq!(chat.chat_label, "eve");
    assert_eq!(chat.chat_icon, "public/Discord/Users/u5/h5");

    let mut untouched = Chat::new();
    assert!(list.open_answer(0, &mut untouched, ApiResponse::Friends(vec![])).is_none());
    assert_eq!(untouched.selected_channel_id, None);
}

#[test]
fn clicking_a_channel_opens_it() {
    let mut list = Channels::new();
    list.load_new_data(vec![channel("7", 1, None, None, vec![recipient("u7", "kim", Some("k"))])]);
    let mut chat = Chat::new();
    match list.click(0, &mut chat) {
        Some(ApiEndpoints::GetMessages(c, None, 50)) => assert_eq!(c, "7"),
        other => panic!("unexpected {:?}", other),
    }
    assert_eq!(chat.chat_label, "kim");
    assert_eq!(chat.chat_icon, "public/Discord/Channels/7/k");
    assert!(list.click(0, &mut chat).is_none());
}

#[test]
fn lists_accept_what_they_can_show() {
    let channels = Channels::new();
    assert!(channels.accepts(&vec![channel("1", 1, None, None, vec![recipient("u", "n", None)])]));
    assert!(!channels.accepts(&vec![channel("1", 1, None, None, vec![])]));
    assert!(channels.accepts(&vec![channel("1", 3, None, None, vec![])]));
    let many: Vec<Channel> = (0..256).map(|i| channel(&i.to_string(), 3, None, None, vec![])).collect();
    assert!(!channels.accepts(&many));
    let enough: Vec<Channel> = (0..255).map(|i| channel(&i.to_string(), 3, None, None, vec![])).collect();
    assert!(channels.accepts(&enough));

    let friends = FriendList::new();
    let many: Vec<Friend> = (0..256).map(|i| friend(&i.to_string(), "n", None)).collect();
    assert!(!friends.accepts(&many));
    let pictured: Vec<Friend> = (0..300).map(|i| friend(&i.to_string(), "n", Some("p"))).collect();
    assert!(friends.accepts(&pictured));

    let mut bar = Guilds::new();
    bar.discriminator = 255;
    assert!(!bar.accepts(&vec![GuildData { id: "g".into(), name: "n".into(), icon: None }]));
    assert!(bar.accepts(&vec![GuildData { id: "g".into(), name: "n".into(), icon: Some("i".into()) }]));
}

#[test]
fn guild_entries() {
    let mut bar = Guilds::new();
    let es = bar.load_new_data(vec![
        GuildData { id: "g1".into(), name: "one".into(), icon: Some("i".into()) },
        GuildData { id: "g2".into(), name: "two".into(), icon: None },
    ]);
    assert_eq!(es[0].icon.url, "https://cdn.discordapp.com/icons/g1/i.png?size=80");
    assert_eq!(es[0].icon.cache_path(), "public/Discord/Guilds/g1/i");
    assert_eq!(es[1].icon.url, "https://cdn.discordapp.com/embed/avatars/1.png");
    assert_eq!(bar.discriminator, 1);
    assert_eq!(bar.guilds.len(), 2);
    assert_eq!(bar.guilds[1].guild_name, "two");
}

fn message(author_id: &str, author: &str, content: &str) -> Message {
    Message {
        author: user(author_id, author, None),
        channel_id: "c".into(),
        content: content.into(),
        edited_timestamp: None,
        flags: 0,
        id: "m".into(),
        mention_everyone: false,
        pinned: false,
        reactions: None,
        timestamp: "t".into(),
        tts: false,
    }
}

#[test]
fn chat_pane() {
    let mut chat = Chat::new();
    let req = chat.open_chat("Name".into(), "pic".into(), "c1".into());
    match req {
        Some(ApiEndpoints::GetMessages(c, None, 50)) => assert_eq!(c, "c1"),
        other => panic!("unexpected {:?}", other),
    }
    assert_eq!(chat.selected_channel_id.as_deref(), Some("c1"));
    assert_eq!(chat.chat_label, "Name");
    assert_eq!(chat.chat_icon, "pic");
    chat.load_new_data(vec![message("me", "Me", "newest"), message("o", "Other", "oldest")], &"me".to_string());
    assert_eq!(chat.messages.len(), 2);
    assert_eq!(chat.messages[0].message_text, "oldest");
    assert_eq!(chat.messages[0].sender_other_then_client.as_deref(), Some("Other"));
    assert_eq!(chat.messages[1].message_text, "newest");
    assert_eq!(chat.messages[1].sender_other_then_client, None);

    assert!(chat.open_chat("Other".into(), "x".into(), "c1".into()).is_none());
    assert_eq!(chat.chat_label, "Name");
    assert_eq!(chat.messages.len(), 2);
    assert!(chat.open_chat("Two".into(), "p2".into(), "c2".into()).is_some());
    assert_eq!(chat.chat_label, "Two");
    assert!(chat.messages.is_empty());
    chat.append_message("x".into(), None);
    chat.clear_messages();
    assert!(chat.messages.is_empty());
}

#[test]
fn answers_fill_their_lists() {
    let mut channels = Channels::new();
    let mut friends = FriendList::new();
    let es = load_answer(&mut channels, &mut friends, ApiResponse::Friends(vec![friend("u1", "a", None)])).unwrap();
    assert_eq!(es.len(), 1);
    assert_eq!(friends.friends.len(), 1);
    assert_eq!(friends.friends[0].icon_path, "public/Discord/Users/u1/1");
    assert!(channels.channels.is_empty());

    let es = load_answer(
        &mut channels,
        &mut friends,
        ApiResponse::Channels(vec![channel("9", 3, Some("g"), None, vec![])]),
    )
    .unwrap();
    assert_eq!(es[0].name, "g");
    assert_eq!(channels.channels.len(), 1);
    assert_eq!(channels.discriminator, 1);
    assert_eq!(friends.friends.len(), 1);

    assert!(load_answer(&mut channels, &mut friends, ApiResponse::Messeges(vec![])).unwrap().is_empty());
    assert!(load_answer(&mut channels, &mut friends, ApiResponse::Channels(vec![channel("8", 1, None, None, vec![])])).is_none());
    assert_eq!(channels.channels.len(), 1);
}

#[test]
fn later_entries_replace_earlier_ones_in_place() {
    let mut list = FriendList::new();
    list.add_friend("old".into(), "Old".into(), "po".into());
    list.load_new_data(vec![friend("u1", "first", Some("a")), friend("u1", "second", Some("b"))]);
    assert_eq!(list.friends.len(), 2);
    assert_eq!(list.friends[0].username, "Old");
    assert_eq!(list.friends[0].icon_path, "po");
    assert_eq!(list.friends[1].username, "second");
    assert_eq!(list.friends[1].icon_path, "public/Discord/Users/u1/b");
}
