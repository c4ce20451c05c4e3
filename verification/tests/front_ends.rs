use record::adaptors::discord::Discord;
use record::adaptors::types::{Message as ChatMessage, MsgsStore, User};
use record::desktop::auth::{AuthStore as DesktopStore, LoadError};
use record::desktop::pages::chat::{Main, Message as ChatMsg, MessangerWindow, MsngrData};
use record::desktop::pages::login::{Login, LoginMethods, Message as LoginMsg, Platform as LoginPlatform};
use record::desktop::pages::MyAppMessage;
use record::tray::auth::{AuthStore as TrayStore, Platform as TrayPlatform};
use record::tray::ui::Conversation;

#[test]
fn tray_store_round_trip() {
    let mut store = TrayStore::new("").unwrap();
    assert!(store.is_empty());
    assert!(store.add_auth(TrayPlatform::Discord.get_messanger("a".into())));
    assert!(store.add_auth_silently(Discord::new("b")));
    assert!(!store.add_auth(Discord::new("a")));
    assert_eq!(store.get_messangers().len(), 2);
    assert!(store.contains(&Discord::new("b")));
    let file = store.file_sync();
    assert_eq!(file, "Discord:a\nDiscord:b\n");
    let back = TrayStore::new(&file).unwrap();
    let toks: Vec<&str> = back.messangers.iter().map(|m| m.token.as_str()).collect();
    assert_eq!(toks, vec!["a", "b"]);
    assert!(TrayStore::new("Slack:x\n").is_err());

    store.retain(|m| m.token != "a");
    assert_eq!(store.file_sync(), "Discord:b\n");
    assert_eq!(TrayPlatform::from_str("Discord").map(|p| p.to_string()), Ok("Discord".to_string()));
    assert!(TrayPlatform::from_str("Test").is_err());
}

#[test]
fn desktop_store_keeps_only_added_accounts_on_disk() {
    let mut store = DesktopStore::new("Discord:old\n").unwrap();
    assert_eq!(store.get_messangers().len(), 1);
    assert!(!store.get_messangers()[0].on_disk);
    assert_eq!(store.save_on_disk(), "");
    assert!(store.add_auth(Discord::new("new")));
    assert!(!store.add_auth(Discord::new("old")));
    assert!(store.contains_auth(&Discord::new("old")));
    assert_eq!(store.save_on_disk(), "Discord:new\n");
    store.retain(|m| m.on_disk);
    assert_eq!(store.get_messangers().len(), 1);
    assert!(!store.is_empty());
    assert_eq!(DesktopStore::new("Test:x\n").err(), Some(LoadError::NotImplemented));
    assert_eq!(DesktopStore::new("Discord:a\nOther:x\nTest:y\n").err(), Some(LoadError::VariantNotFound));
}

#[test]
fn login_page() {
    let mut login = Login::new();
    assert_eq!(login.selected_platform, LoginPlatform::Test);
    assert_eq!(login.platform, vec![LoginPlatform::Discord, LoginPlatform::Test]);
    assert!(login.update(MyAppMessage::Login(LoginMsg::PlatformInput(LoginPlatform::Discord))).is_none());
    assert!(login.update(MyAppMessage::Login(LoginMsg::TokenInput("tok".into()))).is_none());
    assert!(login.update(MyAppMessage::Chat(ChatMsg::OpenContacts)).is_none());
    let d = login.update(MyAppMessage::Login(LoginMsg::SubmitToken)).unwrap();
    assert_eq!(d.token, "tok");
    assert_eq!(LoginPlatform::Discord.get_login_methods(), vec![LoginMethods::Token]);
    assert_eq!(LoginPlatform::Test.get_login_methods(), vec![LoginMethods::Unkown]);
    assert_eq!(LoginPlatform::from_str("Test"), Ok(LoginPlatform::Test));
    assert_eq!(LoginPlatform::Test.to_string(), "Test");
    assert_eq!(LoginPlatform::Discord.to_messanger("z".into()).token, "z");
}

#[test]
fn chat_page() {
    let data = MsngrData {
        profile: User { id: "1".into(), username: "me".into() },
        contacts: vec![],
        conversations: vec![],
        guilds: vec![],
    };
    let mut w = MessangerWindow::new(vec![data]);
    assert!(matches!(w.main, Main::Contacts));
    let store = MsgsStore { id: "c".into(), name: "n".into(), icon: None };
    let asked = w.update(ChatMsg::OpenConversation(store).into()).unwrap();
    assert_eq!(asked.id, "c");
    assert!(matches!(w.main, Main::Contacts));
    w.show_chat(vec![ChatMessage { id: "m".into(), sender: User { id: "1".into(), username: "me".into() }, text: "hi".into() }]);
    assert!(matches!(&w.main, Main::Chat { messages } if messages.len() == 1));
    assert!(w.update(ChatMsg::OpenContacts.into()).is_none());
    assert!(matches!(w.main, Main::Contacts));
    assert_eq!(w.messangers_data[0].profile.username, "me");
}

#[test]
fn tray_conversations() {
    let s = MsgsStore { id: "i".into(), name: "n".into(), icon: Some("p".into()) };
    let c: Conversation = (&s).into();
    assert_eq!((c.id.as_str(), c.name.as_str()), ("i", "n"));
}

#[test]
fn conversations_account_after_account() {
    let s = |id: &str| MsgsStore { id: id.into(), name: format!("n{}", id), icon: None };
    let lists = vec![vec![s("1"), s("2")], vec![], vec![s("3")]];
    let cs = record::tray::ui::conversations_of(&lists);
    let ids: Vec<&str> = cs.iter().map(|c| c.id.as_str()).collect();
    assert_eq!(ids, vec!["1", "2", "3"]);
    assert_eq!(cs[2].name, "n3");
}

#[test]
fn guild_bar_pictures() {
    let data = MsngrData {
        profile: User { id: "1".into(), username: "me".into() },
        contacts: vec![],
        conversations: vec![],
        guilds: vec![
            MsgsStore { id: "g1".into(), name: "one".into(), icon: Some("public/Discord/Guilds/g1/i".into()) },
            MsgsStore { id: "g2".into(), name: "two".into(), icon: None },
        ],
    };
    let w = MessangerWindow::new(vec![data]);
    assert_eq!(w.guild_pictures(), vec!["public/Discord/Guilds/g1/i".to_string(), "./public/imgs/placeholder.jpg".to_string()]);
}
