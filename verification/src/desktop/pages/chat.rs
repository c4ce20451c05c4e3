//! The chat page: the accounts' data, and the contacts or a conversation.

use vstd::prelude::*;

use crate::adaptors::types::{Message as ChatMessage, MsgsStore, User};

use super::MyAppMessage;

verus! {

/// A message to the chat page.
#[derive(Debug)]
pub enum Message {
    OpenContacts,
    OpenConversation(MsgsStore),
}

impl Message {
    /// The message addressed to the chat page.
    pub fn into(self) -> (r: MyAppMessage)
        ensures
            r == MyAppMessage::Chat(self),
    {
        MyAppMessage::Chat(self)
    }
}

/// What an account brought along when the page opened.
#[derive(Debug)]
pub struct MsngrData {
    pub profile: User,
    pub contacts: Vec<User>,
    pub conversations: Vec<MsgsStore>,
    pub guilds: Vec<MsgsStore>,
}

/// What the main pane shows.
#[derive(Debug)]
pub enum Main {
    Contacts,
    Chat { messages: Vec<ChatMessage> },
}

/// The picture the guild bar shows for a guild: its cached icon, else the
/// placeholder picture.
pub open spec fn guild_picture(g: MsgsStore) -> Seq<char> {
    match g.icon {
        Some(p) => p@,
        None => "./public/imgs/placeholder.jpg"@,
    }
}

/// The chat page.
pub struct MessangerWindow {
    pub main: Main,
    pub messangers_data: Vec<MsngrData>,
}

impl MessangerWindow {
    /// The page over what the accounts brought, showing the contacts.
    pub fn new(messangers_data: Vec<MsngrData>) -> (r: Self)
        ensures
            r.main is Contacts,
            r.messangers_data == messangers_data,
    {
        MessangerWindow { main: Main::Contacts, messangers_data }
    }

    /// Answers a message: opening the contacts shows them; opening a
    /// conversation asks for its messages (the result), which `show_chat`
    /// then shows. Messages to other pages change nothing.
    pub fn update(&mut self, message: MyAppMessage) -> (r: Option<MsgsStore>)
        ensures
            final(self).messangers_data == old(self).messangers_data,
            match message {
                MyAppMessage::Chat(Message::OpenContacts) => final(self).main is Contacts && r is None,
                MyAppMessage::Chat(Message::OpenConversation(s)) => final(self).main == old(self).main && r
                    == Some(s),
                MyAppMessage::Login(_) => final(self).main == old(self).main && r is None,
            },
    {
        match message {
            MyAppMessage::Chat(m) => match m {
                Message::OpenConversation(msgs_store) => Some(msgs_store),
                Message::OpenContacts => {
                    self.main = Main::Contacts;
                    None
                },
            },
            MyAppMessage::Login(_) => None,
        }
    }

    /// The pictures of the guild bar, which shows the first account's
    /// guilds in order.
    pub fn guild_pictures(&self) -> (r: Vec<String>)
        requires
            self.messangers_data@.len() > 0,
        ensures
            r@.len() == self.messangers_data@[0].guilds@.len(),
            forall|i: int| 0 <= i < r@.len() ==> (#[trigger] r@[i])@ == guild_picture(self.messangers_data@[0].guilds@[i]),
    {
        let guilds = &self.messangers_data[0].guilds;
        let mut r: Vec<String> = Vec::new();
        for i in 0..guilds.len()
            invariant
                guilds == self.messangers_data@[0].guilds,
                r@.len() == i,
                forall|k: int| 0 <= k < i ==> (#[trigger] r@[k])@ == guild_picture(guilds@[k]),
        {
            let picture = match &guilds[i].icon {
                Some(p) => p.clone(),
                None => String::from_str("./public/imgs/placeholder.jpg"),
            };
            r.push(picture);
        }
        r
    }

    /// Shows the messages of the conversation opened.
    pub fn show_chat(&mut self, messages: Vec<ChatMessage>)
        ensures
            final(self).main == (Main::Chat { messages }),
            final(self).messangers_data == old(self).messangers_data,
    {
        self.main = Main::Chat { messages };
    }
}

} // verus!
