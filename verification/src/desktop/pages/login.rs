//! The sign-in page: pick a platform, type a token, submit.

use vstd::prelude::*;

use crate::adaptors::discord::Discord;

use super::MyAppMessage;

verus! {

/// The platforms the sign-in page offers.
#[derive(Debug, Clone, Copy, PartialEq, Eq, Structural)]
pub enum Platform {
    Discord,
    Test,
}

/// A name that no platform carries.
#[derive(Debug, Clone, Copy, PartialEq, Eq, Structural)]
pub enum ParseError {
    VariantNotFound,
}

/// The name a platform is shown and stored under.
pub open spec fn platform_name(p: Platform) -> Seq<char> {
    match p {
        Platform::Discord => "Discord"@,
        Platform::Test => "Test"@,
    }
}

/// How one signs in to a platform.
#[derive(Debug, Clone, Copy, PartialEq, Eq, Structural)]
pub enum LoginMethods {
    Token,
    Unkown,
}

impl Platform {
    /// The platform whose name is exactly `s`.
    pub fn from_str(s: &str) -> (r: Result<Platform, ParseError>)
        ensures
            r matches Ok(p) ==> s@ == platform_name(p),
            r is Err ==> s@ != "Discord"@ && s@ != "Test"@,
    {
        let s = s.to_owned();
        if s == String::from_str("Discord") {
            Ok(Platform::Discord)
        } else if s == String::from_str("Test") {
            Ok(Platform::Test)
        } else {
            Err(ParseError::VariantNotFound)
        }
    }

    /// The platform's name (what it displays as).
    pub fn to_string(&self) -> (r: String)
        ensures
            r@ == platform_name(*self),
    {
        match self {
            Platform::Discord => String::from_str("Discord"),
            Platform::Test => String::from_str("Test"),
        }
    }

    /// The account signed in to with `auth`; the test platform has none.
    pub fn to_messanger(&self, auth: String) -> (r: Discord)
        requires
            *self == Platform::Discord,
        ensures
            r.token@ == auth@,
            r.dms@.len() == 0,
    {
        Discord::new(auth.as_str())
    }

    /// The ways the page offers to sign in to the platform.
    pub fn get_login_methods(&self) -> (r: Vec<LoginMethods>)
        ensures
            r@ == (match *self {
                Platform::Discord => seq![LoginMethods::Token],
                Platform::Test => seq![LoginMethods::Unkown],
            }),
    {
        match self {
            Platform::Discord => vec![LoginMethods::Token],
            Platform::Test => vec![LoginMethods::Unkown],
        }
    }
}

/// A message to the sign-in page.
#[derive(Debug)]
pub enum Message {
    PlatformInput(Platform),
    TokenInput(String),
    SubmitToken,
}

/// The sign-in page: the platforms on offer, the chosen one, the token typed.
pub struct Login {
    pub platform: Vec<Platform>,
    pub selected_platform: Platform,
    pub token: String,
}

impl Login {
    /// A blank page offering Discord and the test platform, the test
    /// platform chosen.
    pub fn new() -> (r: Self)
        ensures
            r.platform@ == seq![Platform::Discord, Platform::Test],
            r.selected_platform == Platform::Test,
            r.token@.len() == 0,
    {
        Login { platform: vec![Platform::Discord, Platform::Test], selected_platform: Platform::Test, token: String::new() }
    }

    /// Answers a message: picking a platform chooses it, typing replaces the
    /// token, submitting signs in with the chosen platform and the token
    /// (the result is the account to sign in to; the page then fetches its
    /// data, stores it and makes way for the chat page). Messages to other
    /// pages change nothing.
    pub fn update(&mut self, message: MyAppMessage) -> (r: Option<Discord>)
        requires
            message matches MyAppMessage::Login(Message::SubmitToken) ==> old(self).selected_platform
                == Platform::Discord,
        ensures
            final(self).platform@ == old(self).platform@,
            match message {
                MyAppMessage::Login(Message::PlatformInput(p)) => {
                    &&& final(self).selected_platform == p
                    &&& final(self).token == old(self).token
                    &&& r is None
                },
                MyAppMessage::Login(Message::TokenInput(t)) => {
                    &&& final(self).selected_platform == old(self).selected_platform
                    &&& final(self).token == t
                    &&& r is None
                },
                MyAppMessage::Login(Message::SubmitToken) => {
                    &&& final(self).selected_platform == old(self).selected_platform
                    &&& final(self).token == old(self).token
                    &&& r matches Some(d) && d.token@ == old(self).token@ && d.dms@.len() == 0
                },
                MyAppMessage::Chat(_) => {
                    &&& final(self).selected_platform == old(self).selected_platform
                    &&& final(self).token == old(self).token
                    &&& r is None
                },
            },
    {
        match message {
            MyAppMessage::Login(m) => match m {
                Message::PlatformInput(platform) => {
                    self.selected_platform = platform;
                    None
                },
                Message::TokenInput(change) => {
                    self.token = change;
                    None
                },
                Message::SubmitToken => Some(self.selected_platform.to_messanger(self.token.clone())),
            },
            MyAppMessage::Chat(_) => None,
        }
    }
}

} // verus!
