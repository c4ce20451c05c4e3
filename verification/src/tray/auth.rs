//! The tray front end's sign-ins: the Discord accounts it keeps, and the
//! token file it rewrites whenever they change.

use vstd::prelude::*;

use crate::adaptors::discord::Discord;
use crate::adaptors::{lemma_same_discord_iff_same_token, same_messanger};
use crate::selection::{answers, retain_with, select};
use crate::text::{is_plain_line, lemma_join_lines_push, push_char};
use crate::token_file::{entries_of, entry_line, entry_lines, file_of, is_storable, lemma_read_back, read_entries};

verus! {

/// The platforms the tray front end signs in to.
#[derive(Debug, Clone, Copy, PartialEq, Eq, Structural)]
pub enum Platform {
    Discord,
}

/// A name that no platform carries.
#[derive(Debug, Clone, Copy, PartialEq, Eq, Structural)]
pub enum ParseError {
    VariantNotFound,
}

impl Platform {
    /// The platform whose name is exactly `s`.
    pub fn from_str(s: &str) -> (r: Result<Platform, ParseError>)
        ensures
            r is Ok <==> s@ == "Discord"@,
    {
        if s.to_owned() == String::from_str("Discord") {
            Ok(Platform::Discord)
        } else {
            Err(ParseError::VariantNotFound)
        }
    }

    /// The platform's name.
    pub fn to_string(&self) -> (r: String)
        ensures
            r@ == "Discord"@,
    {
        String::from_str("Discord")
    }

    /// The account signed in to with `auth`.
    pub fn get_messanger(&self, auth: String) -> (r: Discord)
        ensures
            r.token@ == auth@,
            r.dms@.len() == 0,
    {
        Discord::new(auth.as_str())
    }
}

/// The tokens of a list of accounts.
pub open spec fn tokens_of(ms: Seq<Discord>) -> Seq<Seq<char>> {
    ms.map_values(|m: Discord| m.token@)
}

/// The lines a list of Discord tokens is written as.
pub open spec fn discord_entries(ts: Seq<Seq<char>>) -> Seq<(Seq<char>, Seq<char>)> {
    ts.map_values(|t: Seq<char>| ("Discord"@, t))
}

/// A token file every line of which is a Discord account.
pub open spec fn all_discord(es: Seq<(Seq<char>, Seq<char>)>) -> bool {
    forall|i: int| 0 <= i < es.len() ==> (#[trigger] es[i]).0 == "Discord"@
}

/// The tray front end's accounts, in the order they were read or added.
pub struct AuthStore {
    pub messangers: Vec<Discord>,
}

impl AuthStore {
    /// The accounts a token file holds; a line naming another platform is an
    /// error.
    pub fn new(contents: &str) -> (r: Result<AuthStore, ParseError>)
        ensures
            r is Ok <==> all_discord(entries_of(contents@)),
            r matches Ok(s) ==> tokens_of(s.messangers@) == entries_of(contents@).map_values(
                |e: (Seq<char>, Seq<char>)| e.1,
            ),
            r matches Ok(s) ==> forall|i: int| 0 <= i < s.messangers@.len() ==> (#[trigger] s.messangers@[i]).dms@.len() == 0,
    {
        let es = read_entries(contents);
        let ghost ses = entries_of(contents@);
        let mut messangers: Vec<Discord> = Vec::new();
        for i in 0..es.len()
            invariant
                es@.len() == ses.len(),
                ses == entries_of(contents@),
                forall|k: int| 0 <= k < es@.len() ==> (#[trigger] es@[k]).0@ == ses[k].0 && es@[k].1@ == ses[k].1,
                forall|k: int| 0 <= k < i ==> (#[trigger] ses[k]).0 == "Discord"@,
                forall|k: int| 0 <= k < messangers@.len() ==> (#[trigger] messangers@[k]).dms@.len() == 0,
                tokens_of(messangers@) == ses.take(i as int).map_values(|e: (Seq<char>, Seq<char>)| e.1),
        {
            assert(es@[i as int].0@ == ses[i as int].0 && es@[i as int].1@ == ses[i as int].1);
            match Platform::from_str(es[i].0.as_str()) {
                Ok(p) => {
                    let ghost before = messangers@;
                    let m = p.get_messanger(es[i].1.clone());
                    assert(m.token@ == ses[i as int].1);
                    messangers.push(m);
                    assert(ses.take(i + 1) =~= ses.take(i as int).push(ses[i as int]));
                    assert(tokens_of(messangers@) =~= tokens_of(before).push(ses[i as int].1));
                    assert(tokens_of(messangers@) =~= ses.take(i + 1).map_values(
                        |e: (Seq<char>, Seq<char>)| e.1,
                    ));
                },
                Err(e) => {
                    return Err(e);
                },
            }
        }
        assert(ses.take(es@.len() as int) =~= ses);
        Ok(AuthStore { messangers })
    }

    pub fn get_messangers(&self) -> (r: &Vec<Discord>)
        ensures
            r == self.messangers,
    {
        &self.messangers
    }

    /// Whether the store holds an account equal to `messanger`: the same
    /// platform name and credential.
    pub fn contains(&self, messanger: &Discord) -> (r: bool)
        ensures
            r == tokens_of(self.messangers@).contains(messanger.token@),
    {
        for i in 0..self.messangers.len()
            invariant
                forall|j: int| 0 <= j < i ==> self.messangers@[j].token@ != messanger.token@,
        {
            proof {
                lemma_same_discord_iff_same_token(self.messangers@[i as int].token@, messanger.token@);
            }
            if same_messanger(&self.messangers[i], messanger) {
                assert(tokens_of(self.messangers@)[i as int] == messanger.token@);
                return true;
            }
        }
        proof {
            if tokens_of(self.messangers@).contains(messanger.token@) {
                let k = choose|k: int| 0 <= k < self.messangers@.len() && #[trigger] tokens_of(self.messangers@)[k]
                    == messanger.token@;
                assert(self.messangers@[k].token@ == messanger.token@);
            }
        }
        false
    }

    /// Adds an account the store does not hold yet; tells whether it did.
    /// The token file is then rewritten with `file_sync`; listeners are not
    /// told.
    pub fn add_auth_silently(&mut self, messangers: Discord) -> (r: bool)
        ensures
            r == !tokens_of(old(self).messangers@).contains(messangers.token@),
            r ==> final(self).messangers@ == old(self).messangers@.push(messangers),
            !r ==> final(self).messangers@ == old(self).messangers@,
    {
        if !self.contains(&messangers) {
            self.messangers.push(messangers);
            return true;
        }
        false
    }

    /// Adds an account the store does not hold yet; tells whether it did,
    /// and then the listeners are to be told.
    pub fn add_auth(&mut self, messangers: Discord) -> (r: bool)
        ensures
            r == !tokens_of(old(self).messangers@).contains(messangers.token@),
            r ==> final(self).messangers@ == old(self).messangers@.push(messangers),
            !r ==> final(self).messangers@ == old(self).messangers@,
    {
        self.add_auth_silently(messangers)
    }

    /// Keeps the accounts `f` accepts, each asked once, in order; the token
    /// file is then rewritten and the listeners told.
    pub fn retain<F: Fn(&Discord) -> bool>(&mut self, f: F)
        requires
            forall|m: &Discord| f.requires((m,)),
        ensures
            exists|keep: Seq<bool>|
                answers(f, old(self).messangers@, keep) && final(self).messangers@ == select(
                    old(self).messangers@,
                    keep,
                ),
    {
        let keep = retain_with(&mut self.messangers, f);
        assert(answers(f, old(self).messangers@, keep@));
    }

    /// The text the token file is rewritten to: every account, one line each.
    pub fn file_sync(&self) -> (r: String)
        ensures
            r@ == file_of(discord_entries(tokens_of(self.messangers@))),
    {
        let mut r = String::new();
        let ghost ts = tokens_of(self.messangers@);
        assert(entry_lines(discord_entries(ts.take(0))) =~= Seq::<Seq<char>>::empty());
        for i in 0..self.messangers.len()
            invariant
                ts == tokens_of(self.messangers@),
                r@ == file_of(discord_entries(ts.take(i as int))),
        {
            let m = &self.messangers[i];
            proof {
                assert(discord_entries(ts.take(i + 1)) =~= discord_entries(ts.take(i as int)).push(("Discord"@, m.token@)));
                assert(entry_lines(discord_entries(ts.take(i + 1))) =~= entry_lines(discord_entries(ts.take(i as int))).push(
                    entry_line("Discord"@, m.token@),
                ));
                lemma_join_lines_push(entry_lines(discord_entries(ts.take(i as int))), entry_line("Discord"@, m.token@));
            }
            r.append(m.name().as_str());
            push_char(&mut r, ':');
            r.append(m.auth().as_str());
            push_char(&mut r, '\n');
        }
        assert(ts.take(self.messangers@.len() as int) =~= ts);
        r
    }

    pub fn is_empty(&self) -> (r: bool)
        ensures
            r == (self.messangers@.len() == 0),
    {
        self.messangers.len() == 0
    }
}

/// Reading back: the token file `file_sync` writes is read by
/// `AuthStore::new` as exactly the accounts' tokens, in order, as long as no
/// token spans lines or ends in a carriage return.
pub proof fn lemma_synced_file_reads_back(tokens: Seq<Seq<char>>)
    requires
        forall|i: int| 0 <= i < tokens.len() ==> is_plain_line(#[trigger] tokens[i]),
    ensures
        all_discord(entries_of(file_of(discord_entries(tokens)))),
        entries_of(file_of(discord_entries(tokens))).map_values(|e: (Seq<char>, Seq<char>)| e.1) == tokens,
{
    reveal_strlit("Discord");
    let es = discord_entries(tokens);
    assert forall|i: int| 0 <= i < es.len() implies is_storable(#[trigger] es[i].0, es[i].1) by {
        let n = es[i].0;
        assert(n == "Discord"@);
        if n.contains(':') || n.contains('\n') {
            let j = choose|j: int| 0 <= j < n.len() && (n[j] == ':' || n[j] == '\n');
            assert(false);
        }
    }
    lemma_read_back(es);
    assert(es.map_values(|e: (Seq<char>, Seq<char>)| e.1) =~= tokens);
}

} // verus!
