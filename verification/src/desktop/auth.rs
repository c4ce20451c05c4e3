//! The desktop front end's sign-ins: the Discord accounts it keeps, which of
//! them belong in the token file, and the text the file is rewritten to.

use vstd::prelude::*;

use crate::adaptors::discord::Discord;
use crate::adaptors::{lemma_same_discord_iff_same_token, same_messanger};
use crate::selection::{answers, retain_with, select};
use crate::text::{is_plain_line, lemma_join_lines_push, push_char};
use crate::token_file::{entries_of, entry_line, entry_lines, file_of, read_entries};
use crate::tray::auth::{all_discord, discord_entries, lemma_synced_file_reads_back};

use super::pages::login::Platform;

verus! {

/// An account of the store; `on_disk` tells whether the token file keeps it.
pub struct Messanger {
    pub auth: Discord,
    pub on_disk: bool,
}

/// Why a token file could not be read.
#[derive(Debug, Clone, Copy, PartialEq, Eq, Structural)]
pub enum LoadError {
    /// A line names no platform.
    VariantNotFound,
    /// A line names the test platform, which has no accounts.
    NotImplemented,
}

/// The tokens of the accounts the token file keeps, in order.
pub open spec fn disk_tokens(ms: Seq<Messanger>) -> Seq<Seq<char>>
    decreases ms.len(),
{
    if ms.len() == 0 {
        seq![]
    } else if ms.last().on_disk {
        disk_tokens(ms.drop_last()).push(ms.last().auth.token@)
    } else {
        disk_tokens(ms.drop_last())
    }
}

/// The tokens of all accounts, in order.
pub open spec fn all_tokens(ms: Seq<Messanger>) -> Seq<Seq<char>> {
    ms.map_values(|m: Messanger| m.auth.token@)
}

/// The desktop front end's accounts, in the order they were read or added.
pub struct AuthStore {
    pub messangers: Vec<Messanger>,
}

impl AuthStore {
    /// The accounts a token file holds, none of them marked as kept by the
    /// file. The first line that does not name Discord is an error: the test
    /// platform has no accounts, any other name no platform.
    pub fn new(contents: &str) -> (r: Result<AuthStore, LoadError>)
        ensures
            r is Ok <==> (forall|i: int|
                0 <= i < entries_of(contents@).len() ==> (#[trigger] entries_of(contents@)[i]).0 == "Discord"@),
            r matches Ok(s) ==> {
                &&& all_tokens(s.messangers@) == entries_of(contents@).map_values(
                    |e: (Seq<char>, Seq<char>)| e.1,
                )
                &&& forall|i: int| 0 <= i < s.messangers@.len() ==> !(#[trigger] s.messangers@[i]).on_disk
                &&& forall|i: int| 0 <= i < s.messangers@.len() ==> (#[trigger] s.messangers@[i]).auth.dms@.len() == 0
            },
            r matches Err(e) ==> exists|k: int|
                0 <= k < entries_of(contents@).len() && (forall|j: int|
                    0 <= j < k ==> (#[trigger] entries_of(contents@)[j]).0 == "Discord"@) && entries_of(
                    contents@,
                )[k].0 != "Discord"@ && e == (if entries_of(contents@)[k].0 == "Test"@ {
                    LoadError::NotImplemented
                } else {
                    LoadError::VariantNotFound
                }),
    {
        let es = read_entries(contents);
        let ghost ses = entries_of(contents@);
        let mut messangers: Vec<Messanger> = Vec::new();
        for i in 0..es.len()
            invariant
                es@.len() == ses.len(),
                ses == entries_of(contents@),
                forall|k: int| 0 <= k < es@.len() ==> (#[trigger] es@[k]).0@ == ses[k].0 && es@[k].1@ == ses[k].1,
                forall|k: int| 0 <= k < i ==> (#[trigger] ses[k]).0 == "Discord"@,
                all_tokens(messangers@) == ses.take(i as int).map_values(|e: (Seq<char>, Seq<char>)| e.1),
                forall|k: int| 0 <= k < messangers@.len() ==> !(#[trigger] messangers@[k]).on_disk,
                forall|k: int| 0 <= k < messangers@.len() ==> (#[trigger] messangers@[k]).auth.dms@.len() == 0,
        {
            assert(es@[i as int].0@ == ses[i as int].0 && es@[i as int].1@ == ses[i as int].1);
            match Platform::from_str(es[i].0.as_str()) {
                Ok(Platform::Discord) => {
                    let ghost before = messangers@;
                    let auth = Discord::new(es[i].1.as_str());
                    messangers.push(Messanger { auth, on_disk: false });
                    assert(ses.take(i + 1) =~= ses.take(i as int).push(ses[i as int]));
                    assert(all_tokens(messangers@) =~= all_tokens(before).push(ses[i as int].1));
                },
                Ok(Platform::Test) => {
                    proof {
                        reveal_strlit("Test");
                        reveal_strlit("Discord");
                        assert("Test"@.len() != "Discord"@.len());
                        assert(ses[i as int].0 != "Discord"@);
                        assert(ses[i as int].0 == "Test"@);
                    }
                    return Err(LoadError::NotImplemented);
                },
                Err(_) => {
                    return Err(LoadError::VariantNotFound);
                },
            }
        }
        assert(ses.take(es@.len() as int) =~= ses);
        Ok(AuthStore { messangers })
    }

    pub fn get_messangers(&self) -> (r: &Vec<Messanger>)
        ensures
            r == self.messangers,
    {
        &self.messangers
    }

    /// Whether the store holds an account equal to `auth`: the same platform
    /// name and credential.
    pub fn contains_auth(&self, auth: &Discord) -> (r: bool)
        ensures
            r == all_tokens(self.messangers@).contains(auth.token@),
    {
        for i in 0..self.messangers.len()
            invariant
                forall|j: int| 0 <= j < i ==> self.messangers@[j].auth.token@ != auth.token@,
        {
            proof {
                lemma_same_discord_iff_same_token(self.messangers@[i as int].auth.token@, auth.token@);
            }
            if same_messanger(&self.messangers[i].auth, auth) {
                assert(all_tokens(self.messangers@)[i as int] == auth.token@);
                return true;
            }
        }
        proof {
            if all_tokens(self.messangers@).contains(auth.token@) {
                let k = choose|k: int| 0 <= k < self.messangers@.len() && #[trigger] all_tokens(self.messangers@)[k]
                    == auth.token@;
                assert(self.messangers@[k].auth.token@ == auth.token@);
            }
        }
        false
    }

    /// Adds an account the store does not hold yet, to be kept by the token
    /// file; tells whether it did. The file is then rewritten with
    /// `save_on_disk`.
    pub fn add_auth(&mut self, auth: Discord) -> (r: bool)
        ensures
            r == !all_tokens(old(self).messangers@).contains(auth.token@),
            r ==> final(self).messangers@ == old(self).messangers@.push((Messanger { auth: auth, on_disk: true })),
            r ==> all_tokens(final(self).messangers@) == all_tokens(old(self).messangers@).push(auth.token@),
            r ==> disk_tokens(final(self).messangers@) == disk_tokens(old(self).messangers@).push(auth.token@),
            !r ==> final(self).messangers@ == old(self).messangers@,
    {
        if !self.contains_auth(&auth) {
            let ghost before = self.messangers@;
            let ghost t = auth.token@;
            self.messangers.push(Messanger { auth, on_disk: true });
            assert(self.messangers@.drop_last() =~= before);
            assert(all_tokens(self.messangers@) =~= all_tokens(before).push(t));
            return true;
        }
        false
    }

    /// Keeps the accounts `f` accepts, each asked once, in order; the token
    /// file is then rewritten and the listeners told.
    pub fn retain<F: Fn(&Messanger) -> bool>(&mut self, f: F)
        requires
            forall|m: &Messanger| f.requires((m,)),
        ensures
            exists|keep: Seq<bool>|
                answers(f, old(self).messangers@, keep) && final(self).messangers@ == select(
                    old(self).messangers@,
                    keep,
                ),
    {
        let keep = retain_with(&mut self.messangers, f);
        assert(answers(f, old(self).messangers@, keep@));
    }

    /// The text the token file is rewritten to: the accounts it keeps, one
    /// line each; the others are left out.
    pub fn save_on_disk(&self) -> (r: String)
        ensures
            r@ == file_of(discord_entries(disk_tokens(self.messangers@))),
    {
        let mut r = String::new();
        let ghost ms = self.messangers@;
        assert(entry_lines(discord_entries(disk_tokens(ms.take(0)))) =~= Seq::<Seq<char>>::empty());
        for i in 0..self.messangers.len()
            invariant
                ms == self.messangers@,
                r@ == file_of(discord_entries(disk_tokens(ms.take(i as int)))),
        {
            let m = &self.messangers[i];
            assert(ms.take(i + 1).drop_last() =~= ms.take(i as int));
            if m.on_disk {
                let ghost ts = disk_tokens(ms.take(i as int));
                proof {
                    assert(discord_entries(ts.push(m.auth.token@)) =~= discord_entries(ts).push(("Discord"@, m.auth.token@)));
                    assert(entry_lines(discord_entries(ts).push(("Discord"@, m.auth.token@))) =~= entry_lines(
                        discord_entries(ts),
                    ).push(entry_line("Discord"@, m.auth.token@)));
                    lemma_join_lines_push(entry_lines(discord_entries(ts)), entry_line("Discord"@, m.auth.token@));
                }
                r.append(m.auth.name().as_str());
                push_char(&mut r, ':');
                r.append(m.auth.auth().as_str());
                push_char(&mut r, '\n');
            }
        }
        assert(ms.take(ms.len() as int) =~= ms);
        r
    }

    pub fn is_empty(&self) -> (r: bool)
        ensures
            r == (self.messangers@.len() == 0),
    {
        self.messangers.len() == 0
    }
}

/// Reading back: the file `save_on_disk` writes is read by `AuthStore::new`
/// as exactly the accounts the file keeps, in order, as long as no token
/// spans lines or ends in a carriage return.
pub proof fn lemma_saved_accounts_read_back(ms: Seq<Messanger>)
    requires
        forall|i: int| 0 <= i < disk_tokens(ms).len() ==> is_plain_line(#[trigger] disk_tokens(ms)[i]),
    ensures
        all_discord(entries_of(file_of(discord_entries(disk_tokens(ms))))),
        entries_of(file_of(discord_entries(disk_tokens(ms)))).map_values(|e: (Seq<char>, Seq<char>)| e.1)
            == disk_tokens(ms),
{
    lemma_synced_file_reads_back(disk_tokens(ms));
}

/// The token file keeps none of the accounts it was read from: they are not
/// written back.
pub proof fn lemma_read_accounts_not_kept(ms: Seq<Messanger>)
    requires
        forall|i: int| 0 <= i < ms.len() ==> !(#[trigger] ms[i]).on_disk,
    ensures
        disk_tokens(ms) == Seq::<Seq<char>>::empty(),
    decreases ms.len(),
{
    if ms.len() > 0 {
        assert forall|i: int| 0 <= i < ms.drop_last().len() implies !(#[trigger] ms.drop_last()[i]).on_disk by {
            assert(ms.drop_last()[i] == ms[i]);
        }
        lemma_read_accounts_not_kept(ms.drop_last());
        assert(!ms[ms.len() - 1].on_disk);
    }
}

} // verus!
