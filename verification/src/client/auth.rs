//! The client's sign-ins: which platform, which token, and the store that
//! keeps them in the token file.

use vstd::prelude::*;

use secure_string::SecureString;

use crate::client::backend::discord::rest_api::Discord;
use crate::selection::{answers, retain_with, select};
use crate::text::{is_plain_line, lemma_join_lines_push, push_char};
use crate::token_file::{
    entries_of, entry_line, entry_lines, file_of, is_storable, lemma_appended_entries, lemma_read_back, read_entries,
};

verus! {

#[verifier::external_type_specification]
#[verifier::external_body]
pub struct ExSecureString(SecureString);

/// The text a `SecureString` holds.
pub uninterp spec fn secret_text(s: SecureString) -> Seq<char>;

/// `SecureString::from(String)`: the secure string holds the given text.
#[verifier::external_body]
fn secure_from(s: String) -> (r: SecureString)
    ensures
        secret_text(r) == s@,
{
    SecureString::from(s)
}

/// `SecureString::clone` followed by `into_unsecure`: the text it holds.
#[verifier::external_body]
fn reveal_secret(s: &SecureString) -> (r: String)
    ensures
        r@ == secret_text(*s),
{
    s.clone().into_unsecure()
}

/// The platforms a sign-in can be for.
#[derive(Debug, Clone, Copy, PartialEq, Eq, Structural)]
pub enum Platform {
    Discord,
    Unkown,
}

/// A name that no platform carries.
#[derive(Debug, Clone, Copy, PartialEq, Eq, Structural)]
pub enum ParseError {
    VariantNotFound,
}

/// The name a platform is written under (its variant's name).
pub open spec fn platform_name(p: Platform) -> Seq<char> {
    match p {
        Platform::Discord => "Discord"@,
        Platform::Unkown => "Unkown"@,
    }
}

/// The platform written under `s`, if any.
pub open spec fn platform_of(s: Seq<char>) -> Option<Platform> {
    if s == "Discord"@ {
        Some(Platform::Discord)
    } else if s == "Unkown"@ {
        Some(Platform::Unkown)
    } else {
        None
    }
}

impl Platform {
    /// The platform whose variant name is exactly `s`.
    pub fn from_str(s: &str) -> (r: Result<Platform, ParseError>)
        ensures
            r matches Ok(p) ==> platform_of(s@) == Some(p),
            r is Err ==> platform_of(s@) is None,
    {
        let s = s.to_owned();
        if s == String::from_str("Discord") {
            Ok(Platform::Discord)
        } else if s == String::from_str("Unkown") {
            Ok(Platform::Unkown)
        } else {
            Err(ParseError::VariantNotFound)
        }
    }

    /// The variant's name (what `{:?}` prints).
    pub fn name(&self) -> (r: String)
        ensures
            r@ == platform_name(*self),
    {
        match self {
            Platform::Discord => String::from_str("Discord"),
            Platform::Unkown => String::from_str("Unkown"),
        }
    }
}

/// A sign-in: a platform and its token.
pub struct Auth {
    pub platform: Platform,
    pub token: SecureString,
}

/// What a sign-in amounts to: its platform and the text of its token.
pub open spec fn auth_view(a: Auth) -> (Platform, Seq<char>) {
    (a.platform, secret_text(a.token))
}

impl Auth {
    pub fn new(platform: Platform, token: String) -> (r: Auth)
        ensures
            auth_view(r) == (platform, token@),
    {
        Auth { platform, token: secure_from(token) }
    }

    /// The backend that talks to the sign-in's platform.
    pub fn get_messanger(&self) -> (r: Discord<'_>)
        requires
            self.platform == Platform::Discord,
        ensures
            r.auth == self,
    {
        Discord { auth: self }
    }

    /// The token in clear.
    pub fn token_text(&self) -> (r: String)
        ensures
            r@ == secret_text(self.token),
    {
        reveal_secret(&self.token)
    }

    /// The line the sign-in is written as: `{platform:?}:{token}`.
    pub fn to_line(&self) -> (r: String)
        ensures
            r@ == entry_line(platform_name(self.platform), secret_text(self.token)),
    {
        let mut r = self.platform.name();
        push_char(&mut r, ':');
        let t = self.token_text();
        r.append(t.as_str());
        r
    }
}

/// The sign-ins the lines of a token file amount to, or nothing when a line
/// names no platform.
pub open spec fn auths_of_entries(es: Seq<(Seq<char>, Seq<char>)>) -> Option<Seq<(Platform, Seq<char>)>>
    decreases es.len(),
{
    if es.len() == 0 {
        Some(seq![])
    } else {
        match (platform_of(es[0].0), auths_of_entries(es.drop_first())) {
            (Some(p), Some(rest)) => Some(seq![(p, es[0].1)] + rest),
            _ => None,
        }
    }
}

/// The sign-ins a token file holds, or nothing when a line names no platform.
pub open spec fn auths_of_file(text: Seq<char>) -> Option<Seq<(Platform, Seq<char>)>> {
    auths_of_entries(entries_of(text))
}

/// The sign-ins of the client, in the order they were read or added.
pub struct AuthStore {
    pub auths: Vec<Auth>,
}

impl AuthStore {
    /// What the store holds.
    pub open spec fn view_auths(&self) -> Seq<(Platform, Seq<char>)> {
        self.auths@.map_values(|a: Auth| auth_view(a))
    }

    /// The store a token file holds; a line that names no platform is an
    /// error.
    pub fn new(contents: &str) -> (r: Result<AuthStore, ParseError>)
        ensures
            r matches Ok(s) ==> auths_of_file(contents@) == Some(s.view_auths()),
            r is Err ==> auths_of_file(contents@) is None,
    {
        let es = read_entries(contents);
        let ghost ses = entries_of(contents@);
        let mut auths: Vec<Auth> = Vec::new();
        for i in 0..es.len()
            invariant
                es@.len() == ses.len(),
                ses == entries_of(contents@),
                forall|k: int| 0 <= k < es@.len() ==> (#[trigger] es@[k]).0@ == ses[k].0 && es@[k].1@ == ses[k].1,
                auths_of_entries(ses.take(i as int)) == Some(auths@.map_values(|a: Auth| auth_view(a))),
        {
            assert(es@[i as int].0@ == ses[i as int].0 && es@[i as int].1@ == ses[i as int].1);
            proof {
                assert(ses.take(i + 1) =~= ses.take(i as int).push(ses[i as int]));
                lemma_auths_of_entries_push(ses.take(i as int), ses[i as int]);
            }
            match Platform::from_str(es[i].0.as_str()) {
                Ok(p) => {
                    let ghost before = auths@;
                    auths.push(Auth::new(p, es[i].1.clone()));
                    assert(auths@.map_values(|a: Auth| auth_view(a)) =~= before.map_values(|a: Auth| auth_view(a)).push(
                        (p, ses[i as int].1),
                    ));
                },
                Err(e) => {
                    proof {
                        lemma_auths_of_entries_fails_from(ses, i as int);
                    }
                    return Err(e);
                },
            }
        }
        assert(ses.take(es@.len() as int) =~= ses);
        Ok(AuthStore { auths })
    }

    /// The `i`-th sign-in.
    pub fn get(&self, i: usize) -> (r: &Auth)
        requires
            i < self.auths@.len(),
        ensures
            *r == self.auths@[i as int],
    {
        &self.auths[i]
    }

    /// Adds a sign-in; the result is the line to append to the token file.
    pub fn add(&mut self, platform: Platform, token: String) -> (r: String)
        ensures
            final(self).view_auths() == old(self).view_auths().push((platform, token@)),
            r@ == entry_line(platform_name(platform), token@) + seq!['\n'],
    {
        let auth = Auth::new(platform, token);
        let mut line = auth.to_line();
        push_char(&mut line, '\n');
        let ghost before = self.auths@;
        self.auths.push(auth);
        assert(self.view_auths() =~= before.map_values(|a: Auth| auth_view(a)).push((platform, secret_text(self.auths@.last().token))));
        line
    }

    pub fn is_empty(&self) -> (r: bool)
        ensures
            r == (self.auths@.len() == 0),
    {
        self.auths.len() == 0
    }

    /// Keeps the sign-ins `f` accepts, each asked once, in order; the result
    /// is the text the token file is rewritten to.
    pub fn retain_and_rewrite<F: Fn(&Auth) -> bool>(&mut self, f: F) -> (r: String)
        requires
            forall|a: &Auth| f.requires((a,)),
        ensures
            exists|keep: Seq<bool>|
                answers(f, old(self).auths@, keep) && final(self).auths@ == select(old(self).auths@, keep),
            r@ == file_of(named_entries(final(self).view_auths())),
    {
        let keep = retain_with(&mut self.auths, f);
        assert(answers(f, old(self).auths@, keep@));
        self.file_contents()
    }

    /// The token file of the store: every sign-in, one line each.
    pub fn file_contents(&self) -> (r: String)
        ensures
            r@ == file_of(named_entries(self.view_auths())),
    {
        let mut r = String::new();
        let ghost v = self.view_auths();
        assert(named_entries(v.take(0)) =~= Seq::<(Seq<char>, Seq<char>)>::empty());
        assert(entry_lines(named_entries(v.take(0))) =~= Seq::<Seq<char>>::empty());
        for i in 0..self.auths.len()
            invariant
                v == self.view_auths(),
                r@ == file_of(named_entries(v.take(i as int))),
        {
            let line = self.auths[i].to_line();
            proof {
                assert(v.take(i + 1) =~= v.take(i as int).push(v[i as int]));
                lemma_add_extends_file(v.take(i as int), v[i as int].0, v[i as int].1);
            }
            r.append(line.as_str());
            push_char(&mut r, '\n');
        }
        assert(v.take(v.len() as int) =~= v);
        r
    }
}

/// Whether a sign-in stays after its data was refreshed: it goes only when
/// the refresh was refused as unauthorized (the token expired).
pub fn keeps_sign_in(refresh: &Result<(), u16>) -> (r: bool)
    ensures
        r == !(refresh matches Err(s) && s == 401),
{
    match refresh {
        Ok(()) => true,
        Err(status) => *status != 401,
    }
}

/// One more line adds its sign-in after the others, or fails.
proof fn lemma_auths_of_entries_push(es: Seq<(Seq<char>, Seq<char>)>, e: (Seq<char>, Seq<char>))
    ensures
        auths_of_entries(es.push(e)) == (match (auths_of_entries(es), platform_of(e.0)) {
            (Some(a), Some(p)) => Some(a.push((p, e.1))),
            _ => None,
        }),
    decreases es.len(),
{
    if es.len() == 0 {
        assert(es.push(e).drop_first() =~= Seq::<(Seq<char>, Seq<char>)>::empty());
        assert(es.push(e)[0] == e);
        assert(auths_of_entries(es) == Some(Seq::<(Platform, Seq<char>)>::empty()));
        assert(auths_of_entries(es.push(e).drop_first()) == Some(Seq::<(Platform, Seq<char>)>::empty()));
        if let Some(p) = platform_of(e.0) {
            assert(seq![(p, e.1)] + Seq::<(Platform, Seq<char>)>::empty() =~= Seq::<(Platform, Seq<char>)>::empty().push(
                (p, e.1),
            ));
        }
    } else {
        assert(es.push(e).drop_first() =~= es.drop_first().push(e));
        assert(es.push(e)[0] == es[0]);
        lemma_auths_of_entries_push(es.drop_first(), e);
        if let (Some(a), Some(p)) = (auths_of_entries(es.drop_first()), platform_of(e.0)) {
            if let Some(p0) = platform_of(es[0].0) {
                assert(seq![(p0, es[0].1)] + a.push((p, e.1)) =~= (seq![(p0, es[0].1)] + a).push((p, e.1)));
            }
        }
    }
}

/// A failing line anywhere in a suffix makes the whole list fail.
proof fn lemma_auths_of_entries_fails_from(es: Seq<(Seq<char>, Seq<char>)>, k: int)
    requires
        0 <= k < es.len(),
        platform_of(es[k].0) is None,
    ensures
        auths_of_entries(es) is None,
    decreases k,
{
    if k == 0 {
    } else {
        assert(es.drop_first()[k - 1] == es[k]);
        lemma_auths_of_entries_fails_from(es.drop_first(), k - 1);
    }
}


/// The lines a list of sign-ins is written as.
pub open spec fn named_entries(auths: Seq<(Platform, Seq<char>)>) -> Seq<(Seq<char>, Seq<char>)> {
    auths.map_values(|a: (Platform, Seq<char>)| (platform_name(a.0), a.1))
}

proof fn lemma_platform_name(p: Platform)
    ensures
        platform_of(platform_name(p)) == Some(p),
        !platform_name(p).contains(':'),
        !platform_name(p).contains('\n'),
{
    reveal_strlit("Discord");
    reveal_strlit("Unkown");
    assert("Discord"@ != "Unkown"@) by {
        assert("Discord"@[0] != "Unkown"@[0]);
    }
    if platform_name(p).contains(':') || platform_name(p).contains('\n') {
        let j = choose|j: int| 0 <= j < platform_name(p).len() && (platform_name(p)[j] == ':' || platform_name(p)[j] == '\n');
        assert(false);
    }
}

proof fn lemma_auths_of_named(auths: Seq<(Platform, Seq<char>)>)
    ensures
        auths_of_entries(named_entries(auths)) == Some(auths),
    decreases auths.len(),
{
    if auths.len() > 0 {
        assert(named_entries(auths).drop_first() =~= named_entries(auths.drop_first()));
        lemma_auths_of_named(auths.drop_first());
        lemma_platform_name(auths[0].0);
        assert(auths =~= seq![auths[0]] + auths.drop_first());
    }
}

/// Reading back: a token file written by `AuthStore::add`, one sign-in after
/// another, is read by `AuthStore::new` as exactly those sign-ins, in order,
/// as long as no token spans lines or ends in a carriage return.
pub proof fn lemma_written_auths_read_back(auths: Seq<(Platform, Seq<char>)>)
    requires
        forall|i: int| 0 <= i < auths.len() ==> is_plain_line(#[trigger] auths[i].1),
    ensures
        auths_of_file(file_of(named_entries(auths))) == Some(auths),
{
    let es = named_entries(auths);
    assert forall|i: int| 0 <= i < es.len() implies is_storable(#[trigger] es[i].0, es[i].1) by {
        lemma_platform_name(auths[i].0);
    }
    lemma_read_back(es);
    lemma_auths_of_named(auths);
}

/// What `AuthStore::add` returns extends the file of the earlier sign-ins to
/// the file of all of them.
pub proof fn lemma_add_extends_file(auths: Seq<(Platform, Seq<char>)>, platform: Platform, token: Seq<char>)
    ensures
        file_of(named_entries(auths)) + entry_line(platform_name(platform), token) + seq!['\n']
            == file_of(named_entries(auths.push((platform, token)))),
{
    let es = named_entries(auths);
    assert(named_entries(auths.push((platform, token))) =~= es.push((platform_name(platform), token)));
    assert(entry_lines(es.push((platform_name(platform), token))) =~= entry_lines(es).push(
        entry_line(platform_name(platform), token),
    ));
    lemma_join_lines_push(entry_lines(es), entry_line(platform_name(platform), token));
}


/// Two lists of lines read one after the other give the sign-ins of the
/// first and then those of the second, or fail when either fails.
proof fn lemma_auths_of_entries_append(e1: Seq<(Seq<char>, Seq<char>)>, e2: Seq<(Seq<char>, Seq<char>)>)
    ensures
        auths_of_entries(e1 + e2) == (match (auths_of_entries(e1), auths_of_entries(e2)) {
            (Some(a), Some(b)) => Some(a + b),
            _ => None,
        }),
    decreases e1.len(),
{
    if e1.len() == 0 {
        assert(e1 + e2 =~= e2);
        if let Some(b) = auths_of_entries(e2) {
            assert(Seq::<(Platform, Seq<char>)>::empty() + b =~= b);
        }
    } else {
        assert((e1 + e2).drop_first() =~= e1.drop_first() + e2);
        assert((e1 + e2)[0] == e1[0]);
        lemma_auths_of_entries_append(e1.drop_first(), e2);
        if let (Some(p), Some(a), Some(b)) = (platform_of(e1[0].0), auths_of_entries(e1.drop_first()), auths_of_entries(e2)) {
            assert(seq![(p, e1[0].1)] + (a + b) =~= (seq![(p, e1[0].1)] + a) + b);
        }
    }
}

/// Appending: when a token file that is empty or ends in a line break reads
/// as the sign-ins `before`, and the lines `AuthStore::add` returns for the
/// sign-ins `added` are appended to it, the file reads as `before` followed
/// by `added`, in order, as long as no added token spans lines or ends in a
/// carriage return.
pub proof fn lemma_appended_auths_read_back(
    file: Seq<char>,
    before: Seq<(Platform, Seq<char>)>,
    added: Seq<(Platform, Seq<char>)>,
)
    requires
        file.len() == 0 || file.last() == '\n',
        auths_of_file(file) == Some(before),
        forall|i: int| 0 <= i < added.len() ==> is_plain_line(#[trigger] added[i].1),
    ensures
        auths_of_file(file + file_of(named_entries(added))) == Some(before + added),
{
    let es = named_entries(added);
    assert forall|i: int| 0 <= i < es.len() implies is_storable(#[trigger] es[i].0, es[i].1) by {
        lemma_platform_name(added[i].0);
    }
    lemma_appended_entries(file, es);
    lemma_auths_of_named(added);
    lemma_auths_of_entries_append(entries_of(file), es);
}

} // verus!
