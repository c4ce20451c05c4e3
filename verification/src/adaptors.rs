//! The messenger adaptors: platform-neutral types and the Discord adaptor.

pub mod discord;
pub mod network;
pub mod types;

use vstd::prelude::*;

use discord::Discord;

verus! {

/// Two accounts are the same when their platform names followed by their
/// credentials spell the same text.
pub open spec fn same_account(a_name: Seq<char>, a_auth: Seq<char>, b_name: Seq<char>, b_auth: Seq<char>) -> bool {
    a_name + a_auth == b_name + b_auth
}

/// Whether two messengers are the same account (`==` on messengers).
pub fn same_messanger(a: &Discord, b: &Discord) -> (r: bool)
    ensures
        r == same_account("Discord"@, a.token@, "Discord"@, b.token@),
{
    let mut x = a.name();
    x.append(a.auth().as_str());
    let mut y = b.name();
    y.append(b.auth().as_str());
    x == y
}

/// Two Discord accounts are the same exactly when their tokens are.
pub proof fn lemma_same_discord_iff_same_token(a: Seq<char>, b: Seq<char>)
    ensures
        same_account("Discord"@, a, "Discord"@, b) <==> a == b,
{
    let n = "Discord"@;
    if n + a == n + b {
        assert(a =~= (n + a).skip(n.len() as int));
        assert(b =~= (n + b).skip(n.len() as int));
    }
}

} // verus!
